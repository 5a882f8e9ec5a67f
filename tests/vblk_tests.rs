use colinux_daemon::vblk::{encode_req, Inflight, Op, Poll, Retired, Vblk, VblkReq};

fn read_req(lba: u64) -> VblkReq {
    VblkReq { op: Op::Read, lba, len: 1024, buf: Vec::new() }
}

#[test]
fn inflight_never_exceeds_depth() {
    let mut q = Vblk::new(4);
    let mut started = 0usize;
    for i in 0..100u64 {
        started += q.submit(read_req(i)).len();
        assert!(q.inflight_records().len() <= 4);
    }
    assert_eq!(started, 4);
    let mut retired = 0usize;
    let mut rounds = 0;
    while !q.inflight_records().is_empty() {
        let polls = vec![Poll::Done { len: 1024 }; q.inflight_records().len()];
        let (reports, launched) = q.drain_completions(polls);
        retired += reports.len();
        started += launched.len();
        assert!(q.inflight_records().len() <= 4);
        rounds += 1;
        assert!(rounds <= 30);
    }
    assert_eq!(retired, 100);
    assert_eq!(started, 100);
}

#[test]
fn pending_polls_stay_and_finished_ones_backfill() {
    let mut q = Vblk::new(2);
    let a = q.enqueue(1, read_req(10));
    let b = q.enqueue(2, read_req(20));
    let c = q.enqueue(3, VblkReq { op: Op::Write, lba: 30, len: 512, buf: vec![1; 512] });
    assert_eq!(a.len() + b.len() + c.len(), 2);
    assert_eq!(a[0].0, 1);
    assert_eq!(b[0].0, 2);
    let (reports, launched) = q.drain_completions(vec![Poll::Pending, Poll::Failed]);
    assert_eq!(reports, vec![Retired::Failed { id: 2, lba: 20 }]);
    assert_eq!(launched.len(), 1);
    assert_eq!(launched[0].0, 3);
    assert_eq!(launched[0].1.buf.len(), 512);
    let recs = q.inflight_records();
    assert_eq!(recs, vec![
        Inflight { id: 1, op: Op::Read, lba: 10, len: 1024 },
        Inflight { id: 3, op: Op::Write, lba: 30, len: 512 },
    ]);
}

#[test]
fn short_read_still_retires() {
    let mut q = Vblk::new(4);
    q.enqueue(9, read_req(0x40));
    let (reports, _) = q.drain_completions(vec![Poll::Done { len: 512 }]);
    assert_eq!(reports, vec![Retired::ShortRead { id: 9, lba: 0x40, got: 512, expected: 1024 }]);
    assert!(q.inflight_records().is_empty());
}

#[test]
fn closed_endpoint_and_write_completion() {
    let mut q = Vblk::new(4);
    q.enqueue(5, read_req(1));
    q.enqueue(6, VblkReq { op: Op::Write, lba: 2, len: 512, buf: vec![0; 512] });
    let (reports, _) = q.drain_completions(vec![Poll::Closed, Poll::Done { len: 0 }]);
    assert_eq!(reports, vec![Retired::Closed { id: 5, lba: 1 }, Retired::Complete { id: 6 }]);
}

#[test]
fn random_ids_differ() {
    let mut q = Vblk::new(8);
    let a = q.submit(read_req(1));
    let b = q.submit(read_req(2));
    assert_ne!(a[0].0, b[0].0);
    assert_eq!(a[0].0 >> 76 & 0xF, 4);
}

#[test]
fn zero_depth_starts_nothing() {
    let mut q = Vblk::new(0);
    assert!(q.submit(read_req(1)).is_empty());
    let (r, l) = q.drain_completions(Vec::new());
    assert!(r.is_empty() && l.is_empty());
}

#[test]
fn legacy_wire_format() {
    let req = VblkReq { op: Op::Write, lba: 0x0102030405060708, len: 0x200, buf: vec![0xAB, 0xCD] };
    assert_eq!(
        encode_req(&req),
        vec![1, 0, 0, 0, 8, 7, 6, 5, 4, 3, 2, 1, 0x00, 0x02, 0, 0, 0xAB, 0xCD]
    );
    let req = VblkReq { op: Op::Read, lba: 1, len: 1, buf: Vec::new() };
    assert_eq!(encode_req(&req), vec![0, 0, 0, 0, 1, 0, 0, 0, 0, 0, 0, 0, 1, 0, 0, 0]);
}
