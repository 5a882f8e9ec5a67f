use colinux_daemon::device::MapInfo;
use colinux_daemon::vblk_ring::{
    RingError, SlotStep, VblkRing, CONS_OFF, ST_EINVAL, ST_EIO, ST_OK, VBLK_DATA_OFF, VBLK_SLOT_DATA_STRIDE,
};

const SLOT0: usize = 0x1010;

fn window(cap: u32) -> Vec<u8> {
    let mut w = vec![0u8; VBLK_DATA_OFF + cap as usize * VBLK_SLOT_DATA_STRIDE];
    w[0x1008..0x100C].copy_from_slice(&cap.to_le_bytes());
    w[0x100C..0x1010].copy_from_slice(&32u32.to_le_bytes());
    w
}

fn set_slot(w: &mut [u8], index: usize, op: u8, lba: u64, len: u32, data_off: u32) {
    let so = SLOT0 + 32 * index;
    w[so..so + 8].copy_from_slice(&(index as u64 + 77).to_le_bytes());
    w[so + 8] = op;
    w[so + 16..so + 24].copy_from_slice(&lba.to_le_bytes());
    w[so + 24..so + 28].copy_from_slice(&len.to_le_bytes());
    w[so + 28..so + 32].copy_from_slice(&data_off.to_le_bytes());
}

fn set_prod(w: &mut [u8], prod: u32) {
    w[0x1000..0x1004].copy_from_slice(&prod.to_le_bytes());
}

fn cons(w: &[u8]) -> u32 {
    u32::from_le_bytes(w[CONS_OFF..CONS_OFF + 4].try_into().unwrap())
}

fn ring() -> VblkRing {
    let map = MapInfo { user_base: 0x1000_0000, kernel_base: 0, size: 0x200000, ver: 1, flags: 0 };
    VblkRing::new(map).unwrap()
}

#[test]
fn read_slot_is_serviced() {
    let mut w = window(4);
    set_slot(&mut w, 0, 0, 0x100, 1024, 0);
    set_prod(&mut w, 1);
    let r = ring();
    let step = r.next_slot(&mut w);
    assert_eq!(step, SlotStep::Read { index: 0, lba: 0x100, len: 1024, data_off: 0 });
    let device_out: Vec<u8> = (0..1024u32).map(|i| (i * 7 % 256) as u8).collect();
    r.complete(&mut w, step, Some(device_out.clone()));
    assert_eq!(cons(&w), 1);
    assert_eq!(w[SLOT0 + 9], ST_OK);
    assert_eq!(&w[VBLK_DATA_OFF..VBLK_DATA_OFF + 1024], &device_out[..]);
    assert_eq!(r.next_slot(&mut w), SlotStep::Idle);
}

#[test]
fn misaligned_slot_is_rejected() {
    let mut w = window(4);
    set_slot(&mut w, 0, 0, 0x100, 513, 0);
    set_prod(&mut w, 1);
    let r = ring();
    let step = r.next_slot(&mut w);
    assert_eq!(step, SlotStep::Rejected { index: 0 });
    assert_eq!(w[SLOT0 + 9], ST_EINVAL);
    assert_eq!(cons(&w), 1);
}

#[test]
fn slot_beyond_data_window_is_rejected() {
    let mut w = window(4);
    set_slot(&mut w, 0, 1, 0x10, 1024, 4 * 0x20000 - 512);
    set_prod(&mut w, 1);
    let r = ring();
    assert_eq!(r.next_slot(&mut w), SlotStep::Rejected { index: 0 });
    assert_eq!(w[SLOT0 + 9], ST_EINVAL);
    assert_eq!(cons(&w), 1);
}

#[test]
fn zero_oversized_and_unknown_op_are_rejected() {
    let mut w = window(4);
    set_slot(&mut w, 0, 0, 0, 0, 0);
    set_slot(&mut w, 1, 0, 0, 0x20000 + 512, 0);
    set_slot(&mut w, 2, 7, 0, 512, 0);
    set_prod(&mut w, 3);
    let r = ring();
    for i in 0..3u32 {
        assert_eq!(r.next_slot(&mut w), SlotStep::Rejected { index: i });
        assert_eq!(w[SLOT0 + 32 * i as usize + 9], ST_EINVAL);
    }
    assert_eq!(cons(&w), 3);
    assert_eq!(r.next_slot(&mut w), SlotStep::Idle);
}

#[test]
fn idle_ring_is_left_alone() {
    let mut w = window(4);
    set_slot(&mut w, 0, 0, 0x100, 1024, 0);
    let before = w.clone();
    let r = ring();
    assert_eq!(r.next_slot(&mut w), SlotStep::Idle);
    assert_eq!(w, before);
}

#[test]
fn write_slot_sends_its_data_and_failed_transfer_is_eio() {
    let mut w = window(4);
    set_slot(&mut w, 0, 1, 0x200, 512, 0x20000);
    set_slot(&mut w, 1, 0, 0x300, 512, 0);
    set_prod(&mut w, 2);
    for i in 0..512 {
        w[VBLK_DATA_OFF + 0x20000 + i] = (i % 200) as u8;
    }
    let r = ring();
    let step = r.next_slot(&mut w);
    assert_eq!(step, SlotStep::Write { index: 0, lba: 0x200, len: 512, data_off: 0x20000 });
    let payload = r.payload(&w, step);
    assert_eq!(payload.len(), 512);
    assert_eq!(payload[199], 199);
    assert_eq!(payload[200], 0);
    r.complete(&mut w, step, Some(Vec::new()));
    assert_eq!(w[SLOT0 + 9], ST_OK);
    let step = r.next_slot(&mut w);
    r.complete(&mut w, step, None);
    assert_eq!(w[SLOT0 + 32 + 9], ST_EIO);
    assert_eq!(cons(&w), 2);
}

#[test]
fn short_read_stores_what_came_back() {
    let mut w = window(2);
    set_slot(&mut w, 1, 0, 9, 1024, 512);
    w[0x1004..0x1008].copy_from_slice(&1u32.to_le_bytes());
    set_prod(&mut w, 2);
    for b in w[VBLK_DATA_OFF..].iter_mut() {
        *b = 0xEE;
    }
    let r = ring();
    let step = r.next_slot(&mut w);
    assert_eq!(step, SlotStep::Read { index: 1, lba: 9, len: 1024, data_off: 512 });
    r.complete(&mut w, step, Some(vec![1u8; 100]));
    assert_eq!(w[VBLK_DATA_OFF + 512], 1);
    assert_eq!(w[VBLK_DATA_OFF + 611], 1);
    assert_eq!(w[VBLK_DATA_OFF + 612], 0xEE);
    assert_eq!(cons(&w), 2);
}

#[test]
fn cons_wraps_and_index_follows_capacity() {
    let mut w = window(4);
    w[0x1004..0x1008].copy_from_slice(&u32::MAX.to_le_bytes());
    set_prod(&mut w, 0);
    set_slot(&mut w, 3, 0, 1, 512, 0);
    let r = ring();
    let step = r.next_slot(&mut w);
    assert_eq!(step, SlotStep::Read { index: 3, lba: 1, len: 512, data_off: 0 });
    r.complete(&mut w, step, Some(vec![5u8; 512]));
    assert_eq!(cons(&w), 0);
    assert_eq!(r.next_slot(&mut w), SlotStep::Idle);
}

#[test]
fn corrupt_control_block_is_not_touched() {
    let mut w = window(4);
    w[0x1008..0x100C].copy_from_slice(&0u32.to_le_bytes());
    set_prod(&mut w, 1);
    let before = w.clone();
    let r = ring();
    assert_eq!(r.next_slot(&mut w), SlotStep::Corrupt);
    assert_eq!(w, before);
    let mut small = vec![0u8; 100];
    assert_eq!(r.next_slot(&mut small), SlotStep::Corrupt);
}

#[test]
fn mapping_checks() {
    let ok = MapInfo { user_base: 0x1000, kernel_base: 0, size: 0x104001, ver: 1, flags: 0 };
    assert!(VblkRing::new(ok).is_ok());
    let small = MapInfo { size: 0x104000, ..ok };
    assert!(matches!(VblkRing::new(small), Err(RingError::TooSmall)));
    let null = MapInfo { user_base: 0, ..ok };
    assert!(matches!(VblkRing::new(null), Err(RingError::NullBase)));
}
