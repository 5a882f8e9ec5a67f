use colinux_daemon::device::{
    decode_map_info, decode_push_count, map_shared_request, run_tick_request, vblk_read_request,
    vblk_set_backing_request, vblk_submit_request, vblk_write_request, vtty_pull_request, vtty_push_request,
    DeviceError, MapInfo, IOCTL_MAP_SHARED, IOCTL_RUN_TICK, IOCTL_VBLK_READ, IOCTL_VBLK_SET_BACKING,
    IOCTL_VBLK_SUBMIT, IOCTL_VBLK_WRITE, IOCTL_VTTY_PULL, IOCTL_VTTY_PUSH,
};

#[test]
fn control_codes_follow_device_type_0x22() {
    for (code, func, method) in [
        (IOCTL_MAP_SHARED, 0x801, 0),
        (IOCTL_RUN_TICK, 0x802, 0),
        (IOCTL_VBLK_SUBMIT, 0x803, 0),
        (IOCTL_VBLK_SET_BACKING, 0x804, 0),
        (IOCTL_VBLK_READ, 0x805, 2),
        (IOCTL_VBLK_WRITE, 0x806, 1),
        (IOCTL_VTTY_PUSH, 0x807, 0),
        (IOCTL_VTTY_PULL, 0x808, 0),
    ] {
        assert_eq!(code, (0x22 << 16) | (func << 2) | method);
    }
}

#[test]
fn map_and_tick_parameters() {
    let r = map_shared_request(0x0001_0203);
    assert_eq!(r.code, IOCTL_MAP_SHARED);
    assert_eq!(r.inbuf, Some(vec![3, 2, 1, 0]));
    assert_eq!(r.out_capacity, 32);
    assert!(r.prefill_out.is_none());
    let r = run_tick_request(1000);
    assert_eq!(r.code, IOCTL_RUN_TICK);
    assert_eq!(r.inbuf, Some(vec![0xE8, 0x03, 0, 0]));
    assert_eq!(r.out_capacity, 0);
}

#[test]
fn block_read_header_and_length_rule() {
    let r = vblk_read_request(0x100, 4096).unwrap();
    assert_eq!(r.code, IOCTL_VBLK_READ);
    assert_eq!(r.inbuf, Some(vec![0, 1, 0, 0, 0, 0, 0, 0, 0, 0x10, 0, 0]));
    assert_eq!(r.out_capacity, 4096);
    assert!(matches!(vblk_read_request(0, 0), Err(DeviceError::BadLength { len: 0 })));
    assert!(matches!(vblk_read_request(0, 513), Err(DeviceError::BadLength { len: 513 })));
}

#[test]
fn block_write_prefills_payload() {
    let payload = vec![5u8; 1024];
    let r = vblk_write_request(0x0A0B, &payload).unwrap();
    assert_eq!(r.code, IOCTL_VBLK_WRITE);
    assert_eq!(r.inbuf, Some(vec![0x0B, 0x0A, 0, 0, 0, 0, 0, 0, 0, 4, 0, 0]));
    assert_eq!(r.out_capacity, 1024);
    assert_eq!(r.prefill_out, Some(payload));
}

#[test]
fn backing_path_is_utf16_le_without_terminator() {
    let r = vblk_set_backing_request("C:\\a");
    assert_eq!(r.code, IOCTL_VBLK_SET_BACKING);
    assert_eq!(r.inbuf, Some(vec![b'C', 0, b':', 0, b'\\', 0, b'a', 0]));
    let r = vblk_set_backing_request("\u{e9}\u{1F600}");
    assert_eq!(r.inbuf, Some(vec![0xE9, 0, 0x3D, 0xD8, 0x00, 0xDE]));
    let r = vblk_set_backing_request("");
    assert_eq!(r.inbuf, Some(Vec::new()));
}

#[test]
fn terminal_and_legacy_requests() {
    let r = vtty_push_request(b"hi");
    assert_eq!(r.code, IOCTL_VTTY_PUSH);
    assert_eq!(r.inbuf, Some(b"hi".to_vec()));
    assert_eq!(r.out_capacity, 4);
    let r = vtty_pull_request(4096);
    assert_eq!(r.code, IOCTL_VTTY_PULL);
    assert!(r.inbuf.is_none());
    assert_eq!(r.out_capacity, 4096);
    let r = vblk_submit_request(&[1, 2, 3], 64);
    assert_eq!(r.code, IOCTL_VBLK_SUBMIT);
    assert_eq!(r.inbuf, Some(vec![1, 2, 3]));
    assert_eq!(r.out_capacity, 64);
}

#[test]
fn map_descriptor_decodes_little_endian() {
    let mut out = Vec::new();
    out.extend_from_slice(&0x7FF0_0000_1000u64.to_le_bytes());
    out.extend_from_slice(&0xFFFF_8000_0000_0000u64.to_le_bytes());
    out.extend_from_slice(&0x1000_0000u64.to_le_bytes());
    out.extend_from_slice(&2u32.to_le_bytes());
    out.extend_from_slice(&0x11u32.to_le_bytes());
    let m = decode_map_info(&out).unwrap();
    assert_eq!(
        m,
        MapInfo { user_base: 0x7FF0_0000_1000, kernel_base: 0xFFFF_8000_0000_0000, size: 0x1000_0000, ver: 2, flags: 0x11 }
    );
    out.pop();
    assert!(matches!(decode_map_info(&out), Err(DeviceError::ShortReply { len: 31 })));
}

#[test]
fn push_count_decodes() {
    assert_eq!(decode_push_count(&vec![0x10, 0x01, 0, 0]).unwrap(), 0x110);
    assert!(matches!(decode_push_count(&vec![1, 2]), Err(DeviceError::ShortReply { len: 2 })));
}
