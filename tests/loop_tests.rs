use colinux_daemon::config::{shared_pages, validate, Config, ConfigError, SharedMount};
use colinux_daemon::console::{after_push, after_read, EOF_RETRY_MS, ERROR_RETRY_MS, PUSH_RETRY_MS};
use colinux_daemon::header::{begin_ping, ping_answered, HDR_PING_REQ_OFF, HDR_PING_RESP_OFF};
use colinux_daemon::loader::{OvmfLoader, PvhLoader};
use colinux_daemon::net::{PassThroughNet, StealthNet};
use colinux_daemon::profiles::Profile;
use colinux_daemon::tick::{TickAction, TickLoop};

fn config() -> Config {
    Config {
        memory_mb: 1024,
        ringbuf_mb: 16,
        vblk_backing: "disk.img".to_string(),
        vblk_queue_depth: 32,
        vnet_mode: "nat".to_string(),
        console_mode: "winpty".to_string(),
        shared: SharedMount { host_path: "C:\\share".to_string(), guest_path: "/mnt/share".to_string() },
        tick_budget: 1000,
    }
}

#[test]
fn tick_loop_runs_one_tick_per_iteration_and_pumps_every_5ms() {
    let mut t = TickLoop::new(77, 0);
    let mut now = 0u64;
    for _ in 0..100 {
        assert_eq!(t.next(false), TickAction::RunTick { budget: 77 });
        now += 1;
        t.after_tick(now);
    }
    assert_eq!(t.ticks(), 100);
    assert_eq!(t.pumps(), 20);
    assert!(t.pumps() >= 100 / 50);
    assert_eq!(t.next(true), TickAction::Exit);
    assert_eq!(t.ticks(), 100);
}

#[test]
fn pump_waits_for_interval_and_ignores_clock_going_back() {
    let mut t = TickLoop::new(1, 100);
    assert!(!t.after_tick(104));
    assert!(t.after_tick(105));
    assert!(!t.after_tick(50));
    assert!(t.after_tick(200));
}

#[test]
fn ping_probe_sees_mirrored_answer() {
    let mut w = vec![0u8; 64];
    w[HDR_PING_REQ_OFF..HDR_PING_REQ_OFF + 4].copy_from_slice(&41u32.to_le_bytes());
    let k = begin_ping(&mut w).unwrap();
    assert_eq!(k, 42);
    assert!(!ping_answered(&w, k));
    let req: [u8; 4] = w[HDR_PING_REQ_OFF..HDR_PING_REQ_OFF + 4].try_into().unwrap();
    w[HDR_PING_RESP_OFF..HDR_PING_RESP_OFF + 4].copy_from_slice(&req);
    assert!(ping_answered(&w, k));
    let mut tiny = vec![0u8; 8];
    assert_eq!(begin_ping(&mut tiny), None);
    assert!(!ping_answered(&tiny, 0));
}

#[test]
fn ping_request_wraps() {
    let mut w = vec![0xFFu8; 24];
    assert_eq!(begin_ping(&mut w), Some(0));
    assert_eq!(&w[16..20], &[0, 0, 0, 0]);
}

#[test]
fn input_streamer_steps() {
    let p = after_push(0, 10, Some(4));
    assert_eq!((p.off, p.sleep_ms), (4, 0));
    let p = after_push(4, 10, Some(100));
    assert_eq!((p.off, p.sleep_ms), (10, 0));
    let p = after_push(4, 10, Some(0));
    assert_eq!((p.off, p.sleep_ms), (4, PUSH_RETRY_MS));
    let p = after_push(4, 10, None);
    assert_eq!((p.off, p.sleep_ms), (4, ERROR_RETRY_MS));
    assert_eq!(after_read(Some(0)), EOF_RETRY_MS);
    assert_eq!(after_read(Some(7)), 0);
    assert_eq!(after_read(None), ERROR_RETRY_MS);
}

#[test]
fn config_ranges() {
    assert!(validate(&config(), true).is_ok());
    let mut c = config();
    c.memory_mb = 255;
    assert_eq!(validate(&c, true), Err(ConfigError::MemoryOutOfRange));
    c.memory_mb = 65537;
    assert_eq!(validate(&c, true), Err(ConfigError::MemoryOutOfRange));
    let mut c = config();
    c.ringbuf_mb = 1025;
    assert_eq!(validate(&c, true), Err(ConfigError::RingbufOutOfRange));
    let mut c = config();
    c.vblk_queue_depth = 0;
    assert_eq!(validate(&c, true), Err(ConfigError::QueueDepthOutOfRange));
    let mut c = config();
    c.tick_budget = 100_001;
    assert_eq!(validate(&c, true), Err(ConfigError::TickBudgetOutOfRange));
    assert_eq!(validate(&config(), false), Err(ConfigError::BackingNotFound));
    let mut c = config();
    c.memory_mb = 256;
    c.ringbuf_mb = 4;
    c.vblk_queue_depth = 1024;
    c.tick_budget = 1;
    assert!(validate(&c, true).is_ok());
}

#[test]
fn pages_for_memory() {
    assert_eq!(shared_pages(1024), 262144);
    assert_eq!(shared_pages(256), 65536);
}

#[test]
fn profile_defaults_and_boot_stubs() {
    let p = Profile::default();
    assert_eq!(p.boot_mode, "pvh");
    assert_eq!(p.net_mode, "stealth");
    assert_eq!(p.kernel, "");
    assert!(p.initrd.is_none());
    assert_eq!(p.cmdline, "console=ttyS0");
    OvmfLoader::new().load();
    PvhLoader::new().load();
    PassThroughNet::new().start();
    StealthNet::new().start();
}
