use glutin_x11_sym::capability::{load_xlib, Capability};
use glutin_x11_sym::error::{DisplayError, LoadError, LoadFailure, XError};
use glutin_x11_sym::fault::{on_fault, text_before_nul, ErrorSlot, HandlerChain, ThreadInit};
use glutin_x11_sym::memo::Memo;
use glutin_x11_sym::registry::{Display, Registry};

fn error_text(s: &str) -> Vec<u8> {
    let mut buf = s.as_bytes().to_vec();
    buf.push(0);
    buf.resize(1024, 0);
    buf
}

#[test]
fn fault_round_trip_scenario() {
    let mut reg = Registry::new();
    let mut slot = ErrorSlot::new();
    let chain = HandlerChain::new(1);
    let d = Display::new(&mut reg, 0x5000).unwrap();
    assert!(d.is_owned());
    let text = error_text("BadDrawable (invalid Pixmap or Window parameter)");
    on_fault(&mut slot, &chain, &text, 9, 42, 0);
    match d.check_errors(&mut slot) {
        Err(DisplayError::Protocol(e)) => {
            assert_eq!(e.error_code, 9);
            assert_eq!(e.request_code, 42);
            assert_eq!(e.minor_code, 0);
            assert!(!e.description.is_empty());
            assert_eq!(e.description, "BadDrawable (invalid Pixmap or Window parameter)");
        }
        other => panic!("expected a protocol fault, got {:?}", other),
    }
    assert_eq!(d.check_errors(&mut slot), Ok(()));
}

#[test]
fn capabilities_fail_independently() {
    let mut present: Capability<u32> = Capability::new();
    let mut absent: Capability<u32> = Capability::new();
    present.settle(Ok(7));
    absent.settle(Err(LoadError { kind: LoadFailure::Library, detail: "libXss.so.1".to_string() }));
    assert!(present.is_available());
    assert!(!absent.is_available());
    match absent.handle() {
        Err(DisplayError::CapabilityUnavailable(e)) => {
            assert_eq!(e.kind, LoadFailure::Library);
            assert_eq!(e.detail, "libXss.so.1");
        }
        other => panic!("expected unavailable, got {:?}", other),
    }
    assert_eq!(present.handle(), Ok(&7));
    assert_eq!(present.handle(), Ok(&7));
}

#[test]
fn capability_keeps_first_outcome() {
    let mut cap: Capability<u32> = Capability::new();
    assert!(!cap.is_loaded());
    cap.settle(Err(LoadError { kind: LoadFailure::Symbol, detail: "XOpenDisplay".to_string() }));
    cap.settle(Ok(3));
    assert!(cap.is_loaded());
    assert!(!cap.is_available());
}

#[test]
fn from_raw_shares_live_connection() {
    let mut reg = Registry::new();
    let a = Display::from_raw(&mut reg, 0x10);
    let b = Display::from_raw(&mut reg, 0x10);
    let c = Display::from_raw(&mut reg, 0x10);
    assert_eq!(a, b);
    assert_eq!(b, c);
    assert_eq!(reg.len(), 1);
    assert_eq!(reg.owners(0x10), 3);
    assert!(!a.is_owned());
    assert_eq!(a.raw(), 0x10);
}

#[test]
fn from_raw_returns_owned_connection_when_live() {
    let mut reg = Registry::new();
    let d = Display::new(&mut reg, 0x20).unwrap();
    let e = Display::from_raw(&mut reg, 0x20);
    assert_eq!(d, e);
    assert!(e.is_owned());
    assert_eq!(reg.owners(0x20), 2);
}

#[test]
fn close_only_on_last_owner() {
    let mut reg = Registry::new();
    let d = Display::new(&mut reg, 0x30).unwrap();
    Display::from_raw(&mut reg, 0x30);
    Display::from_raw(&mut reg, 0x30);
    assert!(!reg.release(d.raw()));
    assert!(!reg.release(d.raw()));
    assert!(reg.release(d.raw()));
    assert!(!reg.release(d.raw()));
    assert_eq!(reg.lookup(0x30), None);
}

#[test]
fn borrowed_connection_is_never_closed() {
    let mut reg = Registry::new();
    let d = Display::from_raw(&mut reg, 0x40);
    assert!(!reg.release(d.raw()));
    assert_eq!(reg.len(), 0);
}

#[test]
fn last_release_forgets_handle() {
    let mut reg = Registry::new();
    let d = Display::new(&mut reg, 0x50).unwrap();
    let other = Display::from_raw(&mut reg, 0x60);
    assert!(reg.release(d.raw()));
    assert_eq!(reg.find_live(0x50), None);
    assert_eq!(reg.lookup(0x60), Some(other));
    let fresh = Display::from_raw(&mut reg, 0x50);
    assert!(!fresh.is_owned());
}

#[test]
fn null_handle_fails_to_open() {
    let mut reg = Registry::new();
    assert_eq!(Display::new(&mut reg, 0), Err(DisplayError::XOpenDisplayFailed));
    assert_eq!(reg.len(), 0);
}

#[test]
fn equality_ignores_ownership() {
    let mut owned_reg = Registry::new();
    let mut borrowed_reg = Registry::new();
    let a = Display::new(&mut owned_reg, 7).unwrap();
    let b = Display::from_raw(&mut borrowed_reg, 7);
    let c = Display::new(&mut owned_reg, 8).unwrap();
    assert!(a.is_owned());
    assert!(!b.is_owned());
    assert_eq!(a, b);
    assert_ne!(a, c);
}

#[test]
fn open_over_stale_borrowed_handle_is_owned() {
    let mut reg = Registry::new();
    let stale = Display::from_raw(&mut reg, 5);
    let other = Display::from_raw(&mut reg, 6);
    let d = Display::new(&mut reg, 5).unwrap();
    assert!(d.is_owned());
    assert_eq!(d.raw(), 5);
    assert_eq!(d, stale);
    assert_eq!(reg.owners(5), 2);
    assert_eq!(reg.lookup(5).map(|x| x.is_owned()), Some(true));
    assert_eq!(reg.owners(6), 1);
    assert_eq!(reg.lookup(6).map(|x| x.is_owned()), Some(false));
    assert_eq!(reg.lookup(6), Some(other));
    assert!(!reg.release(5));
    assert!(reg.release(5));
}

#[test]
fn open_fresh_handle_has_one_owner() {
    let mut reg = Registry::new();
    let d = Display::new(&mut reg, 0x99).unwrap();
    assert!(d.is_owned());
    assert_eq!(reg.owners(0x99), 1);
    assert_eq!(reg.len(), 1);
}

#[test]
fn snapshot_keeps_chain() {
    let mut chain = HandlerChain::new(1);
    chain.install(Some(2));
    chain.install(Some(3));
    let copy = chain.snapshot();
    assert_eq!(copy.forward_order(), vec![3, 2]);
    assert_eq!(copy.own(), 1);
}

#[test]
fn check_twice_without_fault() {
    let mut reg = Registry::new();
    let mut slot = ErrorSlot::new();
    let d = Display::from_raw(&mut reg, 0x70);
    assert_eq!(d.check_errors(&mut slot), Ok(()));
    assert_eq!(d.check_errors(&mut slot), Ok(()));
}

#[test]
fn ignored_fault_is_not_reported() {
    let mut reg = Registry::new();
    let mut slot = ErrorSlot::new();
    let chain = HandlerChain::new(1);
    let d = Display::from_raw(&mut reg, 0x80);
    on_fault(&mut slot, &chain, &error_text("BadWindow"), 3, 12, 0);
    assert!(slot.is_pending());
    d.ignore_error(&mut slot);
    assert!(!slot.is_pending());
    assert_eq!(d.check_errors(&mut slot), Ok(()));
}

#[test]
fn latest_fault_wins() {
    let mut slot = ErrorSlot::new();
    let chain = HandlerChain::new(1);
    on_fault(&mut slot, &chain, &error_text("BadWindow"), 3, 12, 0);
    on_fault(&mut slot, &chain, &error_text("BadMatch"), 8, 70, 2);
    let e = slot.take().unwrap();
    assert_eq!((e.error_code, e.request_code, e.minor_code), (8, 70, 2));
    assert_eq!(e.description, "BadMatch");
    assert_eq!(slot.take(), None);
}

#[test]
fn faults_forward_to_previous_handlers_newest_first() {
    let mut slot = ErrorSlot::new();
    let mut chain = HandlerChain::new(100);
    chain.install(Some(11));
    chain.install(Some(100));
    chain.install(None);
    chain.install(Some(22));
    chain.install(Some(11));
    chain.install(Some(33));
    assert_eq!(chain.forward_order(), vec![33, 22, 11]);
    let forward = on_fault(&mut slot, &chain, &error_text("BadAccess"), 10, 1, 0);
    assert_eq!(forward, vec![33, 22, 11]);
    assert!(chain.contains(22));
    assert!(!chain.contains(100));
    assert_eq!(chain.own(), 100);
}

#[test]
fn description_stops_at_nul_and_replaces_bad_bytes() {
    let e = XError::from_event(&[b'B', 0xff, b'x', 0, b'y'], 1, 2, 3);
    assert_eq!(e.description, "B\u{FFFD}x");
    assert_eq!((e.error_code, e.request_code, e.minor_code), (1, 2, 3));
    let empty = XError::from_event(&[0, b'a'], 1, 2, 3);
    assert_eq!(empty.description, "");
}

#[test]
fn text_before_nul_cases() {
    assert_eq!(text_before_nul(b"abc\0def"), b"abc".to_vec());
    assert_eq!(text_before_nul(b"abc"), b"abc".to_vec());
    assert_eq!(text_before_nul(b""), Vec::<u8>::new());
}

#[test]
fn thread_init_runs_once() {
    let mut t = ThreadInit::new();
    assert!(t.begin());
    assert!(!t.begin());
    assert!(!t.begin());
}

#[test]
fn default_failure_is_sticky() {
    let mut cell: Memo<Result<Display, DisplayError>> = Memo::new();
    assert!(!cell.is_settled());
    let mut reg = Registry::new();
    cell.settle(Display::new(&mut reg, 0));
    assert!(cell.is_settled());
    cell.settle(Display::new(&mut reg, 0x90));
    assert_eq!(cell.get(), Some(&Err(DisplayError::XOpenDisplayFailed)));
    assert_eq!(cell.get(), Some(&Err(DisplayError::XOpenDisplayFailed)));
}

#[test]
fn open_error_maps_to_load_error() {
    let e = x11_dl::error::OpenError::new(x11_dl::error::OpenErrorKind::Symbol, "XFree".to_string());
    let l = LoadError::from_open_error(&e);
    assert_eq!(l.kind, LoadFailure::Symbol);
    assert_eq!(l.detail, "XFree");
    let e = x11_dl::error::OpenError::new(x11_dl::error::OpenErrorKind::Library, String::new());
    assert_eq!(LoadError::from_open_error(&e).kind, LoadFailure::Library);
    assert_eq!(l.duplicate(), l);
}

#[test]
fn xlib_load_is_attempted_once() {
    let mut cap = Capability::new();
    load_xlib(&mut cap);
    assert!(cap.is_loaded());
    let first = cap.is_available();
    load_xlib(&mut cap);
    assert_eq!(cap.is_available(), first);
}
