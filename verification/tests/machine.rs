use describe_core::error::Error;
use describe_core::runtime::enter_runtime;
use describe_core::tls::MaybeTlsStream;

#[test]
fn raw_stream_is_not_tls() {
    let s: MaybeTlsStream<u8> = MaybeTlsStream::Raw(7);
    assert!(!s.is_tls());
    assert!(s.io_allowed());
}

#[test]
fn upgrade_moves_raw_to_tls() {
    let mut s: MaybeTlsStream<u8> = MaybeTlsStream::Raw(7);
    let taken = s.begin_upgrade().unwrap();
    assert_eq!(taken, Some(7));
    assert!(!s.io_allowed());
    s.complete_upgrade(7);
    assert!(s.is_tls());
    assert!(s.io_allowed());
}

#[test]
fn upgrade_is_idempotent_once_secure() {
    let mut s: MaybeTlsStream<u8> = MaybeTlsStream::Tls(9);
    let taken = s.begin_upgrade().unwrap();
    assert_eq!(taken, None);
    assert!(s.is_tls());
}

#[test]
fn failed_upgrade_leaves_a_dead_connection() {
    let mut s: MaybeTlsStream<u8> = MaybeTlsStream::Raw(7);
    let _stream = s.begin_upgrade().unwrap();
    // the handshake failed: complete_upgrade is never called; any further
    // upgrade (or I/O) fails fast
    assert!(!s.io_allowed());
    assert_eq!(s.begin_upgrade().unwrap_err(), Error::ConnectionAborted);
}

#[test]
fn enter_runtime_runs_the_closure() {
    let r = enter_runtime(|| 41 + 1);
    assert_eq!(r, 42);
}
