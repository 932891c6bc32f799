use stardust_quic::futures::Race;
use stardust_quic::logging::{LogId, LogIdGen};
use stardust_quic::runtime::RuntimeBuilder;

#[test]
fn runtime_builder_defaults_and_setters() {
    let mut b = RuntimeBuilder::new();
    assert_eq!(b.prefix(), "quic worker");
    assert_eq!(b.thread_count(), 1);
    b.name("net".to_string());
    b.threads(4);
    assert_eq!(b.prefix(), "net");
    assert_eq!(b.thread_count(), 4);
}

#[test]
fn log_ids_increase() {
    let mut g = LogIdGen::new();
    assert_eq!(g.next(), LogId(0));
    assert_eq!(g.next(), LogId(1));
    assert_ne!(g.next(), LogId(1));
}

#[test]
fn race_keeps_futures() {
    let r: Race<u8, (u8, u16)> = Race::new((1, 2));
    assert_eq!(r.into_futures(), (1, 2));
}
