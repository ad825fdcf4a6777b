use installer_package::platform::Platform;
use installer_package::unpacker::{
    Notification, Unpacked, Unpacker, ANNOUNCE_ABOVE, HANDLES_UNIT, MAX_IN_FLIGHT,
    POLL_INTERVAL_MILLIS,
};

#[test]
fn the_constants_of_a_drain() {
    assert_eq!(MAX_IN_FLIGHT, 32767);
    assert_eq!(POLL_INTERVAL_MILLIS, 100);
    assert_eq!(ANNOUNCE_ABOVE, 50);
    assert_eq!(HANDLES_UNIT, "handles");
}

#[test]
fn files_are_deferred_where_closing_is_slow() {
    let mut unpacker = Unpacker::new(Platform::Windows);
    assert!(unpacker.handle(Unpacked::File));
    assert!(!unpacker.handle(Unpacked::Other));
    assert!(unpacker.handle(Unpacked::File));
    assert_eq!(unpacker.deferred_count(), 2);
}

#[test]
fn nothing_is_deferred_where_closing_is_cheap() {
    let mut unpacker = Unpacker::new(Platform::Unix);
    assert!(!unpacker.handle(Unpacked::File));
    assert!(!unpacker.handle(Unpacked::Other));
    assert_eq!(unpacker.deferred_count(), 0);
    let (drain, notes) = unpacker.begin_drain(0);
    assert_eq!(notes, vec![]);
    assert!(drain.is_done());
    assert!(!drain.worth_announcing());
    assert_eq!(drain.finish(), vec![]);
}

#[test]
fn a_drain_ends_when_the_counter_is_at_zero() {
    let mut unpacker = Unpacker::new(Platform::Windows);
    for _ in 0..5 {
        assert!(unpacker.handle(Unpacked::File));
    }
    let (mut drain, notes) = unpacker.begin_drain(5);
    assert_eq!(
        notes,
        vec![
            Notification::DownloadFinished,
            Notification::DownloadPushUnits("handles"),
            Notification::DownloadContentLengthReceived(5),
        ]
    );
    assert_eq!(drain.total_count(), 5);
    assert!(!drain.is_done());
    assert_eq!(drain.poll(3), Notification::DownloadDataReceived(2));
    assert!(!drain.is_done());
    assert_eq!(drain.poll(3), Notification::DownloadDataReceived(0));
    assert!(!drain.is_done());
    assert_eq!(drain.poll(0), Notification::DownloadDataReceived(3));
    assert!(drain.is_done());
    assert_eq!(
        drain.finish(),
        vec![Notification::DownloadFinished, Notification::DownloadPopUnits]
    );
}

#[test]
fn the_reports_of_a_drain_add_up_to_what_was_open() {
    let unpacker = Unpacker::new(Platform::Windows);
    let (mut drain, _) = unpacker.begin_drain(1000);
    let mut closed = 0;
    for seen in [900, 900, 512, 100, 1, 0] {
        match drain.poll(seen) {
            Notification::DownloadDataReceived(n) => closed += n,
            other => panic!("unexpected {:?}", other),
        }
        assert_eq!(drain.is_done(), seen == 0);
    }
    assert_eq!(closed, 1000);
}

#[test]
fn a_drain_with_nothing_open_is_done_at_once() {
    let unpacker = Unpacker::new(Platform::Windows);
    let (drain, notes) = unpacker.begin_drain(0);
    assert_eq!(notes.len(), 3);
    assert_eq!(notes[2], Notification::DownloadContentLengthReceived(0));
    assert!(drain.is_done());
    assert_eq!(
        drain.finish(),
        vec![Notification::DownloadFinished, Notification::DownloadPopUnits]
    );
}

#[test]
fn a_large_drain_is_announced() {
    let unpacker = Unpacker::new(Platform::Windows);
    assert!(!unpacker.begin_drain(50).0.worth_announcing());
    assert!(unpacker.begin_drain(51).0.worth_announcing());
    assert!(unpacker.begin_drain(32766).0.worth_announcing());
}
