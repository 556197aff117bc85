use arexx_tap::arexx::{Arexx, PollPlan};
use arexx_tap::config::ConfigFile;
use arexx_tap::protocol::{handshake_frame, trigger_frame, DateError};
use arexx_tap::timestamp::{Timestamp, DEVICE_EPOCH_UNIX_SECS};

fn at(offset: i64) -> Timestamp {
    Timestamp { secs: DEVICE_EPOCH_UNIX_SECS + offset, nanos: 0, offset_secs: 0 }
}

fn handshake_of(plan: &PollPlan) -> Option<[u8; 64]> {
    match plan {
        PollPlan::Exchange { handshake, trigger } => {
            assert_eq!(*trigger, trigger_frame());
            *handshake
        }
        PollPlan::Absent => panic!("expected an exchange"),
    }
}

#[test]
fn detached_session_sends_nothing() {
    let mut a = Arexx::new(&ConfigFile::default(), Some(at(100)));
    assert!(matches!(a.plan_with_clock(0, false, at(5)), Ok(PollPlan::Absent)));
    assert!(matches!(a.plan_with_clock(3, false, at(5)), Ok(PollPlan::Absent)));
    assert!(matches!(a.plan(3, false), Ok(PollPlan::Absent)));
    // the start time is still unused: the first handshake carries it
    let p = a.plan_with_clock(1, true, at(5)).unwrap();
    assert_eq!(handshake_of(&p), Some(handshake_frame(at(100)).unwrap()));
}

#[test]
fn one_handshake_per_generation() {
    let mut a = Arexx::new(&ConfigFile::default(), None);
    let mut handshakes = 0;
    for _ in 0..5 {
        let p = a.plan_with_clock(1, true, at(7)).unwrap();
        if handshake_of(&p).is_some() {
            handshakes += 1;
            a.handshake_sent(1);
        }
    }
    assert_eq!(handshakes, 1);
    // departure and arrival: generation 2 owes exactly one more
    for _ in 0..3 {
        let p = a.plan_with_clock(2, true, at(8)).unwrap();
        if handshake_of(&p).is_some() {
            handshakes += 1;
            a.handshake_sent(2);
        }
    }
    assert_eq!(handshakes, 2);
}

#[test]
fn failed_handshake_is_owed_again() {
    let mut a = Arexx::new(&ConfigFile::default(), None);
    let p = a.plan_with_clock(1, true, at(1)).unwrap();
    assert!(handshake_of(&p).is_some());
    // the write failed: handshake_sent is not called
    let p = a.plan_with_clock(1, true, at(2)).unwrap();
    assert_eq!(handshake_of(&p), Some(handshake_frame(at(2)).unwrap()));
}

#[test]
fn start_time_used_by_first_handshake_only() {
    let mut a = Arexx::new(&ConfigFile::default(), Some(at(1000)));
    let p = a.plan_with_clock(1, true, at(5000)).unwrap();
    assert_eq!(handshake_of(&p), Some(handshake_frame(at(1000)).unwrap()));
    a.handshake_sent(1);
    let p = a.plan_with_clock(1, true, at(5001)).unwrap();
    assert_eq!(handshake_of(&p), None);
    let p = a.plan_with_clock(2, true, at(6000)).unwrap();
    assert_eq!(handshake_of(&p), Some(handshake_frame(at(6000)).unwrap()));
}

#[test]
fn start_time_before_epoch_fails_the_poll() {
    let mut a = Arexx::new(&ConfigFile::default(), Some(at(-1)));
    assert_eq!(a.plan_with_clock(1, true, at(5)).unwrap_err(), DateError::BeforeEpoch);
    // the start time is used up; the next try carries the current time
    let p = a.plan_with_clock(1, true, at(5)).unwrap();
    assert_eq!(handshake_of(&p), Some(handshake_frame(at(5)).unwrap()));
}

#[test]
fn clock_plan_with_start_time() {
    let mut a = Arexx::new(&ConfigFile::default(), Some(at(42)));
    let p = a.plan(1, true).unwrap();
    assert_eq!(handshake_of(&p), Some(handshake_frame(at(42)).unwrap()));
}
