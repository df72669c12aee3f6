use kando_cosmic_helper::error::Error;
use kando_cosmic_helper::util::{dispatch_until, WaitEvent, WaitStep};

fn dispatched(timeout: u64, done: bool, elapsed: u128) -> WaitStep {
    dispatch_until(timeout, WaitEvent::Dispatched { done, elapsed })
}

#[test]
fn a_wait_ends_when_the_thing_has_come() {
    assert!(matches!(dispatched(500, true, 10_000_000_000), WaitStep::Finish(Ok(()))));
}

#[test]
fn a_wait_polls_for_the_rest_of_its_time() {
    assert!(matches!(dispatched(500, false, 0), WaitStep::Poll(500)));
    assert!(matches!(dispatched(500, false, 1), WaitStep::Poll(499)));
    assert!(matches!(dispatched(500, false, 499_500_000), WaitStep::Poll(0)));
    assert!(matches!(dispatched(500, false, 500_000_000), WaitStep::Poll(0)));
}

#[test]
fn a_wait_times_out() {
    assert!(matches!(
        dispatched(500, false, 500_000_001),
        WaitStep::Finish(Err(Error::Timeout(500)))
    ));
    assert!(matches!(
        dispatched(0, false, 1),
        WaitStep::Finish(Err(Error::Timeout(0)))
    ));
}

#[test]
fn a_poll_in_which_nothing_came_leads_back_to_the_clock() {
    let polled = WaitEvent::Polled { ready: 0, interrupted: false, failure: String::new() };
    assert!(matches!(dispatch_until(700, polled), WaitStep::Dispatch));
}

#[test]
fn long_waits_are_polled_in_parts() {
    let long = 4_294_968_296;
    assert!(matches!(dispatched(long, false, 0), WaitStep::Poll(i32::MAX)));
    assert!(matches!(dispatched(u64::MAX, false, 0), WaitStep::Poll(i32::MAX)));
    let almost = long as u128 * 1_000_000;
    assert!(matches!(dispatched(long, false, almost - 7_000_000), WaitStep::Poll(7)));
    assert!(matches!(dispatched(long, false, almost), WaitStep::Poll(0)));
    assert!(matches!(
        dispatched(long, false, almost + 1),
        WaitStep::Finish(Err(Error::Timeout(4_294_968_296)))
    ));
    assert!(matches!(dispatched(2_147_483_647, false, 0), WaitStep::Poll(i32::MAX)));
    assert!(matches!(dispatched(2_147_483_648, false, 0), WaitStep::Poll(i32::MAX)));
}

#[test]
fn a_wait_goes_on_after_events_and_interruptions() {
    assert!(matches!(dispatch_until(1, WaitEvent::NotReady), WaitStep::Dispatch));
    assert!(matches!(dispatch_until(1, WaitEvent::Read), WaitStep::Dispatch));
    let ready = WaitEvent::Polled { ready: 1, interrupted: false, failure: String::new() };
    assert!(matches!(dispatch_until(1, ready), WaitStep::Read));
    let signal = WaitEvent::Polled { ready: -1, interrupted: true, failure: "x".to_string() };
    assert!(matches!(dispatch_until(1, signal), WaitStep::Dispatch));
    let nothing = WaitEvent::ReadFailed { would_block: true, failure: "x".to_string() };
    assert!(matches!(dispatch_until(1, nothing), WaitStep::Dispatch));
}

#[test]
fn a_wait_fails_with_the_message() {
    let events = [
        WaitEvent::Failed("broken".to_string()),
        WaitEvent::Polled { ready: -1, interrupted: false, failure: "broken".to_string() },
        WaitEvent::ReadFailed { would_block: false, failure: "broken".to_string() },
    ];
    for event in events {
        match dispatch_until(1, event) {
            WaitStep::Finish(Err(Error::Wayland(m))) => assert_eq!(m, "broken"),
            _ => panic!("the wait goes on"),
        }
    }
}

#[test]
fn errors_have_messages() {
    assert_eq!(
        Error::Connect("no socket".to_string()).message(),
        "cannot connect to Wayland display: no socket"
    );
    assert_eq!(Error::MissingGlobal("wl_shm").message(), "compositor does not expose wl_shm");
    assert_eq!(Error::NoInputDevice.message(), "seat has neither pointer nor touch capability");
    assert_eq!(Error::NoOutputs.message(), "compositor reported no outputs");
    assert_eq!(Error::Timeout(500).message(), "no pointer enter event within 500ms");
    assert_eq!(Error::Timeout(1500).message(), "no pointer enter event within 1.5s");
    assert_eq!(Error::Wayland("lost".to_string()).message(), "wayland error: lost");
}
