use rmd::monitor::{Connecting, Idle, MonitorAction, MonitorError, MonitorInner};
use rmd::net_listener::Event;
use rmd::Monitor;

#[test]
fn starts_disconnected() {
    let mut m: Monitor<u8> = Monitor::new();
    assert_eq!(m.disconnect(), Err(MonitorError::NotRunning(Idle::Disconnected)));
    let d: Monitor<u8> = Monitor::default();
    assert!(matches!(d.inner, MonitorInner::Disconnected));
}

#[test]
fn mounted_file_system_is_handed_out_once() {
    let mut m: Monitor<u8> = Monitor::new();
    assert_eq!(m.start_connection(), Ok(()));
    m.connected(Connecting::Mounted(5));
    assert_eq!(m.disconnect(), Ok(5));
    assert_eq!(m.disconnect(), Err(MonitorError::NotRunning(Idle::Disconnecting)));
    m.unmounted();
    assert!(matches!(m.inner, MonitorInner::Disconnecting));
}

#[test]
fn second_start_is_refused() {
    let mut m: Monitor<u8> = Monitor::new();
    assert_eq!(m.start_connection(), Ok(()));
    assert_eq!(m.start_connection(), Err(MonitorError::AlreadyPending));
    assert_eq!(m.disconnect(), Err(MonitorError::NotRunning(Idle::Pending)));
    m.connected(Connecting::Mounted(1));
    assert_eq!(m.start_connection(), Err(MonitorError::AlreadyRunning));
    assert!(matches!(m.inner, MonitorInner::Running(1)));
}

#[test]
fn can_start_again() {
    let mut m: Monitor<u8> = Monitor::new();
    for outcome in [Connecting::ManagerFailed, Connecting::ProviderFailed, Connecting::MountFailed] {
        assert_eq!(m.start_connection(), Ok(()));
        m.connected(outcome);
        assert!(matches!(m.inner, MonitorInner::Disconnected));
    }
    assert_eq!(m.start_connection(), Ok(()));
    m.connected(Connecting::Mounted(1));
    assert_eq!(m.disconnect(), Ok(1));
    assert_eq!(m.start_connection(), Ok(()));
}

#[test]
fn unmounting_ends_in_disconnecting() {
    let mut m: Monitor<u8> = Monitor::new();
    assert_eq!(m.start_connection(), Ok(()));
    m.connected(Connecting::Mounted(1));
    assert_eq!(m.disconnect(), Ok(1));
    m.unmounted();
    assert_eq!(m.disconnect(), Err(MonitorError::NotRunning(Idle::Disconnecting)));
    assert_eq!(m.start_connection(), Ok(()));
}

#[test]
fn events_begin_what_they_call_for() {
    let mut m: Monitor<u8> = Monitor::new();
    assert!(matches!(
        m.on_event(Event::Disconnection),
        Err(MonitorError::NotRunning(Idle::Disconnected))
    ));
    assert!(matches!(m.on_event(Event::Connection), Ok(MonitorAction::Connect)));
    assert!(matches!(m.on_event(Event::Connection), Err(MonitorError::AlreadyPending)));
    m.connected(Connecting::Mounted(9));
    assert!(matches!(m.on_event(Event::Disconnection), Ok(MonitorAction::Unmount(9))));
}
