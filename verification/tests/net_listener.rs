use rmd::net_listener::{concerns_remarkable, concerns_tablet, event_of, Event, NetListener};

const NEWROUTE: u16 = 24;
const DELROUTE: u16 = 25;

fn attr(kind: u16, payload: &[u8]) -> Vec<u8> {
    let mut out = Vec::new();
    out.extend_from_slice(&(payload.len() as u16 + 4).to_ne_bytes());
    out.extend_from_slice(&kind.to_ne_bytes());
    out.extend_from_slice(payload);
    while out.len() % 4 != 0 {
        out.push(0);
    }
    out
}

fn header(rtm_type: u8) -> Vec<u8> {
    vec![2, 32, 0, 0, 255, 2, 254, rtm_type, 0, 0, 0, 0]
}

fn message(rtm_type: u8, dst: &[u8]) -> Vec<u8> {
    let mut out = header(rtm_type);
    out.extend_from_slice(&attr(1, dst));
    out
}

#[test]
fn local_route_in_the_subnet_concerns_the_tablet() {
    assert!(concerns_remarkable(&message(2, &[10, 11, 99, 3])));
    assert!(concerns_remarkable(&message(2, &[10, 11, 99, 255])));
}

#[test]
fn other_subnets_do_not() {
    assert!(!concerns_remarkable(&message(2, &[10, 11, 98, 3])));
    assert!(!concerns_remarkable(&message(2, &[10, 12, 99, 3])));
    assert!(!concerns_remarkable(&message(2, &[11, 11, 99, 3])));
    assert!(!concerns_remarkable(&message(2, &[99, 11, 10, 3])));
}

#[test]
fn other_route_types_do_not() {
    assert!(!concerns_remarkable(&message(1, &[10, 11, 99, 3])));
    assert!(!concerns_remarkable(&message(3, &[10, 11, 99, 3])));
}

#[test]
fn ipv6_does_not() {
    let mut dst = vec![10, 11, 99, 3];
    dst.extend_from_slice(&[0; 12]);
    assert!(!concerns_remarkable(&message(2, &dst)));
}

#[test]
fn destination_behind_other_attributes() {
    let mut buf = header(2);
    buf.extend_from_slice(&attr(15, &[255, 0, 0, 0]));
    buf.extend_from_slice(&attr(1, &[10, 11, 99, 1]));
    assert!(concerns_remarkable(&buf));

    let mut gateway = header(2);
    gateway.extend_from_slice(&attr(5, &[10, 11, 99, 1]));
    assert!(!concerns_remarkable(&gateway));
}

#[test]
fn first_destination_is_taken() {
    let mut buf = message(2, &[10, 11, 98, 1]);
    buf.extend_from_slice(&attr(1, &[10, 11, 99, 1]));
    assert!(!concerns_remarkable(&buf));
}

#[test]
fn short_messages_are_ignored() {
    let whole = message(2, &[10, 11, 99, 1]);
    for n in 0..whole.len() {
        assert!(!concerns_remarkable(&whole[..n]));
    }
    let mut nl = NetListener::new(());
    assert_eq!(nl.filter_msg(NEWROUTE, Vec::new()), None);
    assert_eq!(nl.filter_msg(DELROUTE, header(2)), None);
}

#[test]
fn deleted_route_is_a_connection() {
    let mut nl = NetListener::new(());
    assert_eq!(
        nl.filter_msg(DELROUTE, message(2, &[10, 11, 99, 1])),
        Some(Event::Connection)
    );
    assert_eq!(nl.filter_msg(DELROUTE, message(2, &[10, 11, 97, 1])), None);
}

#[test]
fn new_route_is_a_disconnection() {
    let mut nl = NetListener::new(());
    assert_eq!(
        nl.filter_msg(NEWROUTE, message(2, &[10, 11, 99, 1])),
        Some(Event::Disconnection)
    );
    assert_eq!(nl.filter_msg(NEWROUTE, message(1, &[10, 11, 99, 1])), None);
}

#[test]
fn other_message_types_are_ignored() {
    let mut nl = NetListener::new(());
    for t in [0, 16, 23, 26, 65535] {
        assert_eq!(nl.filter_msg(t, message(2, &[10, 11, 99, 1])), None);
    }
}

#[test]
fn decoded_routes() {
    assert!(concerns_tablet(2, &Some(vec![10, 11, 99, 7])));
    assert!(!concerns_tablet(2, &Some(vec![10, 11, 99])));
    assert!(!concerns_tablet(2, &None));
    assert!(!concerns_tablet(1, &Some(vec![10, 11, 99, 7])));
}

#[test]
fn listener_keeps_its_socket() {
    let mut nl = NetListener::new(7);
    nl.filter_msg(NEWROUTE, Vec::new());
    assert_eq!(nl.mc_sock, 7);
}

#[test]
fn malformed_destinations_are_passed_over() {
    let mut buf = header(2);
    buf.extend_from_slice(&attr(1, &[10, 11, 98]));
    buf.extend_from_slice(&attr(1, &[10, 11, 99, 1]));
    assert!(concerns_remarkable(&buf));
}

#[test]
fn lengths_are_rounded_up() {
    let mut buf = header(2);
    buf.extend_from_slice(&attr(300, &[1, 2, 3, 4, 5]));
    buf.extend_from_slice(&attr(20, &[1]));
    buf.extend_from_slice(&attr(1, &[10, 11, 99, 1]));
    assert!(concerns_remarkable(&buf));
}

#[test]
fn flag_bits_of_the_type_are_ignored() {
    let mut buf = header(2);
    buf.extend_from_slice(&attr(0xc001, &[10, 11, 99, 1]));
    assert!(concerns_remarkable(&buf));
}

#[test]
fn search_ends_at_an_attribute_that_does_not_fit() {
    let mut buf = header(2);
    buf.extend_from_slice(&3u16.to_ne_bytes());
    buf.extend_from_slice(&15u16.to_ne_bytes());
    buf.extend_from_slice(&attr(1, &[10, 11, 99, 1]));
    assert!(!concerns_remarkable(&buf));

    let mut long = header(2);
    long.extend_from_slice(&100u16.to_ne_bytes());
    long.extend_from_slice(&15u16.to_ne_bytes());
    long.extend_from_slice(&attr(1, &[10, 11, 99, 1]));
    assert!(!concerns_remarkable(&long));
}

#[test]
fn last_attribute_needs_no_padding() {
    let mut buf = header(2);
    buf.extend_from_slice(&attr(1, &[10, 11, 99, 1]));
    buf.extend_from_slice(&attr(20, &[1])[..5]);
    assert!(concerns_remarkable(&buf));
}

#[test]
fn events_of_decoded_routes() {
    let tablet = Some(vec![10, 11, 99, 7]);
    assert_eq!(event_of(DELROUTE, 2, &tablet), Some(Event::Connection));
    assert_eq!(event_of(NEWROUTE, 2, &tablet), Some(Event::Disconnection));
    assert_eq!(event_of(26, 2, &tablet), None);
    assert_eq!(event_of(DELROUTE, 1, &tablet), None);
    assert_eq!(event_of(NEWROUTE, 2, &Some(vec![10, 11, 98, 7])), None);
    assert_eq!(event_of(NEWROUTE, 2, &None), None);
}
