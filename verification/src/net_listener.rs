//! Which messages about network links tell that the tablet was connected or disconnected.
use vstd::prelude::*;

verus! {

/// Watch the available network links. `S` is the socket on which the kernel reports them.
pub struct NetListener<S> {
    pub mc_sock: S,
}

#[derive(Clone, Copy, PartialEq, Eq, Structural, Debug)]
pub enum Event {
    Connection,
    Disconnection,
}

/// The type of the messages that report a new route.
pub open spec fn spec_rtm_newroute() -> u16 {
    24
}

/// The type of the messages that report a deleted route.
pub open spec fn spec_rtm_delroute() -> u16 {
    25
}

/// The type of a local route.
pub open spec fn local_route() -> u8 {
    2
}

/// `libc::RTM_NEWROUTE`, which is 24.
#[verifier::external_body]
fn rtm_newroute() -> (r: u16)
    ensures
        r == spec_rtm_newroute(),
{
    libc::RTM_NEWROUTE
}

/// `libc::RTM_DELROUTE`, which is 25.
#[verifier::external_body]
fn rtm_delroute() -> (r: u16)
    ensures
        r == spec_rtm_delroute(),
{
    libc::RTM_DELROUTE
}

/// `libc::IFA_LOCAL`, which is 2.
#[verifier::external_body]
fn ifa_local() -> (r: u16)
    ensures
        r == local_route(),
{
    libc::IFA_LOCAL
}

/// The length of the header of a message about a route.
pub const ROUTE_HEADER_LEN: usize = 12;

/// The route type in the header of a message about a route. A message that is shorter than the
/// header counts as one whose header is all zeros.
pub open spec fn route_type(buf: Seq<u8>) -> u8 {
    if buf.len() >= ROUTE_HEADER_LEN {
        buf[7]
    } else {
        0
    }
}

/// Calls `netlink_bindings::rt_route::OpGetrouteDump::decode_request` and takes the field
/// `rtm_type`, the eighth byte, of the header that it returns. The header of a message that is
/// too short is all zeros.
#[verifier::external_body]
fn decode_type(buf: &[u8]) -> (r: u8)
    ensures
        r == route_type(buf@),
{
    netlink_bindings::rt_route::OpGetrouteDump::decode_request(buf).0.rtm_type
}

/// The attributes of a message about a route: what follows its header.
pub open spec fn route_attrs(buf: Seq<u8>) -> Seq<u8> {
    if buf.len() >= ROUTE_HEADER_LEN {
        buf.skip(ROUTE_HEADER_LEN as int)
    } else {
        Seq::empty()
    }
}

/// The number in the two bytes from place `i` on, the least significant one first or last.
pub open spec fn u16_at(bytes: Seq<u8>, i: int, little_endian: bool) -> int {
    if little_endian {
        bytes[i] + 0x100 * bytes[i + 1]
    } else {
        0x100 * bytes[i] + bytes[i + 1]
    }
}

/// The octets of the first destination address among `attrs`. An attribute begins with its length
/// and, below two flag bits, its type; the next one begins at a multiple of four bytes. A
/// destination has type 1 and four or sixteen octets. The search ends at an attribute that has no
/// header or does not fit.
pub open spec fn dst_from(attrs: Seq<u8>, little_endian: bool) -> Option<Seq<u8>>
    decreases attrs.len(),
{
    let len = u16_at(attrs, 0, little_endian);
    let kind = u16_at(attrs, 2, little_endian) % 0x4000;
    let aligned = (len + 3) / 4 * 4;
    if attrs.len() < 4 || len < 4 || attrs.len() < len {
        None
    } else if kind == 1 && (len == 8 || len == 20) {
        Some(attrs.subrange(4, len))
    } else if attrs.len() <= aligned {
        None
    } else {
        dst_from(attrs.skip(aligned), little_endian)
    }
}

/// Calls `netlink_bindings::rt_route::IterableRouteAttrs::get_dst` on the attributes of a
/// message about a route. It returns the first IPv4 address, which has four octets, or IPv6
/// address, which has sixteen, that is a destination, or an error where there is none. It passes
/// over attributes of another type, known or not, and over destinations of another length.
/// Attribute lengths and types are read in the byte order of the machine, so the address is one
/// of the two readings of the message; which of them is not said.
#[verifier::external_body]
fn decode_dst(buf: &[u8]) -> (r: Option<Vec<u8>>)
    ensures
        octets(r) == dst_from(route_attrs(buf@), true) || octets(r) == dst_from(
            route_attrs(buf@),
            false,
        ),
{
    match netlink_bindings::rt_route::OpGetrouteDump::decode_request(buf).1.get_dst() {
        Ok(netlink_bindings::utils::IpAddr::V4(addr)) => Some(addr.octets().to_vec()),
        Ok(netlink_bindings::utils::IpAddr::V6(addr)) => Some(addr.octets().to_vec()),
        Err(_) => None,
    }
}

/// The octets of an address.
pub open spec fn octets(dst: Option<Vec<u8>>) -> Option<Seq<u8>> {
    match dst {
        Some(d) => Some(d@),
        None => None,
    }
}

/// Whether the octets are those of an IPv4 address in the subnet that a Remarkable provides.
pub open spec fn in_tablet_subnet(dst: Seq<u8>) -> bool {
    dst.len() == 4 && dst[0] == 10 && dst[1] == 11 && dst[2] == 99
}

/// Whether a route of this type and to this destination is a local one in the tablet's subnet.
pub open spec fn route_concerns(rtm_type: u8, dst: Option<Seq<u8>>) -> bool {
    rtm_type == local_route() && dst is Some && in_tablet_subnet(dst->0)
}

/// What a message of this type tells, if it concerns the tablet.
///
/// DELROUTE and NEWROUTE appear to trigger only when the other should. I don't know why.
pub open spec fn route_event(message_type: u16, concerned: bool) -> Option<Event> {
    if concerned && message_type == spec_rtm_delroute() {
        Some(Event::Connection)
    } else if concerned && message_type == spec_rtm_newroute() {
        Some(Event::Disconnection)
    } else {
        None
    }
}

/// Whether a destination address, if there is one, is in the tablet's subnet.
pub fn concerns_tablet(rtm_type: u8, dst: &Option<Vec<u8>>) -> (r: bool)
    ensures
        r == route_concerns(rtm_type, octets(*dst)),
{
    if rtm_type as u16 != ifa_local() {
        return false;
    }
    match dst {
        None => false,
        Some(d) => d.len() == 4 && d[0] == 10 && d[1] == 11 && d[2] == 99,
    }
}

/// The event that a message of this type tells of, about a route of this type and to this
/// destination.
pub fn event_of(message_type: u16, rtm_type: u8, dst: &Option<Vec<u8>>) -> (r: Option<Event>)
    ensures
        r == route_event(message_type, route_concerns(rtm_type, octets(*dst))),
{
    if message_type == rtm_delroute() && concerns_tablet(rtm_type, dst) {
        Some(Event::Connection)
    } else if message_type == rtm_newroute() && concerns_tablet(rtm_type, dst) {
        Some(Event::Disconnection)
    } else {
        None
    }
}

/// Given the data of an RTM_{NEW,DEL}ROUTE message, return true iff it concerns something
/// happening in a subnet consistent with what a Remarkable would provide.
pub fn concerns_remarkable(buf: &[u8]) -> (r: bool)
    ensures
        exists|little_endian: bool|
            r == route_concerns(
                route_type(buf@),
                #[trigger] dst_from(route_attrs(buf@), little_endian),
            ),
{
    let dst = decode_dst(buf);
    concerns_tablet(decode_type(buf), &dst)
}

impl<S> NetListener<S> {
    pub fn new(mc_sock: S) -> (r: Self)
        ensures
            r.mc_sock == mc_sock,
    {
        NetListener { mc_sock }
    }

    /// The event that a message from the kernel tells of, if any.
    pub fn filter_msg(&mut self, message_type: u16, buf: Vec<u8>) -> (r: Option<Event>)
        ensures
            *final(self) == *old(self),
            exists|little_endian: bool|
                r == route_event(
                    message_type,
                    route_concerns(
                        route_type(buf@),
                        #[trigger] dst_from(route_attrs(buf@), little_endian),
                    ),
                ),
    {
        let dst = decode_dst(&buf);
        event_of(message_type, decode_type(&buf), &dst)
    }
}

/// A message that has no room for a header and an address tells of no event, whatever its type.
pub proof fn short_message_is_ignored(message_type: u16, buf: Seq<u8>, little_endian: bool)
    requires
        buf.len() < ROUTE_HEADER_LEN + 8,
    ensures
        route_event(
            message_type,
            route_concerns(route_type(buf), dst_from(route_attrs(buf), little_endian)),
        ) is None,
{
    lemma_short_attrs_hold_no_dst(route_attrs(buf), little_endian);
}

proof fn lemma_short_attrs_hold_no_dst(attrs: Seq<u8>, little_endian: bool)
    requires
        attrs.len() < 8,
    ensures
        dst_from(attrs, little_endian) is None,
    decreases attrs.len(),
{
    let aligned = (u16_at(attrs, 0, little_endian) + 3) / 4 * 4;
    if 4 <= aligned < attrs.len() {
        lemma_short_attrs_hold_no_dst(attrs.skip(aligned), little_endian);
    }
}

/// A destination is an IPv4 or an IPv6 address.
pub proof fn dst_is_an_address(attrs: Seq<u8>, little_endian: bool)
    ensures
        dst_from(attrs, little_endian) matches Some(dst) ==> dst.len() == 4 || dst.len() == 16,
    decreases attrs.len(),
{
    let aligned = (u16_at(attrs, 0, little_endian) + 3) / 4 * 4;
    if 4 <= aligned < attrs.len() {
        dst_is_an_address(attrs.skip(aligned), little_endian);
    }
}

/// An IPv4 destination that comes first is the one that is found: then the header and the address
/// alone tell whether a message concerns the tablet.
pub proof fn first_dst_decides(buf: Seq<u8>, little_endian: bool)
    requires
        buf.len() >= ROUTE_HEADER_LEN + 8,
        u16_at(buf, 12, little_endian) == 8,
        u16_at(buf, 14, little_endian) % 0x4000 == 1,
    ensures
        route_concerns(route_type(buf), dst_from(route_attrs(buf), little_endian)) <==> buf[7]
            == local_route() && buf[16] == 10 && buf[17] == 11 && buf[18] == 99,
{
    let attrs = route_attrs(buf);
    assert(attrs[0] == buf[12] && attrs[1] == buf[13] && attrs[2] == buf[14] && attrs[3]
        == buf[15]);
}

/// What is no destination, in front of it, does not change which destination is found.
pub proof fn other_attributes_are_passed_over(front: Seq<u8>, rest: Seq<u8>, little_endian: bool)
    requires
        front.len() >= 4,
        front.len() % 4 == 0,
        front.len() - 4 < u16_at(front, 0, little_endian) <= front.len(),
        u16_at(front, 0, little_endian) >= 4,
        u16_at(front, 2, little_endian) % 0x4000 != 1 || !(u16_at(front, 0, little_endian) == 8
            || u16_at(front, 0, little_endian) == 20),
    ensures
        dst_from(front + rest, little_endian) == dst_from(rest, little_endian),
{
    let attrs = front + rest;
    assert(u16_at(attrs, 0, little_endian) == u16_at(front, 0, little_endian));
    assert(u16_at(attrs, 2, little_endian) == u16_at(front, 2, little_endian));
    assert((u16_at(attrs, 0, little_endian) + 3) / 4 * 4 == front.len());
    assert(attrs.skip(front.len() as int) =~= rest);
}

/// An event comes only from a report of a new or deleted local route to an IPv4 address of the
/// tablet's subnet, and each such report tells of one.
pub proof fn event_iff_tablet_route(message_type: u16, rtm_type: u8, dst: Option<Seq<u8>>)
    ensures
        route_event(message_type, route_concerns(rtm_type, dst)) is Some <==> {
            &&& message_type == spec_rtm_newroute() || message_type == spec_rtm_delroute()
            &&& rtm_type == local_route()
            &&& dst is Some
            &&& in_tablet_subnet(dst->0)
        },
{
}

/// Which event a message tells of: the deletion of a local route to an address `10.11.99.x` is a
/// connection, and a new one a disconnection; no other message tells of an event.
pub proof fn events_of_routes(message_type: u16, rtm_type: u8, dst: Option<Vec<u8>>)
    ensures
        ({
            let event = route_event(message_type, route_concerns(rtm_type, octets(dst)));
            let tablet = rtm_type == 2 && (dst matches Some(d) && d@.len() == 4 && d@[0] == 10
                && d@[1] == 11 && d@[2] == 99);
            &&& event == Some(Event::Connection) <==> message_type == 25 && tablet
            &&& event == Some(Event::Disconnection) <==> message_type == 24 && tablet
        }),
{
}

/// The last octet of the address, and all but the type of the message and of the route and the
/// destination, do not matter.
pub proof fn host_does_not_matter(message_type: u16, rtm_type: u8, subnet: Seq<u8>, a: u8, b: u8)
    requires
        subnet.len() == 3,
    ensures
        route_event(message_type, route_concerns(rtm_type, Some(subnet.push(a)))) == route_event(
            message_type,
            route_concerns(rtm_type, Some(subnet.push(b))),
        ),
{
}

/// The calls answer by the type of the message, the type of the route and its destination alone.
pub proof fn calls_answer_by_route(
    message_type: u16,
    rtm_type: u8,
    dst: &Option<Vec<u8>>,
    event: Option<Event>,
    concerned: bool,
    buf: &[u8],
    told: bool,
)
    requires
        call_ensures(concerns_remarkable, (buf,), told),
        call_ensures(event_of, (message_type, rtm_type, dst), event),
        call_ensures(concerns_tablet, (rtm_type, dst), concerned),
    ensures
        concerned <==> rtm_type == 2 && (*dst matches Some(d) && d@.len() == 4 && d@[0] == 10
            && d@[1] == 11 && d@[2] == 99),
        event == Some(Event::Connection) <==> message_type == 25 && concerned,
        event == Some(Event::Disconnection) <==> message_type == 24 && concerned,
        exists|little_endian: bool|
            {
                let dst = #[trigger] dst_from(route_attrs(buf@), little_endian);
                told <==> {
                    &&& buf@.len() >= 12 && buf@[7] == 2
                    &&& dst matches Some(d) && d.len() == 4 && d[0] == 10 && d[1] == 11 && d[2]
                        == 99
                }
            },
{
    events_of_routes(message_type, rtm_type, *dst);
    let le = choose|little_endian: bool|
        told == route_concerns(
            route_type(buf@),
            #[trigger] dst_from(route_attrs(buf@), little_endian),
        );
    assert(told == route_concerns(route_type(buf@), dst_from(route_attrs(buf@), le)));
}

/// A message tells of an event exactly where it is a report of a route and what it says of the
/// route concerns the tablet; the listener stays as it is.
pub proof fn messages_are_filtered<S>(
    nl: &mut NetListener<S>,
    message_type: u16,
    buf: Vec<u8>,
    event: Option<Event>,
)
    requires
        call_ensures(NetListener::<S>::filter_msg, (nl, message_type, buf), event),
    ensures
        *final(nl) == *old(nl),
        event is Some ==> {
            &&& buf@.len() >= 20
            &&& buf@[7] == 2
            &&& exists|at: int|
                16 <= at && at + 4 <= buf@.len() && #[trigger] buf@[at] == 10 && buf@[at + 1] == 11
                    && buf@[at + 2] == 99
        },
        event == Some(Event::Connection) ==> message_type == 25,
        event == Some(Event::Disconnection) ==> message_type == 24,
        exists|little_endian: bool|
            {
                let dst = #[trigger] dst_from(route_attrs(buf@), little_endian);
                event is Some <==> {
                    &&& message_type == 24 || message_type == 25
                    &&& buf@.len() >= 12 && buf@[7] == 2
                    &&& dst matches Some(d) && d.len() == 4 && d[0] == 10 && d[1] == 11 && d[2]
                        == 99
                }
            },
{
    let attrs = route_attrs(buf@);
    assert forall|little_endian: bool| route_concerns(
        route_type(buf@),
        #[trigger] dst_from(attrs, little_endian),
    ) implies buf@.len() >= 20 && exists|at: int|
        16 <= at && at + 4 <= buf@.len() && #[trigger] buf@[at] == 10 && buf@[at + 1] == 11
            && buf@[at + 2] == 99 by {
        let at = lemma_dst_stands_in(attrs, little_endian);
        assert(dst_from(attrs, little_endian)->0 == attrs.subrange(at, at + 4));
        let dst = attrs.subrange(at, at + 4);
        assert(dst[0] == attrs[at] && dst[1] == attrs[at + 1] && dst[2] == attrs[at + 2]);
        assert(buf@[at + 12] == 10 && buf@[at + 13] == 11 && buf@[at + 14] == 99);
    }
    let le = choose|little_endian: bool|
        event == route_event(
            message_type,
            route_concerns(route_type(buf@), #[trigger] dst_from(attrs, little_endian)),
        );
    assert(event is Some <==> (message_type == 24 || message_type == 25) && route_concerns(
        route_type(buf@),
        dst_from(attrs, le),
    ));
}

/// The octets of a destination stand in the message, behind the header of an attribute.
proof fn lemma_dst_stands_in(attrs: Seq<u8>, little_endian: bool) -> (at: int)
    requires
        dst_from(attrs, little_endian) is Some,
    ensures
        4 <= at,
        at + dst_from(attrs, little_endian)->0.len() <= attrs.len(),
        dst_from(attrs, little_endian)->0 == attrs.subrange(
            at,
            at + dst_from(attrs, little_endian)->0.len(),
        ),
        dst_from(attrs, little_endian)->0.len() >= 4,
    decreases attrs.len(),
{
    let len = u16_at(attrs, 0, little_endian);
    let kind = u16_at(attrs, 2, little_endian) % 0x4000;
    let aligned = (len + 3) / 4 * 4;
    if kind == 1 && (len == 8 || len == 20) {
        4
    } else {
        let rest = attrs.skip(aligned);
        let at = lemma_dst_stands_in(rest, little_endian);
        let n = dst_from(rest, little_endian)->0.len() as int;
        assert(rest.subrange(at, at + n) =~= attrs.subrange(aligned + at, aligned + at + n));
        aligned + at
    }
}

} // verus!
