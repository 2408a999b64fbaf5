//! Frames on the wire: reading Ethernet and ARP headers, deciding what a
//! received frame asks for, and building the two forged frames.

use vstd::prelude::*;
use crate::address::{Ipv4Address, MacAddress};
use crate::config::ArpProxyConfig;
use crate::repositories::allowed_mac::AllowedMacRepository;
use crate::repositories::arplog::{
    evict_expired, lists, put_record, ArpLog, ArpLogRepository, Records,
};
use crate::repositories::config::ConfigRepository;
use crate::repositories::RepositoryError;

verus! {

/// Bytes in an Ethernet header: two hardware addresses and the ethertype.
pub const ETHERNET_HEADER_LEN: usize = 14;

/// Bytes in an ARP packet for IPv4 over Ethernet.
pub const ARP_PACKET_LEN: usize = 28;

/// Bytes in a forged frame: an Ethernet header and an ARP packet.
pub const SPOOF_FRAME_LEN: usize = 42;

/// The ethertype of IPv4, which is also ARP's protocol type for it.
pub const ETHERTYPE_IPV4: u16 = 0x0800;

/// The ethertype of ARP.
pub const ETHERTYPE_ARP: u16 = 0x0806;

/// ARP's hardware type for Ethernet.
pub const ARP_HARDWARE_ETHERNET: u16 = 1;

/// The ARP operation of a request.
pub const ARP_REQUEST: u16 = 1;

/// The ARP operation of a reply.
pub const ARP_REPLY: u16 = 2;

/// Why a frame was not handled.
#[derive(Debug)]
pub enum NetworkError {
    /// The frame, or the packet inside it, is shorter than its header.
    UnitSizeError(String),
    /// A store failed while the frame was handled.
    StoreError(RepositoryError),
}

/// The big-endian number in the two bytes at `at`.
pub open spec fn u16_at(bytes: Seq<u8>, at: int) -> u16 {
    (bytes[at] as int * 256 + bytes[at + 1] as int) as u16
}

/// The hardware address in the six bytes at `at`.
pub open spec fn mac_at(bytes: Seq<u8>, at: int) -> MacAddress {
    MacAddress(
        bytes[at],
        bytes[at + 1],
        bytes[at + 2],
        bytes[at + 3],
        bytes[at + 4],
        bytes[at + 5],
    )
}

/// The IPv4 address in the four bytes at `at`.
pub open spec fn ip_at(bytes: Seq<u8>, at: int) -> Ipv4Address {
    Ipv4Address(bytes[at], bytes[at + 1], bytes[at + 2], bytes[at + 3])
}

/// The two bytes of `n`, high byte first.
pub open spec fn u16_bytes(n: u16) -> Seq<u8> {
    seq![(n / 256) as u8, (n % 256) as u8]
}

/// The header fields of an Ethernet frame, and what follows them.
pub struct EthernetView<'a> {
    pub destination: MacAddress,
    pub source: MacAddress,
    pub ethertype: u16,
    pub payload: &'a [u8],
}

impl<'a> EthernetView<'a> {
    /// Whether this is what `frame` holds.
    pub open spec fn reads(self, frame: Seq<u8>) -> bool {
        &&& self.destination == mac_at(frame, 0)
        &&& self.source == mac_at(frame, 6)
        &&& self.ethertype == u16_at(frame, 12)
        &&& self.payload@ == frame.subrange(ETHERNET_HEADER_LEN as int, frame.len() as int)
    }
}

/// The fields of an ARP packet for IPv4 over Ethernet.
#[derive(Clone, Copy, Debug, PartialEq, Eq, Structural)]
pub struct ArpView {
    pub hardware_type: u16,
    pub protocol_type: u16,
    pub hw_addr_len: u8,
    pub proto_addr_len: u8,
    pub operation: u16,
    pub sender_hw_addr: MacAddress,
    pub sender_proto_addr: Ipv4Address,
    pub target_hw_addr: MacAddress,
    pub target_proto_addr: Ipv4Address,
}

/// The fields that the first 28 bytes of `packet` hold.
pub open spec fn arp_fields(packet: Seq<u8>) -> ArpView {
    ArpView {
        hardware_type: u16_at(packet, 0),
        protocol_type: u16_at(packet, 2),
        hw_addr_len: packet[4],
        proto_addr_len: packet[5],
        operation: u16_at(packet, 6),
        sender_hw_addr: mac_at(packet, 8),
        sender_proto_addr: ip_at(packet, 14),
        target_hw_addr: mac_at(packet, 18),
        target_proto_addr: ip_at(packet, 24),
    }
}

/// The text that goes with a frame shorter than an Ethernet header.
pub open spec fn short_ethernet_text() -> Seq<char> {
    "less than minimal Ethernet frame size"@
}

/// The text that goes with an ARP packet shorter than 28 bytes.
pub open spec fn short_arp_text() -> Seq<char> {
    "less than minimal ARP frame size"@
}

fn read_u16(bytes: &[u8], at: usize) -> (r: u16)
    requires
        at + 2 <= bytes@.len(),
    ensures
        r == u16_at(bytes@, at as int),
{
    bytes[at] as u16 * 256 + bytes[at + 1] as u16
}

fn read_mac(bytes: &[u8], at: usize) -> (r: MacAddress)
    requires
        at + 6 <= bytes@.len(),
    ensures
        r == mac_at(bytes@, at as int),
{
    MacAddress(
        bytes[at],
        bytes[at + 1],
        bytes[at + 2],
        bytes[at + 3],
        bytes[at + 4],
        bytes[at + 5],
    )
}

fn read_ip(bytes: &[u8], at: usize) -> (r: Ipv4Address)
    requires
        at + 4 <= bytes@.len(),
    ensures
        r == ip_at(bytes@, at as int),
{
    Ipv4Address(bytes[at], bytes[at + 1], bytes[at + 2], bytes[at + 3])
}

/// Reads the Ethernet header of `frame`. A frame of fewer than 14 bytes has
/// no header and is refused; any other frame is read, whatever it carries.
pub fn parse_ethernet<'a>(frame: &'a [u8]) -> (r: Result<EthernetView<'a>, NetworkError>)
    ensures
        match r {
            Ok(view) => frame@.len() >= ETHERNET_HEADER_LEN && view.reads(frame@),
            Err(NetworkError::UnitSizeError(text)) => frame@.len() < ETHERNET_HEADER_LEN && text@
                == short_ethernet_text(),
            Err(_) => false,
        },
{
    if frame.len() < ETHERNET_HEADER_LEN {
        return Err(NetworkError::UnitSizeError("less than minimal Ethernet frame size".to_owned()));
    }
    Ok(
        EthernetView {
            destination: read_mac(frame, 0),
            source: read_mac(frame, 6),
            ethertype: read_u16(frame, 12),
            payload: vstd::slice::slice_subrange(frame, ETHERNET_HEADER_LEN, frame.len()),
        },
    )
}

/// Reads an ARP packet. A packet of fewer than 28 bytes is refused; what
/// follows the first 28 bytes is not looked at.
pub fn parse_arp(packet: &[u8]) -> (r: Result<ArpView, NetworkError>)
    ensures
        match r {
            Ok(view) => packet@.len() >= ARP_PACKET_LEN && view == arp_fields(packet@),
            Err(NetworkError::UnitSizeError(text)) => packet@.len() < ARP_PACKET_LEN && text@
                == short_arp_text(),
            Err(_) => false,
        },
{
    if packet.len() < ARP_PACKET_LEN {
        return Err(NetworkError::UnitSizeError("less than minimal ARP frame size".to_owned()));
    }
    Ok(
        ArpView {
            hardware_type: read_u16(packet, 0),
            protocol_type: read_u16(packet, 2),
            hw_addr_len: packet[4],
            proto_addr_len: packet[5],
            operation: read_u16(packet, 6),
            sender_hw_addr: read_mac(packet, 8),
            sender_proto_addr: read_ip(packet, 14),
            target_hw_addr: read_mac(packet, 18),
            target_proto_addr: read_ip(packet, 24),
        },
    )
}

/// The 42 bytes of an Ethernet frame that carries one ARP packet for IPv4
/// over Ethernet: destination, source, ethertype ARP; then hardware type
/// Ethernet, protocol type IPv4, address lengths 6 and 4, the operation, and
/// the sender's and the target's two addresses.
pub open spec fn arp_frame(
    destination: MacAddress,
    source: MacAddress,
    operation: u16,
    sender_hw_addr: MacAddress,
    sender_proto_addr: Ipv4Address,
    target_hw_addr: MacAddress,
    target_proto_addr: Ipv4Address,
) -> Seq<u8> {
    destination.bytes() + source.bytes() + u16_bytes(ETHERTYPE_ARP) + u16_bytes(
        ARP_HARDWARE_ETHERNET,
    ) + u16_bytes(ETHERTYPE_IPV4) + seq![6u8, 4u8] + u16_bytes(operation)
        + sender_hw_addr.bytes() + sender_proto_addr.bytes() + target_hw_addr.bytes()
        + target_proto_addr.bytes()
}

/// The forged reply to the query `log`: it tells the sender of the query
/// that `local_mac` owns the address it asked for.
pub open spec fn reply_frame(local_mac: MacAddress, log: ArpLog) -> Seq<u8> {
    arp_frame(
        log.sender_mac,
        local_mac,
        ARP_REPLY,
        local_mac,
        log.target_ip,
        log.sender_mac,
        log.sender_ip,
    )
}

/// The forged request that goes with the query `log`: a broadcast that asks
/// for the queried address in the name of the sender's protocol address, from
/// `local_mac`.
pub open spec fn request_frame(local_mac: MacAddress, log: ArpLog) -> Seq<u8> {
    arp_frame(
        MacAddress(0xff, 0xff, 0xff, 0xff, 0xff, 0xff),
        local_mac,
        ARP_REQUEST,
        local_mac,
        log.sender_ip,
        MacAddress(0, 0, 0, 0, 0, 0),
        log.target_ip,
    )
}

/// The forged reply, read back: it is 42 bytes long, goes from `local_mac`
/// to the sender of the query, and its ARP packet is a reply in which
/// `local_mac` claims the queried address towards the sender.
pub proof fn lemma_reply_frame_reads(local_mac: MacAddress, log: ArpLog)
    ensures
        ({
            let frame = reply_frame(local_mac, log);
            &&& frame.len() == SPOOF_FRAME_LEN
            &&& mac_at(frame, 0) == log.sender_mac
            &&& mac_at(frame, 6) == local_mac
            &&& u16_at(frame, 12) == ETHERTYPE_ARP
            &&& arp_fields(frame.subrange(ETHERNET_HEADER_LEN as int, SPOOF_FRAME_LEN as int)) == (
            ArpView {
                hardware_type: ARP_HARDWARE_ETHERNET,
                protocol_type: ETHERTYPE_IPV4,
                hw_addr_len: 6,
                proto_addr_len: 4,
                operation: ARP_REPLY,
                sender_hw_addr: local_mac,
                sender_proto_addr: log.target_ip,
                target_hw_addr: log.sender_mac,
                target_proto_addr: log.sender_ip,
            })
        }),
{
}

/// The forged request, read back: it is 42 bytes long, goes from
/// `local_mac` to every station, and its ARP packet is a request for the
/// queried address in which `local_mac` claims the sender's protocol
/// address; the target's hardware address is all zero.
pub proof fn lemma_request_frame_reads(local_mac: MacAddress, log: ArpLog)
    ensures
        ({
            let frame = request_frame(local_mac, log);
            &&& frame.len() == SPOOF_FRAME_LEN
            &&& mac_at(frame, 0) == MacAddress(0xff, 0xff, 0xff, 0xff, 0xff, 0xff)
            &&& mac_at(frame, 6) == local_mac
            &&& u16_at(frame, 12) == ETHERTYPE_ARP
            &&& arp_fields(frame.subrange(ETHERNET_HEADER_LEN as int, SPOOF_FRAME_LEN as int)) == (
            ArpView {
                hardware_type: ARP_HARDWARE_ETHERNET,
                protocol_type: ETHERTYPE_IPV4,
                hw_addr_len: 6,
                proto_addr_len: 4,
                operation: ARP_REQUEST,
                sender_hw_addr: local_mac,
                sender_proto_addr: log.sender_ip,
                target_hw_addr: MacAddress(0, 0, 0, 0, 0, 0),
                target_proto_addr: log.target_ip,
            })
        }),
{
}

fn build_arp_frame(
    destination: MacAddress,
    source: MacAddress,
    operation: u16,
    sender_hw_addr: MacAddress,
    sender_proto_addr: Ipv4Address,
    target_hw_addr: MacAddress,
    target_proto_addr: Ipv4Address,
) -> (r: [u8; 42])
    ensures
        r@ == arp_frame(
            destination,
            source,
            operation,
            sender_hw_addr,
            sender_proto_addr,
            target_hw_addr,
            target_proto_addr,
        ),
{
    let r: [u8; 42] = [
        destination.0,
        destination.1,
        destination.2,
        destination.3,
        destination.4,
        destination.5,
        source.0,
        source.1,
        source.2,
        source.3,
        source.4,
        source.5,
        (ETHERTYPE_ARP / 256) as u8,
        (ETHERTYPE_ARP % 256) as u8,
        (ARP_HARDWARE_ETHERNET / 256) as u8,
        (ARP_HARDWARE_ETHERNET % 256) as u8,
        (ETHERTYPE_IPV4 / 256) as u8,
        (ETHERTYPE_IPV4 % 256) as u8,
        6,
        4,
        (operation / 256) as u8,
        (operation % 256) as u8,
        sender_hw_addr.0,
        sender_hw_addr.1,
        sender_hw_addr.2,
        sender_hw_addr.3,
        sender_hw_addr.4,
        sender_hw_addr.5,
        sender_proto_addr.0,
        sender_proto_addr.1,
        sender_proto_addr.2,
        sender_proto_addr.3,
        target_hw_addr.0,
        target_hw_addr.1,
        target_hw_addr.2,
        target_hw_addr.3,
        target_hw_addr.4,
        target_hw_addr.5,
        target_proto_addr.0,
        target_proto_addr.1,
        target_proto_addr.2,
        target_proto_addr.3,
    ];
    assert(r@ =~= arp_frame(
        destination,
        source,
        operation,
        sender_hw_addr,
        sender_proto_addr,
        target_hw_addr,
        target_proto_addr,
    ));
    r
}

/// Nanoseconds in a second.
pub const NANOS_PER_SECOND: u64 = 1_000_000_000;

/// How long a query keeps being answered, in nanoseconds.
pub open spec fn reply_duration(config: ArpProxyConfig) -> u64 {
    (config.arp_reply_duration as u64 * NANOS_PER_SECOND) as u64
}

/// The decision on a sender: it is answered if allowed senders are answered
/// too, or if it is not allowed.
pub open spec fn should_proxy(
    proxy_allowed_macs: bool,
    allowed: Set<MacAddress>,
    sender: MacAddress,
) -> bool {
    proxy_allowed_macs || !allowed.contains(sender)
}

/// What a received frame is to a listener whose interface has the address
/// `local_mac`.
pub enum Received {
    /// Fewer bytes than an Ethernet header.
    ShortOfEthernet,
    /// An ARP frame from another station with fewer bytes than an ARP packet.
    ShortOfArp,
    /// The listener's own frame, a frame that is not ARP, or an ARP frame
    /// that is no request.
    Ignored,
    /// An ARP request from another station.
    Query { sender_mac: MacAddress, sender_ip: Ipv4Address, target_ip: Ipv4Address },
}

/// Reads `frame` as the listener does: the Ethernet header first, then, in
/// an ARP frame from another station, the ARP packet.
pub open spec fn received(local_mac: MacAddress, frame: Seq<u8>) -> Received {
    if frame.len() < ETHERNET_HEADER_LEN {
        Received::ShortOfEthernet
    } else if mac_at(frame, 6) == local_mac {
        Received::Ignored
    } else if u16_at(frame, 12) != ETHERTYPE_ARP {
        Received::Ignored
    } else if frame.len() < ETHERNET_HEADER_LEN + ARP_PACKET_LEN {
        Received::ShortOfArp
    } else if u16_at(frame, 20) != ARP_REQUEST {
        Received::Ignored
    } else {
        Received::Query {
            sender_mac: mac_at(frame, 22),
            sender_ip: ip_at(frame, 28),
            target_ip: ip_at(frame, 38),
        }
    }
}

/// The query that an ARP request asks to record at time `now`.
pub open spec fn query_of(local_mac: MacAddress, frame: Seq<u8>, now: u64) -> ArpLog
    recommends
        received(local_mac, frame) is Query,
{
    ArpLog {
        sender_mac: received(local_mac, frame)->sender_mac,
        sender_ip: received(local_mac, frame)->sender_ip,
        target_ip: received(local_mac, frame)->target_ip,
        last_seen: now,
    }
}

/// The query `log` was answered: it is recorded in the cache, and `r` hands
/// out its forged reply and its forged request.
pub open spec fn answered(
    r: Result<Option<([u8; 42], [u8; 42])>, NetworkError>,
    local_mac: MacAddress,
    log: ArpLog,
    before: Records,
    after: Records,
) -> bool {
    &&& r matches Ok(Some(frames))
    &&& frames.0@ == reply_frame(local_mac, log)
    &&& frames.1@ == request_frame(local_mac, log)
    &&& after == put_record(before, log)
}

/// What handling the query `log` comes to, given the result `r`, the cache
/// `before` and `after`, and whether the stores can fail at all.
///
/// The query is answered exactly if `should_proxy` says so: then it is
/// recorded and the two forged frames are handed out. A sender that is not
/// answered leaves no trace. A store that fails leaves the cache as it was.
pub open spec fn query_handled(
    r: Result<Option<([u8; 42], [u8; 42])>, NetworkError>,
    local_mac: MacAddress,
    log: ArpLog,
    proxy_allowed_macs: bool,
    allowed: Set<MacAddress>,
    stores_infallible: bool,
    before: Records,
    after: Records,
) -> bool {
    match r {
        Ok(Some(_)) => should_proxy(proxy_allowed_macs, allowed, log.sender_mac) && answered(
            r,
            local_mac,
            log,
            before,
            after,
        ),
        Ok(None) => !should_proxy(proxy_allowed_macs, allowed, log.sender_mac) && after == before,
        Err(NetworkError::StoreError(_)) => after == before && !stores_infallible,
        Err(NetworkError::UnitSizeError(_)) => false,
    }
}

/// What handling the ARP packet `view` at time `now` comes to: a packet that
/// is no request is passed over, a request is handled as a query.
pub open spec fn arp_handled(
    r: Result<Option<([u8; 42], [u8; 42])>, NetworkError>,
    local_mac: MacAddress,
    view: ArpView,
    now: u64,
    proxy_allowed_macs: bool,
    allowed: Set<MacAddress>,
    stores_infallible: bool,
    before: Records,
    after: Records,
) -> bool {
    if view.operation == ARP_REQUEST {
        query_handled(
            r,
            local_mac,
            ArpLog {
                sender_mac: view.sender_hw_addr,
                sender_ip: view.sender_proto_addr,
                target_ip: view.target_proto_addr,
                last_seen: now,
            },
            proxy_allowed_macs,
            allowed,
            stores_infallible,
            before,
            after,
        )
    } else {
        r matches Ok(None) && after == before
    }
}

/// What handling the frame `frame` at time `now` comes to, given the result
/// `r`, the cache `before` and `after`, the settings and the allowlist.
///
/// A frame that is too short is refused and leaves the cache as it was. A
/// frame that is passed over gives nothing and leaves the cache as it was.
/// An ARP request from another station is handled as a query.
pub open spec fn frame_handled(
    r: Result<Option<([u8; 42], [u8; 42])>, NetworkError>,
    listener: PacketListener,
    frame: Seq<u8>,
    now: u64,
    proxy_allowed_macs: bool,
    allowed: Set<MacAddress>,
    stores_infallible: bool,
    before: Records,
    after: Records,
) -> bool {
    match received(listener.local_mac, frame) {
        Received::ShortOfEthernet => {
            &&& r matches Err(NetworkError::UnitSizeError(text))
            &&& text@ == short_ethernet_text()
            &&& after == before
        },
        Received::ShortOfArp => {
            &&& r matches Err(NetworkError::UnitSizeError(text))
            &&& text@ == short_arp_text()
            &&& after == before
        },
        Received::Ignored => (r matches Ok(None)) && after == before,
        Received::Query { sender_mac, sender_ip, target_ip } => query_handled(
            r,
            listener.packet_sender.local_mac,
            ArpLog { sender_mac, sender_ip, target_ip, last_seen: now },
            proxy_allowed_macs,
            allowed,
            stores_infallible,
            before,
            after,
        ),
    }
}

/// Self-echo suppression. A frame whose Ethernet source is the listener's
/// own address gives no frames and leaves the cache as it was, whatever the
/// frame carries and whatever the settings and the allowlist say.
pub proof fn lemma_self_echo_suppressed(
    r: Result<Option<([u8; 42], [u8; 42])>, NetworkError>,
    listener: PacketListener,
    frame: Seq<u8>,
    now: u64,
    proxy_allowed_macs: bool,
    allowed: Set<MacAddress>,
    stores_infallible: bool,
    before: Records,
    after: Records,
)
    requires
        frame.len() >= ETHERNET_HEADER_LEN,
        mac_at(frame, 6) == listener.local_mac,
        frame_handled(
            r,
            listener,
            frame,
            now,
            proxy_allowed_macs,
            allowed,
            stores_infallible,
            before,
            after,
        ),
    ensures
        r matches Ok(None),
        after == before,
{
}

/// The forged frames are the listener's own frames: received again, they
/// are passed over.
pub proof fn lemma_own_frames_ignored(local_mac: MacAddress, log: ArpLog)
    ensures
        received(local_mac, reply_frame(local_mac, log)) == Received::Ignored,
        received(local_mac, request_frame(local_mac, log)) == Received::Ignored,
{
    lemma_reply_frame_reads(local_mac, log);
    lemma_request_frame_reads(local_mac, log);
}

/// Malformed input. A frame with fewer bytes than an Ethernet header is
/// refused and leaves the cache as it was; so is every frame that is
/// refused for its size.
pub proof fn lemma_malformed_frame_refused(
    r: Result<Option<([u8; 42], [u8; 42])>, NetworkError>,
    listener: PacketListener,
    frame: Seq<u8>,
    now: u64,
    proxy_allowed_macs: bool,
    allowed: Set<MacAddress>,
    stores_infallible: bool,
    before: Records,
    after: Records,
)
    requires
        frame_handled(
            r,
            listener,
            frame,
            now,
            proxy_allowed_macs,
            allowed,
            stores_infallible,
            before,
            after,
        ),
    ensures
        frame.len() < ETHERNET_HEADER_LEN ==> r is Err && r->Err_0 is UnitSizeError,
        r is Err && r->Err_0 is UnitSizeError ==> frame.len() < ETHERNET_HEADER_LEN
            + ARP_PACKET_LEN,
        r is Err ==> after == before,
{
}

/// The allowlist gate. While allowed senders are not answered and the stores
/// do not fail, an ARP request from an allowed sender leaves no trace and
/// gives no frames; one from any other sender is recorded and gives its two
/// frames.
pub proof fn lemma_allowlist_gate(
    r: Result<Option<([u8; 42], [u8; 42])>, NetworkError>,
    listener: PacketListener,
    frame: Seq<u8>,
    now: u64,
    allowed: Set<MacAddress>,
    before: Records,
    after: Records,
)
    requires
        received(listener.local_mac, frame) is Query,
        frame_handled(r, listener, frame, now, false, allowed, true, before, after),
    ensures
        ({
            let log = query_of(listener.local_mac, frame, now);
            &&& allowed.contains(log.sender_mac) ==> (r matches Ok(None)) && after == before
            &&& !allowed.contains(log.sender_mac) ==> answered(
                r,
                listener.packet_sender.local_mac,
                log,
                before,
                after,
            )
        }),
{
}

/// The override gate. While allowed senders are answered too and the stores
/// do not fail, every ARP request is recorded and gives its two frames,
/// whether its sender is allowed or not.
pub proof fn lemma_override_gate(
    r: Result<Option<([u8; 42], [u8; 42])>, NetworkError>,
    listener: PacketListener,
    frame: Seq<u8>,
    now: u64,
    allowed: Set<MacAddress>,
    before: Records,
    after: Records,
)
    requires
        received(listener.local_mac, frame) is Query,
        frame_handled(r, listener, frame, now, true, allowed, true, before, after),
    ensures
        answered(
            r,
            listener.packet_sender.local_mac,
            query_of(listener.local_mac, frame, now),
            before,
            after,
        ),
{
}

/// What a round of forged frames carries: for each listed query, in order,
/// its forged reply and its forged request.
pub open spec fn carries(
    frames: Seq<([u8; 42], [u8; 42])>,
    local_mac: MacAddress,
    logs: Seq<ArpLog>,
) -> bool {
    &&& frames.len() == logs.len()
    &&& forall|i: int|
        0 <= i < frames.len() ==> (#[trigger] frames[i]).0@ == reply_frame(local_mac, logs[i])
            && frames[i].1@ == request_frame(local_mac, logs[i])
}

/// A round of forged frames for the cache `records`: the frames of every
/// entry of the cache, each entry once, in the order of some listing.
pub open spec fn round_of(
    frames: Seq<([u8; 42], [u8; 42])>,
    local_mac: MacAddress,
    records: Records,
) -> bool {
    exists|logs: Seq<ArpLog>| #[trigger] lists(logs, records) && carries(frames, local_mac, logs)
}

/// The decision on a sender, from what the settings and the allowlist say.
pub fn proxy_decision(proxy_allowed_macs: bool, sender_allowed: bool) -> (r: bool)
    ensures
        r == (proxy_allowed_macs || !sender_allowed),
{
    proxy_allowed_macs || !sender_allowed
}

/// The side of the agent that builds forged frames, for the interface with
/// the hardware address `local_mac`.
#[derive(Clone, Copy, Debug)]
pub struct PacketSender {
    pub local_mac: MacAddress,
}

impl PacketSender {
    pub fn new(local_mac: MacAddress) -> (r: Self)
        ensures
            r.local_mac == local_mac,
    {
        Self { local_mac }
    }

    /// Builds the forged reply and the forged request for one query.
    pub fn construct_proxyarp_frames(&self, arplog: ArpLog) -> (r: ([u8; 42], [u8; 42]))
        ensures
            r.0@ == reply_frame(self.local_mac, arplog),
            r.1@ == request_frame(self.local_mac, arplog),
    {
        let sender_mac = self.local_mac;
        let ethernet_buffer1 = build_arp_frame(
            arplog.sender_mac,
            sender_mac,
            ARP_REPLY,
            sender_mac,
            arplog.target_ip,
            arplog.sender_mac,
            arplog.sender_ip,
        );
        let ethernet_buffer2 = build_arp_frame(
            MacAddress::broadcast(),
            sender_mac,
            ARP_REQUEST,
            sender_mac,
            arplog.sender_ip,
            MacAddress::zero(),
            arplog.target_ip,
        );
        (ethernet_buffer1, ethernet_buffer2)
    }

    /// One round of the resend loop at time `now`: drops the queries that
    /// are older than the configured duration and builds the forged frames
    /// for those that are left.
    pub fn resend_tick<C: ConfigRepository, A: ArpLogRepository>(
        &self,
        config_repo: &C,
        arplog_repo: &mut A,
        now: u64,
    ) -> (r: Result<Vec<([u8; 42], [u8; 42])>, RepositoryError>)
        requires
            old(arplog_repo).well_formed(),
        ensures
            final(arplog_repo).well_formed(),
            final(arplog_repo).infallible() == old(arplog_repo).infallible(),
            old(arplog_repo).infallible() ==> r is Ok,
            r is Ok ==> final(arplog_repo).records() == evict_expired(
                old(arplog_repo).records(),
                reply_duration(config_repo.config().arp_proxy),
                now,
            ),
            r matches Ok(frames) ==> round_of(
                frames@,
                self.local_mac,
                final(arplog_repo).records(),
            ),
            r is Err ==> final(arplog_repo).records() == old(arplog_repo).records(),
    {
        let arplog_life: u64 = config_repo.get_config().arp_proxy.arp_reply_duration as u64
            * NANOS_PER_SECOND;
        match arplog_repo.getall_autoclear(arplog_life, now) {
            Ok(arplogs) => {
                let mut frames: Vec<([u8; 42], [u8; 42])> = Vec::new();
                let n: usize = arplogs.len();
                let mut i: usize = 0;
                while i < n
                    invariant
                        i <= n,
                        n == arplogs@.len(),
                        lists(arplogs@, arplog_repo.records()),
                        carries(frames@, self.local_mac, arplogs@.subrange(0, i as int)),
                    decreases n - i,
                {
                    frames.push(self.construct_proxyarp_frames(arplogs[i]));
                    i = i + 1;
                }
                proof {
                    assert(arplogs@.subrange(0, n as int) =~= arplogs@);
                    assert(lists(arplogs@, arplog_repo.records()) && carries(
                        frames@,
                        self.local_mac,
                        arplogs@,
                    ));
                }
                Ok(frames)
            },
            Err(e) => Err(e),
        }
    }
}

/// The side of the agent that looks at received frames.
#[derive(Clone, Copy, Debug)]
pub struct PacketListener {
    pub local_mac: MacAddress,
    pub packet_sender: PacketSender,
}

impl PacketListener {
    pub fn new(local_mac: MacAddress, packet_sender: PacketSender) -> (r: Self)
        ensures
            r.local_mac == local_mac,
            r.packet_sender == packet_sender,
    {
        Self { local_mac, packet_sender }
    }

    /// Handles one received frame at time `now`.
    ///
    /// A frame that is too short is refused, and the stores stay as they
    /// are. The listener's own frames, frames that are not ARP and ARP
    /// frames that are no requests are passed over. An ARP request is
    /// answered if `should_proxy` says so: it is recorded in the cache, and
    /// the two forged frames to be sent are handed back.
    pub fn handle_frame<C: ConfigRepository, M: AllowedMacRepository, A: ArpLogRepository>(
        &self,
        config_repo: &C,
        allowedmac_repo: &M,
        arplog_repo: &mut A,
        frame: &[u8],
        now: u64,
    ) -> (r: Result<Option<([u8; 42], [u8; 42])>, NetworkError>)
        requires
            allowedmac_repo.well_formed(),
            old(arplog_repo).well_formed(),
        ensures
            final(arplog_repo).well_formed(),
            final(arplog_repo).infallible() == old(arplog_repo).infallible(),
            frame_handled(
                r,
                *self,
                frame@,
                now,
                config_repo.config().arp_proxy.proxy_allowed_macs,
                allowedmac_repo.macs(),
                allowedmac_repo.infallible() && old(arplog_repo).infallible(),
                old(arplog_repo).records(),
                final(arplog_repo).records(),
            ),
    {
        match parse_ethernet(frame) {
            Ok(ethernet_frame) => self.handle_ethernet(
                config_repo,
                allowedmac_repo,
                arplog_repo,
                &ethernet_frame,
                now,
            ),
            Err(e) => Err(e),
        }
    }

    /// Handles a frame whose Ethernet header has been read.
    pub fn handle_ethernet<C: ConfigRepository, M: AllowedMacRepository, A: ArpLogRepository>(
        &self,
        config_repo: &C,
        allowedmac_repo: &M,
        arplog_repo: &mut A,
        frame: &EthernetView,
        now: u64,
    ) -> (r: Result<Option<([u8; 42], [u8; 42])>, NetworkError>)
        requires
            allowedmac_repo.well_formed(),
            old(arplog_repo).well_formed(),
        ensures
            final(arplog_repo).well_formed(),
            final(arplog_repo).infallible() == old(arplog_repo).infallible(),
            frame.source == self.local_mac || frame.ethertype != ETHERTYPE_ARP ==> {
                &&& r matches Ok(None)
                &&& final(arplog_repo).records() == old(arplog_repo).records()
            },
            frame.source != self.local_mac && frame.ethertype == ETHERTYPE_ARP
                && frame.payload@.len() < ARP_PACKET_LEN ==> {
                &&& r matches Err(NetworkError::UnitSizeError(text))
                &&& text@ == short_arp_text()
                &&& final(arplog_repo).records() == old(arplog_repo).records()
            },
            frame.source != self.local_mac && frame.ethertype == ETHERTYPE_ARP
                && frame.payload@.len() >= ARP_PACKET_LEN ==> arp_handled(
                r,
                self.packet_sender.local_mac,
                arp_fields(frame.payload@),
                now,
                config_repo.config().arp_proxy.proxy_allowed_macs,
                allowedmac_repo.macs(),
                allowedmac_repo.infallible() && old(arplog_repo).infallible(),
                old(arplog_repo).records(),
                final(arplog_repo).records(),
            ),
    {
        if frame.source == self.local_mac {
            return Ok(None);
        }
        if frame.ethertype == ETHERTYPE_ARP {
            match parse_arp(frame.payload) {
                Ok(arp_frame) => self.handle_arp(
                    config_repo,
                    allowedmac_repo,
                    arplog_repo,
                    &arp_frame,
                    now,
                ),
                Err(e) => Err(e),
            }
        } else {
            Ok(None)
        }
    }

    /// Handles an ARP packet that has been read. Only requests are looked
    /// at.
    pub fn handle_arp<C: ConfigRepository, M: AllowedMacRepository, A: ArpLogRepository>(
        &self,
        config_repo: &C,
        allowedmac_repo: &M,
        arplog_repo: &mut A,
        frame: &ArpView,
        now: u64,
    ) -> (r: Result<Option<([u8; 42], [u8; 42])>, NetworkError>)
        requires
            allowedmac_repo.well_formed(),
            old(arplog_repo).well_formed(),
        ensures
            final(arplog_repo).well_formed(),
            final(arplog_repo).infallible() == old(arplog_repo).infallible(),
            arp_handled(
                r,
                self.packet_sender.local_mac,
                *frame,
                now,
                config_repo.config().arp_proxy.proxy_allowed_macs,
                allowedmac_repo.macs(),
                allowedmac_repo.infallible() && old(arplog_repo).infallible(),
                old(arplog_repo).records(),
                final(arplog_repo).records(),
            ),
    {
        if frame.operation == ARP_REQUEST {
            let arplog = ArpLog {
                sender_mac: frame.sender_hw_addr,
                sender_ip: frame.sender_proto_addr,
                target_ip: frame.target_proto_addr,
                last_seen: now,
            };
            let proxy_config = config_repo.get_config().arp_proxy;
            let sender_allowed = if proxy_config.proxy_allowed_macs {
                false
            } else {
                match allowedmac_repo.contains(&arplog.sender_mac) {
                    Ok(found) => found,
                    Err(e) => {
                        return Err(NetworkError::StoreError(e));
                    },
                }
            };
            if proxy_decision(proxy_config.proxy_allowed_macs, sender_allowed) {
                match arplog_repo.put(arplog) {
                    Ok(()) => {},
                    Err(e) => {
                        return Err(NetworkError::StoreError(e));
                    },
                }
                Ok(Some(self.packet_sender.construct_proxyarp_frames(arplog)))
            } else {
                Ok(None)
            }
        } else {
            Ok(None)
        }
    }
}

} // verus!
