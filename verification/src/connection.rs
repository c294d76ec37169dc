//! One connection as a whole: what each endpoint receives from the first byte
//! of the client to the end of the relay.

use vstd::prelude::*;
use crate::address::SocketAddress;
use crate::header::ProxyHeaderV1View;
use crate::header::SIGNATURE_LEN;
use crate::negotiator::{
    client_payload, lemma_one_header_line, lemma_written_header_is_read_back, negotiation,
    MAX_LINE_SCAN,
};
use crate::relay::{delivered, lemma_payload_is_relayed, orderly, received, RelayEventView, Side};

verus! {

/// All that the target is written on a connection: what the client's first
/// bytes were answered with, then what the relay carried to the target.
pub open spec fn target_stream(
    stream: Seq<u8>,
    local: SocketAddress,
    target: SocketAddress,
    events: Seq<RelayEventView>,
) -> Seq<u8>
    recommends
        negotiation(stream, local, target) is Ok,
{
    negotiation(stream, local, target)->Ok_0.0 + delivered(events, Side::Target)
}

/// The relay starts where the header ended: what it reads from the client is
/// what the client sent behind the bytes that the header used up.
pub open spec fn relay_follows_header(
    stream: Seq<u8>,
    local: SocketAddress,
    target: SocketAddress,
    events: Seq<RelayEventView>,
) -> bool {
    &&& negotiation(stream, local, target) is Ok
    &&& orderly(events)
    &&& received(events, Side::Client) == stream.skip(negotiation(stream, local, target)->Ok_0.1)
}

/// The target receives one header line that names it as destination, and
/// then the payload of the client: all of it, in order, and nothing else.
pub proof fn lemma_target_receives_header_and_payload(
    stream: Seq<u8>,
    local: SocketAddress,
    target: SocketAddress,
    events: Seq<RelayEventView>,
)
    requires
        relay_follows_header(stream, local, target, events),
    ensures
        exists|header: ProxyHeaderV1View|
            #![auto]
            {
                &&& target_stream(stream, local, target, events) == header.line() + client_payload(
                    stream,
                )
                &&& header.dest_ip == target.ip_text_spec()
                &&& header.dest_port == target.port_text_spec()
            },
{
    lemma_one_header_line(stream, local, target);
    lemma_payload_is_relayed(events, Side::Client);
}

/// A client that sends a header line of plain fields and then `rest`: the
/// target receives the line with the same source, byte for byte, and with
/// itself as destination, and then `rest`, all of it, in order, and nothing
/// else.
pub proof fn lemma_target_receives_rewritten_header_and_payload(
    header: ProxyHeaderV1View,
    rest: Seq<u8>,
    local: SocketAddress,
    target: SocketAddress,
    events: Seq<RelayEventView>,
)
    requires
        header.is_plain(),
        header.family == target.family_spec(),
        header.line().len() <= SIGNATURE_LEN + MAX_LINE_SCAN,
        orderly(events),
        received(events, Side::Client) == rest,
    ensures
        negotiation(header.line() + rest, local, target) is Ok,
        target_stream(header.line() + rest, local, target, events) == header.retargeted(
            target,
        ).line() + rest,
{
    lemma_written_header_is_read_back(header, rest, local, target);
    lemma_payload_is_relayed(events, Side::Client);
}

/// The client receives what the target sends: all of it, in order, and
/// nothing else.
pub proof fn lemma_client_receives_answer(events: Seq<RelayEventView>)
    requires
        orderly(events),
    ensures
        delivered(events, Side::Client) == received(events, Side::Target),
{
    lemma_payload_is_relayed(events, Side::Target);
}

} // verus!
