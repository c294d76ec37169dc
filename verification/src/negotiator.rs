//! What a freshly accepted connection is answered with: the header line that
//! the target is sent before any payload.
//!
//! The first five bytes of a client decide. Where they are not the signature
//! of a header line, the client sent none: the target is sent a header made
//! for the connection, and then those five bytes, which are payload. Where
//! they are the signature, the rest of the line is read byte by byte up to
//! its line feed, and the target is sent a header with the same source and
//! with itself as destination.
//!
//! A header line, counted from the byte after the signature up to and
//! including its line feed, is at most 103 bytes long. With the signature
//! that admits every line up to the protocol's own limit of 107 bytes.

use vstd::prelude::*;
use vstd::string::StringExecFns;
use crate::address::{lemma_ipv4_text_bytes, Family, IpAddress, SocketAddress};
use crate::error::{Error, ErrorView};
use crate::fields::{fields, is_blank, trimmed};
use crate::header::{
    has_solid_byte, is_plain_field, lemma_body_is_read_back, lemma_line_shape, signature,
    token_mismatch,
    ProxyHeaderV1, ProxyHeaderV1View, LINE_FEED, SIGNATURE_LEN,
};
use crate::text::{
    bytes_equal, is_ascii_bytes, is_decimal_digit, lemma_decimal_digits, lemma_decimal_len,
    push_bytes,
};

verus! {

/// The number of bytes after the signature among which the line feed of a
/// header line has to be found.
pub const MAX_LINE_SCAN: usize = 103;

/// The cause reported for a header line whose line feed does not come in time.
pub open spec fn too_long_cause() -> Seq<char> {
    "the header line is too long"@
}

/// The cause reported for a stream that ends before its header is complete.
pub open spec fn truncated_cause() -> Seq<char> {
    "the stream ended before the header was complete"@
}

/// What the target is sent where the client sent no header: the header made
/// for the connection, then the five bytes that were read to find that out.
pub open spec fn plain_outcome(prefix: Seq<u8>, local: SocketAddress, target: SocketAddress) -> Result<
    Seq<u8>,
    ErrorView,
> {
    if local.family_spec() != target.family_spec() {
        Err(ErrorView::FamilyMix)
    } else {
        Ok(ProxyHeaderV1::synthesized_spec(local, target).line() + prefix)
    }
}

/// What the target is sent where the client sent the header `line` (what
/// followed the signature, without the line feed): the rewritten header and
/// nothing else.
pub open spec fn header_outcome(line: Seq<u8>, target: SocketAddress) -> Result<
    Seq<u8>,
    ErrorView,
> {
    match ProxyHeaderV1::rewritten_spec(line, target) {
        Ok(header) => Ok(header.line()),
        Err(error) => Err(error),
    }
}

/// What follows from the bytes read so far.
#[derive(Debug)]
pub enum Step {
    /// The header line is not complete: one more byte is needed.
    Continue(LineScanner),
    /// These bytes are to be sent to the target before any payload.
    Ready(Vec<u8>),
    /// The connection is to be given up.
    Rejected(Error),
}

impl Step {
    /// The step hands on the outcome `outcome`.
    pub open spec fn settles(self, outcome: Result<Seq<u8>, ErrorView>) -> bool {
        match outcome {
            Ok(bytes) => self matches Step::Ready(sent) && sent@ == bytes,
            Err(error) => self matches Step::Rejected(raised) && raised@ == error,
        }
    }
}

/// The part of a header line that has been read so far, after the signature.
#[derive(Debug)]
pub struct LineScanner {
    target: SocketAddress,
    line: Vec<u8>,
}

impl LineScanner {
    #[verifier::type_invariant]
    spec fn within_limit(self) -> bool {
        self.line@.len() < MAX_LINE_SCAN
    }

    /// The bytes read so far.
    pub closed spec fn scanned(self) -> Seq<u8> {
        self.line@
    }

    /// The target that the new header names as destination.
    pub closed spec fn target(self) -> SocketAddress {
        self.target
    }

    /// Takes the next byte of the line.
    ///
    /// A line feed completes the line: the step is the outcome of the line
    /// read before it. Any other byte is added to the line; where that makes
    /// as many bytes as the limit allows, the line is too long.
    pub fn push(self, byte: u8) -> (step: Step)
        ensures
            byte == LINE_FEED ==> step.settles(header_outcome(self.scanned(), self.target())),
            byte != LINE_FEED && self.scanned().len() + 1 >= MAX_LINE_SCAN ==> step.settles(
                Err(ErrorView::ProxyHeaderFailed { cause: too_long_cause() }),
            ),
            byte != LINE_FEED && self.scanned().len() + 1 < MAX_LINE_SCAN ==> (step matches Step::Continue(
                next,
            ) && next.scanned() == self.scanned().push(byte) && next.target() == self.target()),
    {
        proof {
            use_type_invariant(&self);
        }
        if byte == LINE_FEED {
            match ProxyHeaderV1::rewritten(self.line.as_slice(), &self.target) {
                Ok(header) => Step::Ready(header.serialize()),
                Err(error) => Step::Rejected(error),
            }
        } else if self.line.len() + 1 >= MAX_LINE_SCAN {
            Step::Rejected(
                Error::ProxyHeaderFailed { cause: String::from_str("the header line is too long") },
            )
        } else {
            let mut line = self.line;
            line.push(byte);
            Step::Continue(LineScanner { target: self.target, line })
        }
    }
}

/// Decides on the first five bytes of a client.
///
/// Where they are not the signature of a header line, the step is the outcome
/// for a client without a header. Where they are, the line is to be read.
pub fn sniff(prefix: &[u8; 5], local: &SocketAddress, target: &SocketAddress) -> (step: Step)
    ensures
        prefix@ != signature() ==> step.settles(plain_outcome(prefix@, *local, *target)),
        prefix@ == signature() ==> (step matches Step::Continue(scanner) && scanner.scanned()
            == Seq::<u8>::empty() && scanner.target() == *target),
{
    let mark: [u8; 5] = [80u8, 82u8, 79u8, 88u8, 89u8];
    assert(mark@ =~= signature());
    if bytes_equal(prefix.as_slice(), mark.as_slice()) {
        Step::Continue(LineScanner { target: *target, line: Vec::new() })
    } else {
        match ProxyHeaderV1::synthesized(local, target) {
            Ok(header) => {
                let mut bytes = header.serialize();
                push_bytes(&mut bytes, prefix.as_slice());
                Step::Ready(bytes)
            },
            Err(error) => Step::Rejected(error),
        }
    }
}

/// The first line feed of `rest` stands at `k`, within the limit.
pub open spec fn is_line_end(rest: Seq<u8>, k: int) -> bool {
    &&& 0 <= k < rest.len()
    &&& k < MAX_LINE_SCAN
    &&& rest[k] == LINE_FEED
    &&& forall|j: int| 0 <= j < k ==> rest[j] != LINE_FEED
}

/// What a whole stream leads to.
///
/// `stream` is what the client sends until it closes. The result is what the
/// target is sent first, and how many bytes of the stream were used up for
/// it; the bytes behind them are payload. A stream that ends within its
/// first five bytes or within its header line is given up, and so is one
/// whose header line is too long.
pub open spec fn negotiation(stream: Seq<u8>, local: SocketAddress, target: SocketAddress) -> Result<
    (Seq<u8>, int),
    ErrorView,
> {
    let prefix = stream.subrange(0, SIGNATURE_LEN as int);
    let rest = stream.skip(SIGNATURE_LEN as int);
    if stream.len() < SIGNATURE_LEN {
        Err(ErrorView::ProxyHeaderFailed { cause: truncated_cause() })
    } else if prefix != signature() {
        match plain_outcome(prefix, local, target) {
            Ok(bytes) => Ok((bytes, SIGNATURE_LEN as int)),
            Err(error) => Err(error),
        }
    } else if exists|k: int| is_line_end(rest, k) {
        let k = choose|k: int| is_line_end(rest, k);
        match header_outcome(rest.subrange(0, k), target) {
            Ok(bytes) => Ok((bytes, SIGNATURE_LEN + k + 1)),
            Err(error) => Err(error),
        }
    } else if rest.len() >= MAX_LINE_SCAN {
        Err(ErrorView::ProxyHeaderFailed { cause: too_long_cause() })
    } else {
        Err(ErrorView::ProxyHeaderFailed { cause: truncated_cause() })
    }
}

/// What a connection starts with: the bytes that the target is sent first,
/// and the number of bytes of the client's stream that they stand for.
#[derive(Debug, PartialEq, Eq)]
pub struct Negotiated {
    pub to_target: Vec<u8>,
    pub consumed: usize,
}

/// Reads the start of a stream and decides what the target is sent first.
pub fn negotiate(stream: &[u8], local: &SocketAddress, target: &SocketAddress) -> (made: Result<
    Negotiated,
    Error,
>)
    ensures
        match negotiation(stream@, *local, *target) {
            Ok((bytes, used)) => made is Ok && made->Ok_0.to_target@ == bytes
                && made->Ok_0.consumed == used,
            Err(error) => made is Err && made->Err_0@ == error,
        },
{
    if stream.len() < SIGNATURE_LEN {
        return Err(
            Error::ProxyHeaderFailed {
                cause: String::from_str("the stream ended before the header was complete"),
            },
        );
    }
    let prefix: [u8; 5] = [stream[0], stream[1], stream[2], stream[3], stream[4]];
    assert(prefix@ =~= stream@.subrange(0, SIGNATURE_LEN as int));
    let ghost rest = stream@.skip(SIGNATURE_LEN as int);
    match sniff(&prefix, local, target) {
        Step::Ready(bytes) => Ok(Negotiated { to_target: bytes, consumed: SIGNATURE_LEN }),
        Step::Rejected(error) => Err(error),
        Step::Continue(first) => {
            let mut scanner = first;
            let mut i: usize = SIGNATURE_LEN;
            while i < stream.len()
                invariant
                    SIGNATURE_LEN <= i <= stream.len(),
                    i - SIGNATURE_LEN < MAX_LINE_SCAN,
                    rest == stream@.skip(SIGNATURE_LEN as int),
                    stream@.subrange(0, SIGNATURE_LEN as int) == signature(),
                    scanner.scanned() == rest.subrange(0, i - SIGNATURE_LEN),
                    scanner.target() == *target,
                    forall|j: int| 0 <= j < i - SIGNATURE_LEN ==> rest[j] != LINE_FEED,
                decreases stream.len() - i,
            {
                let byte = stream[i];
                let ghost k = i - SIGNATURE_LEN;
                assert(rest[k] == byte);
                match scanner.push(byte) {
                    Step::Continue(next) => {
                        assert(rest.subrange(0, k + 1) =~= rest.subrange(0, k).push(byte));
                        scanner = next;
                        i += 1;
                    },
                    Step::Ready(bytes) => {
                        proof {
                            assert(is_line_end(rest, k));
                            let chosen = choose|c: int| is_line_end(rest, c);
                            assert(chosen == k);
                        }
                        return Ok(Negotiated { to_target: bytes, consumed: i + 1 });
                    },
                    Step::Rejected(error) => {
                        proof {
                            if byte == LINE_FEED {
                                assert(is_line_end(rest, k));
                                let chosen = choose|c: int| is_line_end(rest, c);
                                assert(chosen == k);
                            } else {
                                assert(k + 1 == MAX_LINE_SCAN);
                                assert forall|c: int| !is_line_end(rest, c) by {
                                    if is_line_end(rest, c) {
                                        assert(rest[c] == LINE_FEED);
                                        assert(c <= k);
                                    }
                                }
                            }
                        }
                        return Err(error);
                    },
                }
            }
            proof {
                assert forall|c: int| !is_line_end(rest, c) by {
                    if is_line_end(rest, c) {
                        assert(rest[c] == LINE_FEED);
                    }
                }
            }
            Err(
                Error::ProxyHeaderFailed {
                    cause: String::from_str("the stream ended before the header was complete"),
                },
            )
        },
    }
}

/// A client whose header names one family is not forwarded to a target of
/// the other: the connection is given up for the mix of families, and the
/// target is sent nothing.
///
/// This holds of every header line of ASCII text, whatever stands behind its
/// protocol token.
pub proof fn lemma_family_mix_is_refused(
    stream: Seq<u8>,
    local: SocketAddress,
    target: SocketAddress,
    k: int,
)
    requires
        stream.len() >= SIGNATURE_LEN,
        stream.subrange(0, SIGNATURE_LEN as int) == signature(),
        is_line_end(stream.skip(SIGNATURE_LEN as int), k),
        is_ascii_bytes(stream.skip(SIGNATURE_LEN as int).subrange(0, k)),
        token_mismatch(
            fields(trimmed(stream.skip(SIGNATURE_LEN as int).subrange(0, k)))[0],
            target,
        ),
    ensures
        negotiation(stream, local, target) == Err::<(Seq<u8>, int), ErrorView>(
            ErrorView::FamilyMix,
        ),
{
    let rest = stream.skip(SIGNATURE_LEN as int);
    let chosen = choose|c: int| is_line_end(rest, c);
    assert(chosen == k);
}

/// The header that a forwarder writes is one that the next forwarder reads.
///
/// A header line of plain fields, within the limit of length and of the
/// family of the next target, is taken for a header: the next target is sent
/// the same source, byte for byte, with itself as destination, and the
/// payload begins right behind the line. A field is plain where it is ASCII
/// text without a space or a line feed, and the last field has to be more
/// than blanks; of any other line this does not hold.
pub proof fn lemma_written_header_is_read_back(
    header: ProxyHeaderV1View,
    payload: Seq<u8>,
    local: SocketAddress,
    target: SocketAddress,
)
    requires
        header.is_plain(),
        header.family == target.family_spec(),
        header.line().len() <= SIGNATURE_LEN + MAX_LINE_SCAN,
    ensures
        negotiation(header.line() + payload, local, target) == Ok::<(Seq<u8>, int), ErrorView>(
            (header.retargeted(target).line(), header.line().len() as int),
        ),
{
    let line = header.line();
    let stream = line + payload;
    let rest = stream.skip(SIGNATURE_LEN as int);
    let k = line.len() - SIGNATURE_LEN - 1;
    lemma_line_shape(header);
    lemma_body_is_read_back(header, target);
    assert(stream.subrange(0, SIGNATURE_LEN as int) =~= signature());
    assert(rest.subrange(0, k) =~= header.body());
    assert(rest[k] == LINE_FEED);
    assert(is_line_end(rest, k)) by {
        assert forall|j: int| 0 <= j < k implies rest[j] != LINE_FEED by {
            assert(rest[j] == header.body()[j]);
        }
    }
    let chosen = choose|c: int| is_line_end(rest, c);
    assert(chosen == k);
}

/// Forwarders may stand in a row. The header that one of them makes for a
/// client that sent none is read by the next one, which keeps the source and
/// names its own target. This holds between IPv4 addresses, the family
/// whose protocol token such a header carries.
pub proof fn lemma_synthesized_header_is_read_back(
    local: SocketAddress,
    target: SocketAddress,
    payload: Seq<u8>,
    next_local: SocketAddress,
    next_target: SocketAddress,
)
    requires
        local.family_spec() == Family::V4,
        target.family_spec() == Family::V4,
        next_target.family_spec() == Family::V4,
    ensures
        ({
            let header = ProxyHeaderV1::synthesized_spec(local, target);
            negotiation(header.line() + payload, next_local, next_target) == Ok::<
                (Seq<u8>, int),
                ErrorView,
            >((header.retargeted(next_target).line(), header.line().len() as int))
        }),
{
    let header = ProxyHeaderV1::synthesized_spec(local, target);
    lemma_address_fields(local);
    lemma_address_fields(target);
    lemma_written_header_is_read_back(header, payload, next_local, next_target);
}

/// The texts of an IPv4 address are plain fields of bounded length.
proof fn lemma_address_fields(address: SocketAddress)
    requires
        address.family_spec() == Family::V4,
    ensures
        is_plain_field(address.ip_text_spec()),
        is_plain_field(address.port_text_spec()),
        has_solid_byte(address.port_text_spec()),
        address.ip_text_spec().len() <= 15,
        1 <= address.port_text_spec().len() <= 5,
{
    match address.ip {
        IpAddress::V4(octets) => {
            lemma_ipv4_text_bytes(octets@);
        },
        IpAddress::V6(_) => {},
    }
    lemma_decimal_digits(address.port as nat);
    lemma_decimal_len(address.port as nat);
    assert forall|i: int| 0 <= i < address.port_text_spec().len() implies is_decimal_digit(
        #[trigger] address.port_text_spec()[i],
    ) by {}
    assert(!is_blank(address.port_text_spec()[0]));
}

/// The payload of a stream: all of it where the client sent no header, and
/// what stands behind the header line where it sent one.
pub open spec fn client_payload(stream: Seq<u8>) -> Seq<u8> {
    let rest = stream.skip(SIGNATURE_LEN as int);
    if stream.subrange(0, SIGNATURE_LEN as int) != signature() {
        stream
    } else {
        let k = choose|k: int| is_line_end(rest, k);
        rest.skip(k + 1)
    }
}

/// Whatever a connection starts with, the target is sent exactly one header
/// line and then the payload of the client: the bytes sent first, followed
/// by the bytes of the stream that were not used up, are a header line with
/// the target as destination, followed by the payload.
pub proof fn lemma_one_header_line(stream: Seq<u8>, local: SocketAddress, target: SocketAddress)
    requires
        negotiation(stream, local, target) is Ok,
    ensures
        ({
            let (bytes, used) = negotiation(stream, local, target)->Ok_0;
            &&& SIGNATURE_LEN <= used <= stream.len()
            &&& exists|header: ProxyHeaderV1View|
                #![auto]
                {
                    &&& bytes + stream.skip(used) == header.line() + client_payload(stream)
                    &&& header.dest_ip == target.ip_text_spec()
                    &&& header.dest_port == target.port_text_spec()
                }
        }),
{
    let prefix = stream.subrange(0, SIGNATURE_LEN as int);
    let rest = stream.skip(SIGNATURE_LEN as int);
    let (bytes, used) = negotiation(stream, local, target)->Ok_0;
    if prefix != signature() {
        let header = ProxyHeaderV1::synthesized_spec(local, target);
        assert(prefix + stream.skip(SIGNATURE_LEN as int) =~= stream);
        assert(bytes + stream.skip(used) =~= header.line() + client_payload(stream));
    } else {
        let k = choose|k: int| is_line_end(rest, k);
        let header = ProxyHeaderV1::rewritten_spec(rest.subrange(0, k), target)->Ok_0;
        assert(stream.skip(used) =~= rest.skip(k + 1));
        assert(bytes + stream.skip(used) =~= header.line() + client_payload(stream));
    }
}

/// The error of a connection whose header could not be read: the client
/// closed the connection, or reading from it failed, before the header was
/// complete. `cause` says what happened.
pub fn read_failure(cause: String) -> (error: Error)
    ensures
        error@ == (ErrorView::ProxyHeaderFailed { cause: cause@ }),
{
    Error::ProxyHeaderFailed { cause }
}

} // verus!
