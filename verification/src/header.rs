//! The header line of the PROXY protocol, version 1: how it is written, and
//! how a line that a client sent is taken apart.

use vstd::prelude::*;
use crate::address::{Family, SocketAddress};
use crate::error::{Error, ErrorView};
use crate::fields::{
    all_blank, fields, has_no_space, has_solid_ends, is_blank, joined, lemma_fields_len,
    lemma_fields_of_joined, lemma_joined_bytes, lemma_trimmed_end_shape, lemma_trimmed_of_padded,
    split_fields, texts, trim, trimmed, trimmed_end, SPACE,
};
use crate::text::{all_ascii, bytes_equal, is_ascii_bytes, push_bytes};
use vstd::string::StringExecFns;

verus! {

/// The byte that ends a line.
pub const LINE_FEED: u8 = 10;

/// The byte that stands before the line feed of a header line.
pub const CARRIAGE_RETURN: u8 = 13;

/// The length of the signature that opens a header line.
pub const SIGNATURE_LEN: usize = 5;

/// The signature that opens a header line: `PROXY`.
pub open spec fn signature() -> Seq<u8> {
    seq![80u8, 82u8, 79u8, 88u8, 89u8]
}

/// The protocol token of IPv4: `TCP4`.
pub open spec fn tcp4_token() -> Seq<u8> {
    seq![84u8, 67u8, 80u8, 52u8]
}

/// The protocol token of IPv6: `TCP6`.
pub open spec fn tcp6_token() -> Seq<u8> {
    seq![84u8, 67u8, 80u8, 54u8]
}

/// The protocol token that stands for a family.
pub open spec fn family_token(family: Family) -> Seq<u8> {
    match family {
        Family::V4 => tcp4_token(),
        Family::V6 => tcp6_token(),
    }
}

/// The header line with the given fields: the signature, the protocol token
/// and the four address fields, one space between neighbours, closed by a
/// carriage return and a line feed.
pub open spec fn header_line(
    family: Family,
    source_ip: Seq<u8>,
    dest_ip: Seq<u8>,
    source_port: Seq<u8>,
    dest_port: Seq<u8>,
) -> Seq<u8> {
    signature() + seq![SPACE] + family_token(family) + seq![SPACE] + source_ip + seq![SPACE]
        + dest_ip + seq![SPACE] + source_port + seq![SPACE] + dest_port + seq![
        CARRIAGE_RETURN,
        LINE_FEED,
    ]
}

/// A header line to be written: the family and the four address fields as
/// they appear in the text.
#[derive(Clone, Debug, PartialEq, Eq)]
pub struct ProxyHeaderV1 {
    pub family: Family,
    pub source_ip: Vec<u8>,
    pub dest_ip: Vec<u8>,
    pub source_port: Vec<u8>,
    pub dest_port: Vec<u8>,
}

/// A header line with the bytes of its fields.
pub struct ProxyHeaderV1View {
    pub family: Family,
    pub source_ip: Seq<u8>,
    pub dest_ip: Seq<u8>,
    pub source_port: Seq<u8>,
    pub dest_port: Seq<u8>,
}

impl ProxyHeaderV1View {
    /// The line that the header is written as.
    pub open spec fn line(self) -> Seq<u8> {
        header_line(self.family, self.source_ip, self.dest_ip, self.source_port, self.dest_port)
    }
}

impl View for ProxyHeaderV1 {
    type V = ProxyHeaderV1View;

    open spec fn view(&self) -> ProxyHeaderV1View {
        ProxyHeaderV1View {
            family: self.family,
            source_ip: self.source_ip@,
            dest_ip: self.dest_ip@,
            source_port: self.source_port@,
            dest_port: self.dest_port@,
        }
    }
}

impl ProxyHeaderV1 {
    /// The line that the header is written as.
    pub fn serialize(&self) -> (line: Vec<u8>)
        ensures
            line@ == self@.line(),
    {
        let mut line: Vec<u8> = Vec::new();
        line.push(80u8);
        line.push(82u8);
        line.push(79u8);
        line.push(88u8);
        line.push(89u8);
        line.push(SPACE);
        line.push(84u8);
        line.push(67u8);
        line.push(80u8);
        match self.family {
            Family::V4 => line.push(52u8),
            Family::V6 => line.push(54u8),
        }
        line.push(SPACE);
        push_bytes(&mut line, self.source_ip.as_slice());
        line.push(SPACE);
        push_bytes(&mut line, self.dest_ip.as_slice());
        line.push(SPACE);
        push_bytes(&mut line, self.source_port.as_slice());
        line.push(SPACE);
        push_bytes(&mut line, self.dest_port.as_slice());
        line.push(CARRIAGE_RETURN);
        line.push(LINE_FEED);
        assert(line@ =~= self@.line());
        line
    }

    /// The header of a connection whose client sent none: the source is the
    /// local address that the client reached, the destination is the target,
    /// and the protocol token is `TCP4`.
    pub open spec fn synthesized_spec(
        local: SocketAddress,
        target: SocketAddress,
    ) -> ProxyHeaderV1View {
        ProxyHeaderV1View {
            family: Family::V4,
            source_ip: local.ip_text_spec(),
            dest_ip: target.ip_text_spec(),
            source_port: local.port_text_spec(),
            dest_port: target.port_text_spec(),
        }
    }

    /// Builds the header of a connection whose client sent none. The local
    /// address and the target have to be of one family.
    pub fn synthesized(local: &SocketAddress, target: &SocketAddress) -> (made: Result<
        ProxyHeaderV1,
        Error,
    >)
        ensures
            local.family_spec() != target.family_spec() ==> made is Err && made->Err_0@
                == ErrorView::FamilyMix,
            local.family_spec() == target.family_spec() ==> made is Ok && made->Ok_0@
                == Self::synthesized_spec(*local, *target),
    {
        if local.is_ipv4() != target.is_ipv4() {
            return Err(Error::FamilyMix);
        }
        Ok(
            ProxyHeaderV1 {
                family: Family::V4,
                source_ip: local.ip_text(),
                dest_ip: target.ip_text(),
                source_port: local.port_text(),
                dest_port: target.port_text(),
            },
        )
    }
}

/// The cause reported for a header line that holds a byte outside ASCII.
pub open spec fn not_ascii_cause() -> Seq<char> {
    "the header line is not ASCII text"@
}

/// The cause reported for a header line that does not have five fields.
pub open spec fn malformed_cause() -> Seq<char> {
    "the header line does not have five fields"@
}

/// The protocol token names a family other than that of the target.
pub open spec fn token_mismatch(token: Seq<u8>, target: SocketAddress) -> bool {
    ||| (token == tcp4_token() && target.family_spec() != Family::V4)
    ||| (token == tcp6_token() && target.family_spec() != Family::V6)
}

impl ProxyHeaderV1 {
    /// The header that replaces the one a client sent. `line` is what
    /// followed the signature, up to the line feed and without it.
    ///
    /// The line has to be ASCII text. Without the blanks at its ends it is
    /// split at its spaces into the protocol token, the source address, the
    /// destination address, the source port and the destination port. A token
    /// `TCP4` or `TCP6` has to name the family of the target. The new header
    /// keeps the source address and the source port as they were sent, and has
    /// the target as its destination; its protocol token is `TCP4`.
    pub open spec fn rewritten_spec(line: Seq<u8>, target: SocketAddress) -> Result<
        ProxyHeaderV1View,
        ErrorView,
    > {
        let parts = fields(trimmed(line));
        if !is_ascii_bytes(line) {
            Err(ErrorView::ProxyHeaderFailed { cause: not_ascii_cause() })
        } else if token_mismatch(parts[0], target) {
            Err(ErrorView::FamilyMix)
        } else if parts.len() != 5 {
            Err(ErrorView::ProxyHeaderFailed { cause: malformed_cause() })
        } else {
            Ok(
                ProxyHeaderV1View {
                    family: Family::V4,
                    source_ip: parts[1],
                    dest_ip: target.ip_text_spec(),
                    source_port: parts[3],
                    dest_port: target.port_text_spec(),
                },
            )
        }
    }

    /// Builds the header that replaces the one a client sent.
    pub fn rewritten(line: &[u8], target: &SocketAddress) -> (made: Result<ProxyHeaderV1, Error>)
        ensures
            match Self::rewritten_spec(line@, *target) {
                Ok(header) => made is Ok && made->Ok_0@ == header,
                Err(error) => made is Err && made->Err_0@ == error,
            },
    {
        if !all_ascii(line) {
            return Err(
                Error::ProxyHeaderFailed {
                    cause: String::from_str("the header line is not ASCII text"),
                },
            );
        }
        let parts = split_fields(trim(line));
        proof {
            lemma_fields_len(trimmed(line@));
            assert(texts(parts@)[0] == parts@[0]@);
        }
        let tcp4: [u8; 4] = [84u8, 67u8, 80u8, 52u8];
        let tcp6: [u8; 4] = [84u8, 67u8, 80u8, 54u8];
        assert(tcp4@ =~= tcp4_token());
        assert(tcp6@ =~= tcp6_token());
        let token = parts[0].as_slice();
        if (bytes_equal(token, tcp4.as_slice()) && !target.is_ipv4()) || (bytes_equal(
            token,
            tcp6.as_slice(),
        ) && !target.is_ipv6()) {
            return Err(Error::FamilyMix);
        }
        if parts.len() != 5 {
            return Err(
                Error::ProxyHeaderFailed {
                    cause: String::from_str("the header line does not have five fields"),
                },
            );
        }
        proof {
            assert(texts(parts@)[1] == parts@[1]@);
            assert(texts(parts@)[3] == parts@[3]@);
        }
        Ok(
            ProxyHeaderV1 {
                family: Family::V4,
                source_ip: vstd::slice::slice_to_vec(parts[1].as_slice()),
                dest_ip: target.ip_text(),
                source_port: vstd::slice::slice_to_vec(parts[3].as_slice()),
                dest_port: target.port_text(),
            },
        )
    }
}

/// A field that a header line can carry: ASCII text with neither a space,
/// which would part it in two, nor a line feed, which would end the line.
pub open spec fn is_plain_field(field: Seq<u8>) -> bool {
    forall|i: int|
        0 <= i < field.len() ==> (#[trigger] field[i]) < 128 && field[i] != SPACE && field[i]
            != LINE_FEED
}

/// The text holds a byte that is not a blank.
pub open spec fn has_solid_byte(text: Seq<u8>) -> bool {
    exists|i: int| 0 <= i < text.len() && !is_blank(#[trigger] text[i])
}

impl ProxyHeaderV1View {
    /// The five fields of the line.
    pub open spec fn fields(self) -> Seq<Seq<u8>> {
        seq![
            family_token(self.family),
            self.source_ip,
            self.dest_ip,
            self.source_port,
            self.dest_port,
        ]
    }

    /// What the line holds between its signature and its line feed.
    pub open spec fn body(self) -> Seq<u8> {
        seq![SPACE] + joined(self.fields()) + seq![CARRIAGE_RETURN]
    }

    /// The fields of the header are plain, and the last of them is more
    /// than blanks. These are the headers whose line is read as it was
    /// written: a last field of nothing but blanks is trimmed away with the
    /// end of the line, and leaves four fields.
    pub open spec fn is_plain(self) -> bool {
        &&& is_plain_field(self.source_ip)
        &&& is_plain_field(self.dest_ip)
        &&& is_plain_field(self.source_port)
        &&& is_plain_field(self.dest_port)
        &&& has_solid_byte(self.dest_port)
    }

    /// The header with another last field.
    pub open spec fn with_dest_port(self, dest_port: Seq<u8>) -> ProxyHeaderV1View {
        ProxyHeaderV1View {
            family: self.family,
            source_ip: self.source_ip,
            dest_ip: self.dest_ip,
            source_port: self.source_port,
            dest_port,
        }
    }

    /// The header that a forwarder to `target` makes of this one.
    pub open spec fn retargeted(self, target: SocketAddress) -> ProxyHeaderV1View {
        ProxyHeaderV1View {
            family: Family::V4,
            source_ip: self.source_ip,
            dest_ip: target.ip_text_spec(),
            source_port: self.source_port,
            dest_port: target.port_text_spec(),
        }
    }
}

/// The five fields in a row, as `joined` puts them.
proof fn lemma_row_of_five(header: ProxyHeaderV1View)
    ensures
        joined(header.fields()) == family_token(header.family) + seq![SPACE] + header.source_ip
            + seq![SPACE] + header.dest_ip + seq![SPACE] + header.source_port + seq![SPACE]
            + header.dest_port,
{
    let parts = header.fields();
    let four = parts.drop_last();
    let three = four.drop_last();
    let two = three.drop_last();
    let one = two.drop_last();
    assert(joined(one) == family_token(header.family));
    assert(joined(two) == joined(one) + seq![SPACE] + header.source_ip);
    assert(joined(three) == joined(two) + seq![SPACE] + header.dest_ip);
    assert(joined(four) == joined(three) + seq![SPACE] + header.source_port);
    assert(joined(parts) == joined(four) + seq![SPACE] + header.dest_port);
}

/// A header line is its signature, its body and a line feed.
pub proof fn lemma_line_shape(header: ProxyHeaderV1View)
    ensures
        header.line() == signature() + header.body() + seq![LINE_FEED],
        header.line().len() == SIGNATURE_LEN + header.body().len() + 1,
{
    lemma_row_of_five(header);
    assert(header.line() =~= signature() + header.body() + seq![LINE_FEED]);
}

/// The body of a header line of plain fields is ASCII text without a line
/// feed, and its fields are read back as they were written, the last of them
/// without the blanks at its end.
pub proof fn lemma_body_fields(header: ProxyHeaderV1View)
    requires
        header.is_plain(),
    ensures
        is_ascii_bytes(header.body()),
        forall|i: int| 0 <= i < header.body().len() ==> #[trigger] header.body()[i] != LINE_FEED,
        fields(trimmed(header.body())) == header.with_dest_port(
            trimmed_end(header.dest_port),
        ).fields(),
{
    let parts = header.fields();
    let token = family_token(header.family);
    let body = header.body();
    let plain = |b: u8| b < 128 && b != LINE_FEED;
    assert forall|i: int, j: int| 0 <= i < parts.len() && 0 <= j < parts[i].len() implies plain(
        #[trigger] parts[i][j],
    ) by {
        if i == 0 {
            assert(token[j] < 128 && token[j] != LINE_FEED);
        }
    }
    lemma_joined_bytes(parts, plain);
    assert forall|i: int| 0 <= i < body.len() implies #[trigger] body[i] < 128 && body[i]
        != LINE_FEED by {
        if 1 <= i <= joined(parts).len() {
            assert(body[i] == joined(parts)[i - 1]);
            assert(plain(joined(parts)[i - 1]));
        }
    }

    // The last field without the blanks at its end, and those blanks.
    let port = header.dest_port;
    let kept = trimmed_end(port);
    lemma_trimmed_end_shape(port);
    let tail = choose|trail: Seq<u8>|
        #![auto]
        port == kept + trail && all_blank(trail);
    assert(kept.len() > 0) by {
        let i = choose|i: int| 0 <= i < port.len() && !is_blank(#[trigger] port[i]);
        if kept.len() == 0 {
            assert(port =~= tail);
            assert(is_blank(tail[i]));
        }
    }
    let short = header.with_dest_port(kept);
    let inner = joined(short.fields());
    let trail = tail + seq![CARRIAGE_RETURN];
    lemma_row_of_five(header);
    lemma_row_of_five(short);
    assert(body =~= seq![SPACE] + inner + trail);
    assert(all_blank(trail)) by {
        assert forall|i: int| 0 <= i < trail.len() implies is_blank(#[trigger] trail[i]) by {
            if i < tail.len() {
                assert(trail[i] == tail[i]);
            }
        }
    }
    assert(has_solid_ends(inner)) by {
        assert(inner.first() == token[0]);
        assert(inner.last() == kept.last());
    }
    assert(all_blank(seq![SPACE]));
    lemma_trimmed_of_padded(seq![SPACE], inner, trail);
    assert forall|i: int| 0 <= i < short.fields().len() implies has_no_space(
        #[trigger] short.fields()[i],
    ) by {
        if i == 0 {
            assert(has_no_space(token));
        } else if i == 4 {
            assert forall|j: int| 0 <= j < kept.len() implies #[trigger] kept[j] != SPACE by {
                assert(kept[j] == port[j]);
            }
        }
    }
    lemma_fields_of_joined(short.fields());
}

/// The body of a header line of plain fields and of the family of the target
/// is rewritten to the same source with the target as destination.
pub proof fn lemma_body_is_read_back(header: ProxyHeaderV1View, target: SocketAddress)
    requires
        header.is_plain(),
        header.family == target.family_spec(),
    ensures
        forall|i: int| 0 <= i < header.body().len() ==> #[trigger] header.body()[i] != LINE_FEED,
        ProxyHeaderV1::rewritten_spec(header.body(), target) == Ok::<ProxyHeaderV1View, ErrorView>(
            header.retargeted(target),
        ),
{
    lemma_body_fields(header);
    assert(tcp4_token()[3] != tcp6_token()[3]);
    assert(!token_mismatch(header.fields()[0], target));
}

} // verus!
