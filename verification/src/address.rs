//! Socket addresses as plain values, and the text that stands for them on the
//! wire and in messages.

use vstd::prelude::*;
use crate::text::{
    decimal, hexadecimal, lemma_decimal_digits, lemma_decimal_len, push_decimal, push_hexadecimal,
};

verus! {

/// The address family of an endpoint.
#[derive(Clone, Copy, Debug, PartialEq, Eq, Structural)]
pub enum Family {
    /// IPv4.
    V4,
    /// IPv6.
    V6,
}

/// An IP address: four octets, or eight groups of sixteen bits.
#[derive(Clone, Copy, Debug, PartialEq, Eq)]
pub enum IpAddress {
    V4([u8; 4]),
    V6([u16; 8]),
}

/// An IP address and a port. An IPv6 address has a flow label and the
/// number of the zone to which it belongs as well; both are zero where they
/// are not set, and in an IPv4 address.
#[derive(Clone, Copy, Debug, PartialEq, Eq)]
pub struct SocketAddress {
    pub ip: IpAddress,
    pub port: u16,
    pub flowinfo: u32,
    pub scope_id: u32,
}

/// The sign between an IPv6 address and the number of its zone.
pub const PERCENT: u8 = 37;

/// The dot between the octets of an IPv4 address.
pub const DOT: u8 = 46;

/// The colon between the groups of an IPv6 address, and before a port.
pub const COLON: u8 = 58;

/// Four octets in dotted decimal notation.
pub open spec fn ipv4_text(octets: Seq<u8>) -> Seq<u8>
    recommends
        octets.len() == 4,
{
    decimal(octets[0] as nat) + seq![DOT] + decimal(octets[1] as nat) + seq![DOT] + decimal(
        octets[2] as nat,
    ) + seq![DOT] + decimal(octets[3] as nat)
}

/// Groups in hexadecimal notation, with a colon between neighbours.
pub open spec fn groups_text(groups: Seq<u16>) -> Seq<u8>
    decreases groups.len(),
{
    if groups.len() == 0 {
        Seq::empty()
    } else if groups.len() == 1 {
        hexadecimal(groups[0] as nat)
    } else {
        groups_text(groups.drop_last()) + seq![COLON] + hexadecimal(groups.last() as nat)
    }
}

/// The `len` groups from `start` on are all zero.
pub open spec fn zero_run(groups: Seq<u16>, start: int, len: int) -> bool {
    &&& 0 <= start
    &&& 0 <= len
    &&& start + len <= groups.len()
    &&& forall|i: int| start <= i < start + len ==> #[trigger] groups[i] == 0
}

/// The run of zero groups that the text of an address leaves out: at least
/// two groups long, no shorter than any other run, and the leftmost of those
/// of its length.
pub open spec fn elided_run(groups: Seq<u16>, start: int, len: int) -> bool {
    &&& zero_run(groups, start, len)
    &&& len >= 2
    &&& forall|s: int, l: int| #[trigger]
        zero_run(groups, s, l) ==> l < len || (l == len && start <= s)
}

/// The address carries an IPv4 address behind the prefix `::ffff:`.
pub open spec fn is_v4_mapped(groups: Seq<u16>) -> bool {
    &&& groups.len() == 8
    &&& zero_run(groups, 0, 5)
    &&& groups[5] == 0xffff
}

/// The four octets that the last two groups of an address hold.
pub open spec fn mapped_octets(groups: Seq<u16>) -> Seq<u8> {
    seq![
        (groups[6] / 256) as u8,
        (groups[6] % 256) as u8,
        (groups[7] / 256) as u8,
        (groups[7] % 256) as u8,
    ]
}

/// Eight groups in the usual short notation: an address that carries an IPv4
/// address shows it in dotted decimal notation; otherwise the longest run of
/// two or more zero groups is replaced by `::`.
pub open spec fn ipv6_text(groups: Seq<u16>) -> Seq<u8>
    recommends
        groups.len() == 8,
{
    if is_v4_mapped(groups) {
        seq![COLON, COLON, 102u8, 102u8, 102u8, 102u8, COLON] + ipv4_text(mapped_octets(groups))
    } else if exists|s: int, l: int| elided_run(groups, s, l) {
        let (s, l) = choose|s: int, l: int| elided_run(groups, s, l);
        groups_text(groups.subrange(0, s)) + seq![COLON, COLON] + groups_text(
            groups.subrange(s + l, groups.len() as int),
        )
    } else {
        groups_text(groups)
    }
}

impl IpAddress {
    /// The family of the address.
    pub open spec fn family_spec(self) -> Family {
        match self {
            IpAddress::V4(_) => Family::V4,
            IpAddress::V6(_) => Family::V6,
        }
    }

    /// The text of the address.
    pub open spec fn text_spec(self) -> Seq<u8> {
        match self {
            IpAddress::V4(octets) => ipv4_text(octets@),
            IpAddress::V6(groups) => ipv6_text(groups@),
        }
    }

    /// The family of the address.
    #[verifier::when_used_as_spec(family_spec)]
    pub fn family(self) -> (family: Family)
        ensures
            family == self.family_spec(),
    {
        match self {
            IpAddress::V4(_) => Family::V4,
            IpAddress::V6(_) => Family::V6,
        }
    }
}

/// The run that the text of an address leaves out is unique.
pub proof fn lemma_elided_run_unique(groups: Seq<u16>, s1: int, l1: int, s2: int, l2: int)
    requires
        elided_run(groups, s1, l1),
        elided_run(groups, s2, l2),
    ensures
        s1 == s2,
        l1 == l2,
{
}

/// Dotted decimal notation takes seven to fifteen bytes, each of them a digit
/// or a dot.
pub proof fn lemma_ipv4_text_bytes(octets: Seq<u8>)
    requires
        octets.len() == 4,
    ensures
        7 <= ipv4_text(octets).len() <= 15,
        forall|i: int|
            0 <= i < ipv4_text(octets).len() ==> {
                let b = #[trigger] ipv4_text(octets)[i];
                48 <= b <= 57 || b == DOT
            },
{
    let a = decimal(octets[0] as nat);
    let b = decimal(octets[1] as nat);
    let c = decimal(octets[2] as nat);
    let d = decimal(octets[3] as nat);
    lemma_decimal_len(octets[0] as nat);
    lemma_decimal_len(octets[1] as nat);
    lemma_decimal_len(octets[2] as nat);
    lemma_decimal_len(octets[3] as nat);
    lemma_decimal_digits(octets[0] as nat);
    lemma_decimal_digits(octets[1] as nat);
    lemma_decimal_digits(octets[2] as nat);
    lemma_decimal_digits(octets[3] as nat);
    let text = ipv4_text(octets);
    assert forall|i: int| 0 <= i < text.len() implies {
        let x = #[trigger] text[i];
        48 <= x <= 57 || x == DOT
    } by {
        let first_dot = a.len();
        let second_dot = first_dot + 1 + b.len();
        let third_dot = second_dot + 1 + c.len();
        if i < first_dot {
            assert(text[i] == a[i]);
        } else if i == first_dot {
        } else if i < second_dot {
            assert(text[i] == b[i - first_dot - 1]);
        } else if i == second_dot {
        } else if i < third_dot {
            assert(text[i] == c[i - second_dot - 1]);
        } else if i == third_dot {
        } else {
            assert(text[i] == d[i - third_dot - 1]);
        }
    }
}

/// Appends four octets in dotted decimal notation to `out`.
pub fn push_ipv4(out: &mut Vec<u8>, octets: &[u8; 4])
    ensures
        final(out)@ == old(out)@ + ipv4_text(octets@),
{
    push_decimal(out, octets[0] as u32);
    out.push(DOT);
    push_decimal(out, octets[1] as u32);
    out.push(DOT);
    push_decimal(out, octets[2] as u32);
    out.push(DOT);
    push_decimal(out, octets[3] as u32);
    assert(final(out)@ =~= old(out)@ + ipv4_text(octets@));
}

/// Appends the groups from `from` up to `to` to `out`, in hexadecimal notation
/// with a colon between neighbours.
fn push_groups(out: &mut Vec<u8>, groups: &[u16; 8], from: usize, to: usize)
    requires
        from <= to <= 8,
    ensures
        final(out)@ == old(out)@ + groups_text(groups@.subrange(from as int, to as int)),
{
    let mut i: usize = from;
    while i < to
        invariant
            from <= i <= to <= 8,
            out@ == old(out)@ + groups_text(groups@.subrange(from as int, i as int)),
        decreases to - i,
    {
        if i > from {
            out.push(COLON);
        }
        push_hexadecimal(out, groups[i]);
        proof {
            let now = groups@.subrange(from as int, i + 1);
            assert(now.drop_last() =~= groups@.subrange(from as int, i as int));
            assert(now.last() == groups@[i as int]);
            assert(out@ =~= old(out)@ + groups_text(now));
        }
        i += 1;
    }
}

/// Finds the run of zero groups that the text leaves out. A length below two
/// says that there is none.
fn find_elided_run(groups: &[u16; 8]) -> (run: (usize, usize))
    ensures
        run.1 >= 2 ==> elided_run(groups@, run.0 as int, run.1 as int),
        run.1 < 2 ==> !exists|s: int, l: int| elided_run(groups@, s, l),
        run.0 + run.1 <= 8,
{
    let mut best_start: usize = 0;
    let mut best_len: usize = 0;
    let mut len: usize = 0;
    let mut i: usize = 0;
    while i < 8
        invariant
            i <= 8,
            len <= i,
            len <= best_len,
            best_start + best_len <= i,
            zero_run(groups@, best_start as int, best_len as int),
            zero_run(groups@, i - len, len as int),
            len < i ==> groups@[i - len - 1] != 0,
            forall|s: int, l: int| #[trigger]
                zero_run(groups@, s, l) && s + l <= i ==> l <= best_len && (l == best_len && l > 0
                    ==> best_start <= s),
        decreases 8 - i,
    {
        let ghost before = len;
        if groups[i] == 0 {
            len += 1;
            if len > best_len {
                best_start = i + 1 - len;
                best_len = len;
            }
        } else {
            len = 0;
        }
        i += 1;
        proof {
            assert forall|s: int, l: int| #[trigger]
                zero_run(groups@, s, l) && s + l <= i implies l <= best_len && (l == best_len && l
                > 0 ==> best_start <= s) by {
                if s + l == i && l > 0 {
                    assert(groups@[i - 1] == 0);
                    if l > before + 1 {
                        assert(groups@[i - 1 - before - 1] == 0);
                    }
                }
            }
        }
    }
    (best_start, best_len)
}

/// Appends eight groups in the usual short notation to `out`.
pub fn push_ipv6(out: &mut Vec<u8>, groups: &[u16; 8])
    ensures
        final(out)@ == old(out)@ + ipv6_text(groups@),
{
    if groups[0] == 0 && groups[1] == 0 && groups[2] == 0 && groups[3] == 0 && groups[4] == 0
        && groups[5] == 0xffff {
        out.push(COLON);
        out.push(COLON);
        out.push(102u8);
        out.push(102u8);
        out.push(102u8);
        out.push(102u8);
        out.push(COLON);
        let octets: [u8; 4] = [
            (groups[6] / 256) as u8,
            (groups[6] % 256) as u8,
            (groups[7] / 256) as u8,
            (groups[7] % 256) as u8,
        ];
        push_ipv4(out, &octets);
        proof {
            assert(is_v4_mapped(groups@));
            assert(octets@ =~= mapped_octets(groups@));
            assert(final(out)@ =~= old(out)@ + ipv6_text(groups@));
        }
    } else {
        assert(!is_v4_mapped(groups@));
        let run = find_elided_run(groups);
        if run.1 >= 2 {
            push_groups(out, groups, 0, run.0);
            out.push(COLON);
            out.push(COLON);
            push_groups(out, groups, run.0 + run.1, 8);
            proof {
                let (s, l) = choose|s: int, l: int| elided_run(groups@, s, l);
                lemma_elided_run_unique(groups@, s, l, run.0 as int, run.1 as int);
                assert(final(out)@ =~= old(out)@ + ipv6_text(groups@));
            }
        } else {
            push_groups(out, groups, 0, 8);
            assert(groups@.subrange(0, 8) =~= groups@);
        }
    }
}

impl SocketAddress {
    /// The family of the address.
    pub open spec fn family_spec(&self) -> Family {
        self.ip.family_spec()
    }

    /// The text of the IP address alone.
    pub open spec fn ip_text_spec(&self) -> Seq<u8> {
        self.ip.text_spec()
    }

    /// The text of the port alone.
    pub open spec fn port_text_spec(&self) -> Seq<u8> {
        decimal(self.port as nat)
    }

    /// The zone of an IPv6 address as its text shows it: nothing where the
    /// zone is not set, else a percent sign and the number of the zone.
    pub open spec fn zone_text_spec(&self) -> Seq<u8> {
        if self.scope_id == 0 {
            Seq::empty()
        } else {
            seq![PERCENT] + decimal(self.scope_id as nat)
        }
    }

    /// The text of the whole address: `ip:port`, with an IPv6 address and
    /// its zone in square brackets. The flow label is not shown.
    pub open spec fn text_spec(&self) -> Seq<u8> {
        match self.ip {
            IpAddress::V4(_) => self.ip.text_spec() + seq![COLON] + decimal(self.port as nat),
            IpAddress::V6(_) => seq![91u8] + self.ip.text_spec() + self.zone_text_spec() + seq![
                93u8,
                COLON,
            ] + decimal(self.port as nat),
        }
    }

    /// The IPv4 address of four octets, with a port.
    pub fn v4(octets: [u8; 4], port: u16) -> (address: SocketAddress)
        ensures
            address == (SocketAddress { ip: IpAddress::V4(octets), port, flowinfo: 0, scope_id: 0 }),
    {
        SocketAddress { ip: IpAddress::V4(octets), port, flowinfo: 0, scope_id: 0 }
    }

    /// The IPv6 address of eight groups, with a port, a flow label and the
    /// number of a zone.
    pub fn v6(groups: [u16; 8], port: u16, flowinfo: u32, scope_id: u32) -> (address:
        SocketAddress)
        ensures
            address == (SocketAddress { ip: IpAddress::V6(groups), port, flowinfo, scope_id }),
    {
        SocketAddress { ip: IpAddress::V6(groups), port, flowinfo, scope_id }
    }

    /// The family of the address.
    #[verifier::when_used_as_spec(family_spec)]
    pub fn family(&self) -> (family: Family)
        ensures
            family == self.family_spec(),
    {
        self.ip.family()
    }

    /// Whether this is an IPv4 address.
    pub fn is_ipv4(&self) -> (yes: bool)
        ensures
            yes == (self.family_spec() == Family::V4),
    {
        match self.ip {
            IpAddress::V4(_) => true,
            IpAddress::V6(_) => false,
        }
    }

    /// Whether this is an IPv6 address.
    pub fn is_ipv6(&self) -> (yes: bool)
        ensures
            yes == (self.family_spec() == Family::V6),
    {
        match self.ip {
            IpAddress::V4(_) => false,
            IpAddress::V6(_) => true,
        }
    }

    /// Appends the text of the IP address to `out`.
    pub fn push_ip(&self, out: &mut Vec<u8>)
        ensures
            final(out)@ == old(out)@ + self.ip_text_spec(),
    {
        match &self.ip {
            IpAddress::V4(octets) => push_ipv4(out, octets),
            IpAddress::V6(groups) => push_ipv6(out, groups),
        }
    }

    /// The text of the IP address.
    pub fn ip_text(&self) -> (text: Vec<u8>)
        ensures
            text@ == self.ip_text_spec(),
    {
        let mut text: Vec<u8> = Vec::new();
        self.push_ip(&mut text);
        text
    }

    /// The text of the port.
    pub fn port_text(&self) -> (text: Vec<u8>)
        ensures
            text@ == self.port_text_spec(),
    {
        let mut text: Vec<u8> = Vec::new();
        push_decimal(&mut text, self.port as u32);
        text
    }

    /// The text of the whole address.
    pub fn text(&self) -> (text: Vec<u8>)
        ensures
            text@ == self.text_spec(),
    {
        let mut text: Vec<u8> = Vec::new();
        match &self.ip {
            IpAddress::V4(octets) => {
                push_ipv4(&mut text, octets);
            },
            IpAddress::V6(groups) => {
                text.push(91u8);
                push_ipv6(&mut text, groups);
                if self.scope_id != 0 {
                    text.push(PERCENT);
                    push_decimal(&mut text, self.scope_id);
                }
                text.push(93u8);
            },
        }
        text.push(COLON);
        push_decimal(&mut text, self.port as u32);
        assert(text@ =~= self.text_spec());
        text
    }
}

} // verus!
