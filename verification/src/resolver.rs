//! Forwarding rules: how the text `bind@target` is read, and how the
//! addresses that its two sides resolve to are matched to one pair of a
//! common family.

use vstd::prelude::*;
use vstd::string::StringExecFns;
use crate::address::{Family, SocketAddress};
use crate::error::{Error, ErrorView};
use crate::text::chars_of;

verus! {

/// `items[at]` is the first item that the filter accepts.
pub open spec fn first_accepted<T, F: Fn(&T) -> bool>(filter: F, items: Seq<T>, at: int) -> bool {
    &&& 0 <= at < items.len()
    &&& call_ensures(filter, (&items[at],), true)
    &&& forall|k: int| 0 <= k < at ==> call_ensures(filter, (&#[trigger] items[k],), false)
}

/// The filter accepts no item.
pub open spec fn none_accepted<T, F: Fn(&T) -> bool>(filter: F, items: Seq<T>) -> bool {
    forall|k: int| 0 <= k < items.len() ==> call_ensures(filter, (&#[trigger] items[k],), false)
}

/// The position of the first item that the filter accepts.
fn find_first<T, F: Fn(&T) -> bool>(items: &[T], filter: &F) -> (found: Option<usize>)
    requires
        forall|k: int| 0 <= k < items@.len() ==> call_requires(*filter, (&#[trigger] items@[k],)),
    ensures
        match found {
            Some(at) => first_accepted(*filter, items@, at as int),
            None => none_accepted(*filter, items@),
        },
{
    let mut i: usize = 0;
    while i < items.len()
        invariant
            i <= items.len(),
            forall|k: int|
                0 <= k < items@.len() ==> call_requires(*filter, (&#[trigger] items@[k],)),
            forall|k: int| 0 <= k < i ==> call_ensures(*filter, (&#[trigger] items@[k],), false),
        decreases items.len() - i,
    {
        if filter(&items[i]) {
            return Some(i);
        }
        i += 1;
    }
    None
}

/// Takes from each of two lists the first item that the filter accepts. The
/// result is the pair of them, and nothing where either list has no such
/// item.
pub fn zip_filter<'a, T, F: Fn(&T) -> bool>(left: &'a [T], right: &'a [T], filter: F) -> (found:
    Option<(&'a T, &'a T)>)
    requires
        forall|k: int| 0 <= k < left@.len() ==> call_requires(filter, (&#[trigger] left@[k],)),
        forall|k: int| 0 <= k < right@.len() ==> call_requires(filter, (&#[trigger] right@[k],)),
    ensures
        match found {
            Some((first, second)) => exists|i: int, j: int|
                first_accepted(filter, left@, i) && first_accepted(filter, right@, j) && *first
                    == left@[i] && *second == right@[j],
            None => none_accepted(filter, left@) || none_accepted(filter, right@),
        },
{
    let first = find_first(left, &filter);
    let second = find_first(right, &filter);
    match (first, second) {
        (Some(i), Some(j)) => Some((&left[i], &right[j])),
        _ => None,
    }
}

/// `candidates[at]` is the first candidate of the family.
pub open spec fn first_of_family(family: Family, candidates: Seq<SocketAddress>, at: int) -> bool {
    &&& 0 <= at < candidates.len()
    &&& candidates[at].family_spec() == family
    &&& forall|k: int| 0 <= k < at ==> (#[trigger] candidates[k]).family_spec() != family
}

/// Some candidate is of the family.
pub open spec fn has_family(family: Family, candidates: Seq<SocketAddress>) -> bool {
    exists|k: int| 0 <= k < candidates.len() && (#[trigger] candidates[k]).family_spec() == family
}

/// The family in which the two sides of a rule meet: IPv6 where both sides
/// have a candidate of it, else IPv4 where both sides have a candidate of it,
/// else none.
pub open spec fn common_family(bind: Seq<SocketAddress>, target: Seq<SocketAddress>) -> Option<
    Family,
> {
    if has_family(Family::V6, bind) && has_family(Family::V6, target) {
        Some(Family::V6)
    } else if has_family(Family::V4, bind) && has_family(Family::V4, target) {
        Some(Family::V4)
    } else {
        None
    }
}

/// One bound address and the one target that its connections are forwarded
/// to. The two are of one family.
#[derive(Clone, Copy, Debug, PartialEq, Eq)]
pub struct ForwardingRule {
    bind: SocketAddress,
    target: SocketAddress,
}

impl ForwardingRule {
    #[verifier::type_invariant]
    spec fn one_family(self) -> bool {
        self.bind.family_spec() == self.target.family_spec()
    }

    /// The address that is bound.
    pub closed spec fn bind_spec(self) -> SocketAddress {
        self.bind
    }

    /// The address that connections are forwarded to.
    pub closed spec fn target_spec(self) -> SocketAddress {
        self.target
    }

    /// The rule from `bind` to `target`, which have to be of one family.
    pub fn new(bind: SocketAddress, target: SocketAddress) -> (made: Result<ForwardingRule, Error>)
        ensures
            bind.family_spec() != target.family_spec() ==> made is Err && made->Err_0@
                == ErrorView::FamilyMix,
            bind.family_spec() == target.family_spec() ==> made is Ok && made->Ok_0.bind_spec()
                == bind && made->Ok_0.target_spec() == target,
    {
        if bind.is_ipv4() != target.is_ipv4() {
            Err(Error::FamilyMix)
        } else {
            Ok(ForwardingRule { bind, target })
        }
    }

    /// The address that is bound.
    pub fn bind(&self) -> (bind: SocketAddress)
        ensures
            bind == self.bind_spec(),
    {
        self.bind
    }

    /// The address that connections are forwarded to.
    pub fn target(&self) -> (target: SocketAddress)
        ensures
            target == self.target_spec(),
    {
        self.target
    }

    /// The family of the rule, which is that of both of its addresses.
    pub fn family(&self) -> (family: Family)
        ensures
            family == self.bind_spec().family_spec(),
            family == self.target_spec().family_spec(),
    {
        proof {
            use_type_invariant(self);
        }
        self.bind.family()
    }
}

/// Matches the candidates of the two sides of a rule.
///
/// The rule is made of the first candidate of each side that is of the common
/// family. Without a common family there is no rule.
pub fn match_families(bind: &[SocketAddress], target: &[SocketAddress]) -> (made: Result<
    ForwardingRule,
    Error,
>)
    ensures
        match common_family(bind@, target@) {
            Some(family) => made is Ok && exists|i: int, j: int|
                first_of_family(family, bind@, i) && first_of_family(family, target@, j)
                    && made->Ok_0.bind_spec() == bind@[i] && made->Ok_0.target_spec() == target@[j],
            None => made is Err && made->Err_0@ == ErrorView::FamilyMix,
        },
{
    let second = |a: &SocketAddress| -> (yes: bool)
        ensures
            yes == (a.family_spec() == Family::V6),
        { a.is_ipv6() };
    let first = |a: &SocketAddress| -> (yes: bool)
        ensures
            yes == (a.family_spec() == Family::V4),
        { a.is_ipv4() };
    let found = match zip_filter(bind, target, second) {
        Some(pair) => Some(pair),
        None => zip_filter(bind, target, first),
    };
    match found {
        Some((source, dest)) => {
            proof {
                let (i, j) = choose|i: int, j: int|
                    (first_accepted(second, bind@, i) && first_accepted(second, target@, j)
                        && *source == bind@[i] && *dest == target@[j]) || (first_accepted(
                        first,
                        bind@,
                        i,
                    ) && first_accepted(first, target@, j) && *source == bind@[i] && *dest
                        == target@[j]);
                if common_family(bind@, target@) == Some(Family::V6) {
                    assert(first_of_family(Family::V6, bind@, i));
                    assert(first_of_family(Family::V6, target@, j));
                } else {
                    assert(first_of_family(Family::V4, bind@, i));
                    assert(first_of_family(Family::V4, target@, j));
                }
            }
            Ok(ForwardingRule { bind: *source, target: *dest })
        },
        None => Err(Error::FamilyMix),
    }
}

/// The character that parts the two sides of a rule.
pub const SEPARATOR: char = '@';

/// The character that opens a side which names a port alone.
pub const PORT_MARK: char = ':';

/// The rule has its one and only separator at `at`.
pub open spec fn is_separator(rule: Seq<char>, at: int) -> bool {
    &&& 0 <= at < rule.len()
    &&& rule[at] == SEPARATOR
    &&& forall|k: int| 0 <= k < rule.len() && k != at ==> rule[k] != SEPARATOR
}

/// A side of a rule with its host: a side that names a port alone is given
/// the host `host`, any other side stands as it is.
pub open spec fn with_default_host(host: Seq<char>, side: Seq<char>) -> Seq<char> {
    if side.len() > 0 && side[0] == PORT_MARK {
        host + side
    } else {
        side
    }
}

/// The address that the bind side of a rule names: a port alone is bound on
/// every interface.
pub open spec fn bind_text(side: Seq<char>) -> Seq<char> {
    with_default_host("0.0.0.0"@, side)
}

/// The address that the target side of a rule names: a port alone is a port
/// of this host.
pub open spec fn target_text(side: Seq<char>) -> Seq<char> {
    with_default_host("localhost"@, side)
}

/// Two sides without a separator in them, with one separator between them,
/// are a rule, and its sides are these two.
pub proof fn lemma_rule_of_two_sides(bind: Seq<char>, target: Seq<char>)
    requires
        !bind.contains(SEPARATOR),
        !target.contains(SEPARATOR),
    ensures
        ({
            let rule = bind + seq![SEPARATOR] + target;
            &&& is_separator(rule, bind.len() as int)
            &&& rule.subrange(0, bind.len() as int) == bind
            &&& rule.skip(bind.len() as int + 1) == target
        }),
{
    let rule = bind + seq![SEPARATOR] + target;
    let at = bind.len() as int;
    assert forall|k: int| 0 <= k < rule.len() && k != at implies rule[k] != SEPARATOR by {
        if k < at {
            assert(rule[k] == bind[k]);
            assert(bind.contains(bind[k]));
        } else {
            assert(rule[k] == target[k - at - 1]);
            assert(target.contains(target[k - at - 1]));
        }
    }
    assert(rule.subrange(0, at) =~= bind);
    assert(rule.skip(at + 1) =~= target);
}

/// A rule has at most one place for its separator.
pub proof fn lemma_separator_is_unique(rule: Seq<char>, first: int, second: int)
    requires
        is_separator(rule, first),
        is_separator(rule, second),
    ensures
        first == second,
{
}

/// The two sides of a rule, each as the text of an address that is yet to be
/// resolved.
#[derive(Clone, Debug, PartialEq, Eq)]
pub struct RuleTokens {
    pub bind: String,
    pub target: String,
}

/// The characters from `from` up to `to`, behind the host `host` where they
/// name a port alone.
fn side_text(chars: &Vec<char>, from: usize, to: usize, host: &str) -> (text: String)
    requires
        from <= to <= chars@.len(),
    ensures
        text@ == with_default_host(host@, chars@.subrange(from as int, to as int)),
{
    let ghost side = chars@.subrange(from as int, to as int);
    let mut text = if from < to && chars[from] == PORT_MARK {
        String::from_str(host)
    } else {
        String::new()
    };
    let ghost start = text@;
    assert(with_default_host(host@, side) =~= start + side) by {
        if from < to {
            assert(side[0] == chars@[from as int]);
        }
    }
    let mut i: usize = from;
    while i < to
        invariant
            from <= i <= to <= chars@.len(),
            text@ == start + chars@.subrange(from as int, i as int),
        decreases to - i,
    {
        text.push(chars[i]);
        i += 1;
        assert(text@ =~= start + chars@.subrange(from as int, i as int));
    }
    text
}

/// Reads a rule of the form `bind@target`.
///
/// The rule has to hold the separator exactly once. What stands before it is
/// the bind side, what stands behind it the target side.
pub fn parse_rule(rule: &str) -> (made: Result<RuleTokens, Error>)
    ensures
        (forall|at: int| !is_separator(rule@, at)) ==> made is Err && made->Err_0@
            == (ErrorView::Argument { input: rule@ }),
        forall|at: int|
            is_separator(rule@, at) ==> made is Ok && made->Ok_0.bind@ == bind_text(
                rule@.subrange(0, at),
            ) && made->Ok_0.target@ == target_text(rule@.skip(at + 1)),
{
    let chars = chars_of(rule);
    let mut count: usize = 0;
    let mut first: usize = 0;
    let mut i: usize = 0;
    while i < chars.len()
        invariant
            i <= chars@.len(),
            chars@ == rule@,
            count <= i,
            count == 0 ==> forall|k: int| 0 <= k < i ==> chars@[k] != SEPARATOR,
            count >= 1 ==> first < i && chars@[first as int] == SEPARATOR,
            count == 1 ==> forall|k: int| 0 <= k < i && k != first ==> chars@[k] != SEPARATOR,
            count >= 2 ==> exists|k: int| 0 <= k < i && k != first && chars@[k] == SEPARATOR,
        decreases chars.len() - i,
    {
        if chars[i] == SEPARATOR {
            if count == 0 {
                first = i;
            }
            count += 1;
        }
        i += 1;
    }
    if count != 1 {
        proof {
            assert forall|at: int| !is_separator(rule@, at) by {
                if is_separator(rule@, at) {
                    if count >= 2 {
                        let k = choose|k: int|
                            0 <= k < chars@.len() && k != first && chars@[k] == SEPARATOR;
                        assert(k == at);
                        assert(first == at);
                    }
                }
            }
        }
        return Err(Error::Argument { input: String::from_str(rule) });
    }
    let bind = side_text(&chars, 0, first, "0.0.0.0");
    let target = side_text(&chars, first + 1, chars.len(), "localhost");
    proof {
        assert(is_separator(rule@, first as int));
        assert(rule@.skip(first + 1) =~= chars@.subrange(first + 1, chars@.len() as int));
    }
    Ok(RuleTokens { bind, target })
}

/// The two sides of a rule meet in a family exactly if some candidate of the
/// one is of the same family as some candidate of the other. Sides that
/// resolve to addresses of different families only make no rule.
pub proof fn lemma_common_family_exists(bind: Seq<SocketAddress>, target: Seq<SocketAddress>)
    ensures
        common_family(bind, target) is Some <==> exists|i: int, j: int|
            0 <= i < bind.len() && 0 <= j < target.len() && (#[trigger] bind[i]).family_spec() == (
            #[trigger] target[j]).family_spec(),
{
    if common_family(bind, target) is Some {
        let family = common_family(bind, target)->Some_0;
        let i = choose|i: int| 0 <= i < bind.len() && (#[trigger] bind[i]).family_spec() == family;
        let j = choose|j: int|
            0 <= j < target.len() && (#[trigger] target[j]).family_spec() == family;
        assert(bind[i].family_spec() == target[j].family_spec());
    }
    if exists|i: int, j: int|
        0 <= i < bind.len() && 0 <= j < target.len() && (#[trigger] bind[i]).family_spec() == (
        #[trigger] target[j]).family_spec() {
        let (i, j) = choose|i: int, j: int|
            0 <= i < bind.len() && 0 <= j < target.len() && (#[trigger] bind[i]).family_spec() == (
            #[trigger] target[j]).family_spec();
        let family = bind[i].family_spec();
        assert(has_family(family, bind));
        assert(has_family(family, target));
    }
}

/// Where both sides have IPv6 candidates, the rule is made of IPv6 addresses,
/// whatever other candidates there are.
pub proof fn lemma_ipv6_is_preferred(
    bind: Seq<SocketAddress>,
    target: Seq<SocketAddress>,
)
    requires
        has_family(Family::V6, bind),
        has_family(Family::V6, target),
    ensures
        common_family(bind, target) == Some(Family::V6),
{
}

/// Makes the rule of two sides from what each of them resolved to.
///
/// A side that did not resolve is reported with its text, the bind side
/// first. The candidates of the two sides are then matched by family.
pub fn resolve(
    tokens: &RuleTokens,
    bind_found: Option<Vec<SocketAddress>>,
    target_found: Option<Vec<SocketAddress>>,
) -> (made: Result<ForwardingRule, Error>)
    ensures
        bind_found is None ==> made is Err && made->Err_0@ == (ErrorView::AddressParse {
            input: tokens.bind@,
        }),
        bind_found is Some && target_found is None ==> made is Err && made->Err_0@
            == (ErrorView::AddressParse { input: tokens.target@ }),
        bind_found is Some && target_found is Some ==> match common_family(
            bind_found->Some_0@,
            target_found->Some_0@,
        ) {
            Some(family) => made is Ok && exists|i: int, j: int|
                first_of_family(family, bind_found->Some_0@, i) && first_of_family(
                    family,
                    target_found->Some_0@,
                    j,
                ) && made->Ok_0.bind_spec() == bind_found->Some_0@[i] && made->Ok_0.target_spec()
                    == target_found->Some_0@[j],
            None => made is Err && made->Err_0@ == ErrorView::FamilyMix,
        },
        made is Ok ==> made->Ok_0.bind_spec().family_spec()
            == made->Ok_0.target_spec().family_spec(),
{
    let bind = match bind_found {
        Some(candidates) => candidates,
        None => {
            return Err(Error::AddressParse { input: tokens.bind.clone() });
        },
    };
    let target = match target_found {
        Some(candidates) => candidates,
        None => {
            return Err(Error::AddressParse { input: tokens.target.clone() });
        },
    };
    match_families(bind.as_slice(), target.as_slice())
}

} // verus!
