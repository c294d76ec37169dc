//! Fields of a line of text: the blanks that are trimmed from its ends, and
//! the pieces between its spaces.

use vstd::prelude::*;

verus! {

/// The byte that parts the fields of a line.
pub const SPACE: u8 = 32;

/// The byte is a blank: a space, a tab, a line feed, a vertical tab, a form
/// feed or a carriage return.
pub open spec fn is_blank(b: u8) -> bool {
    b == 32 || (9 <= b <= 13)
}

/// The text without the blanks at its start.
pub open spec fn trimmed_start(text: Seq<u8>) -> Seq<u8>
    decreases text.len(),
{
    if text.len() > 0 && is_blank(text[0]) {
        trimmed_start(text.drop_first())
    } else {
        text
    }
}

/// The text without the blanks at its end.
pub open spec fn trimmed_end(text: Seq<u8>) -> Seq<u8>
    decreases text.len(),
{
    if text.len() > 0 && is_blank(text.last()) {
        trimmed_end(text.drop_last())
    } else {
        text
    }
}

/// The text without the blanks at its start and at its end.
pub open spec fn trimmed(text: Seq<u8>) -> Seq<u8> {
    trimmed_end(trimmed_start(text))
}

/// The fields of a text: the pieces between its spaces. A text without a
/// space is one field, and two spaces in a row hold an empty field.
pub open spec fn fields(text: Seq<u8>) -> Seq<Seq<u8>>
    decreases text.len(),
{
    if text.len() == 0 {
        seq![Seq::empty()]
    } else {
        let before = fields(text.drop_last());
        if text.last() == SPACE {
            before.push(Seq::empty())
        } else {
            before.drop_last().push(before.last().push(text.last()))
        }
    }
}

/// The bytes of each of a list of texts.
pub open spec fn texts(list: Seq<Vec<u8>>) -> Seq<Seq<u8>> {
    Seq::new(list.len(), |i: int| list[i]@)
}

/// A text has at least one field.
pub proof fn lemma_fields_len(text: Seq<u8>)
    ensures
        fields(text).len() >= 1,
    decreases text.len(),
{
    if text.len() > 0 {
        lemma_fields_len(text.drop_last());
    }
}

/// Texts in a row, with one space between neighbours.
pub open spec fn joined(parts: Seq<Seq<u8>>) -> Seq<u8>
    decreases parts.len(),
{
    if parts.len() == 0 {
        Seq::empty()
    } else if parts.len() == 1 {
        parts[0]
    } else {
        joined(parts.drop_last()) + seq![SPACE] + parts.last()
    }
}

/// The text holds no space.
pub open spec fn has_no_space(text: Seq<u8>) -> bool {
    forall|i: int| 0 <= i < text.len() ==> #[trigger] text[i] != SPACE
}

/// The fields of a text are what the text is made of: none of them holds a
/// space, and with one space between neighbours they are the text again.
pub proof fn lemma_fields_rejoin(text: Seq<u8>)
    ensures
        fields(text).len() >= 1,
        joined(fields(text)) == text,
        forall|i: int| 0 <= i < fields(text).len() ==> has_no_space(#[trigger] fields(text)[i]),
    decreases text.len(),
{
    if text.len() > 0 {
        let before = fields(text.drop_last());
        let now = fields(text);
        lemma_fields_rejoin(text.drop_last());
        if text.last() == SPACE {
            assert(now.drop_last() =~= before);
            assert(joined(now) =~= text);
            assert forall|i: int| 0 <= i < now.len() implies has_no_space(#[trigger] now[i]) by {
                if i < before.len() {
                    assert(now[i] == before[i]);
                }
            }
        } else {
            let grown = before.last().push(text.last());
            assert(now.last() == grown);
            assert(text =~= text.drop_last().push(text.last()));
            if before.len() == 1 {
                assert(now.len() == 1);
                assert(joined(before) == before[0]);
                assert(joined(now) == now[0]);
            } else {
                assert(now.drop_last() =~= before.drop_last());
                assert(joined(now) == joined(before.drop_last()) + seq![SPACE] + grown);
                assert(joined(before) == joined(before.drop_last()) + seq![SPACE] + before.last());
                assert(joined(now) =~= joined(before).push(text.last()));
            }
            assert forall|i: int| 0 <= i < now.len() implies has_no_space(#[trigger] now[i]) by {
                if i < before.len() - 1 {
                    assert(now[i] == before[i]);
                } else {
                    assert(has_no_space(before[before.len() - 1]));
                }
            }
        }
    }
}

/// A text without a space, put behind another text, lengthens the last field
/// of that text.
pub proof fn lemma_fields_append(text: Seq<u8>, tail: Seq<u8>)
    requires
        has_no_space(tail),
    ensures
        fields(text).len() >= 1,
        fields(text + tail) == fields(text).drop_last().push(fields(text).last() + tail),
    decreases tail.len(),
{
    lemma_fields_len(text);
    if tail.len() == 0 {
        assert(text + tail =~= text);
        assert(fields(text).last() + tail =~= fields(text).last());
        assert(fields(text).drop_last().push(fields(text).last()) =~= fields(text));
    } else {
        let shorter = tail.drop_last();
        assert(has_no_space(shorter)) by {
            assert forall|i: int| 0 <= i < shorter.len() implies #[trigger] shorter[i] != SPACE by {
                assert(shorter[i] == tail[i]);
            }
        }
        lemma_fields_append(text, shorter);
        assert((text + tail).drop_last() =~= text + shorter);
        assert((text + tail).last() == tail.last());
        assert(tail[tail.len() - 1] != SPACE);
        let before = fields(text + shorter);
        assert(before.drop_last() =~= fields(text).drop_last());
        assert(before.last().push(tail.last()) =~= fields(text).last() + tail);
    }
}

/// Texts without spaces, put in a row with one space between neighbours, are
/// the fields of that row.
pub proof fn lemma_fields_of_joined(parts: Seq<Seq<u8>>)
    requires
        parts.len() >= 1,
        forall|i: int| 0 <= i < parts.len() ==> has_no_space(#[trigger] parts[i]),
    ensures
        fields(joined(parts)) == parts,
    decreases parts.len(),
{
    let none = Seq::<u8>::empty();
    if parts.len() == 1 {
        lemma_fields_append(none, parts[0]);
        assert(none + parts[0] =~= parts[0]);
        assert(fields(none) =~= seq![none]);
        assert(fields(joined(parts)) =~= parts);
    } else {
        let before = parts.drop_last();
        assert forall|i: int| 0 <= i < before.len() implies has_no_space(#[trigger] before[i]) by {
            assert(before[i] == parts[i]);
        }
        lemma_fields_of_joined(before);
        let opened = joined(before) + seq![SPACE];
        assert(opened.drop_last() =~= joined(before));
        assert(fields(opened) =~= before.push(none));
        lemma_fields_append(opened, parts.last());
        assert(none + parts.last() =~= parts.last());
        assert(fields(opened + parts.last()) =~= parts);
    }
}

/// Texts in a row with spaces between them hold nothing but their own bytes
/// and spaces: what holds of a space and of every byte of every text holds of
/// every byte of the row.
pub proof fn lemma_joined_bytes(parts: Seq<Seq<u8>>, holds: spec_fn(u8) -> bool)
    requires
        holds(SPACE),
        forall|i: int, j: int|
            0 <= i < parts.len() && 0 <= j < parts[i].len() ==> holds(#[trigger] parts[i][j]),
    ensures
        forall|k: int| 0 <= k < joined(parts).len() ==> holds(#[trigger] joined(parts)[k]),
    decreases parts.len(),
{
    if parts.len() >= 2 {
        let before = parts.drop_last();
        assert forall|i: int, j: int|
            0 <= i < before.len() && 0 <= j < before[i].len() implies holds(
            #[trigger] before[i][j],
        ) by {
            assert(before[i][j] == parts[i][j]);
        }
        lemma_joined_bytes(before, holds);
        assert forall|k: int| 0 <= k < joined(parts).len() implies holds(
            #[trigger] joined(parts)[k],
        ) by {
            let row = joined(before);
            if k < row.len() {
                assert(joined(parts)[k] == row[k]);
            } else if k == row.len() {
                assert(joined(parts)[k] == SPACE);
            } else {
                assert(joined(parts)[k] == parts[parts.len() - 1][k - row.len() - 1]);
            }
        }
    } else if parts.len() == 1 {
        assert forall|k: int| 0 <= k < joined(parts).len() implies holds(
            #[trigger] joined(parts)[k],
        ) by {
            assert(joined(parts)[k] == parts[0][k]);
        }
    }
}

/// Every byte of the text is a blank.
pub open spec fn all_blank(text: Seq<u8>) -> bool {
    forall|i: int| 0 <= i < text.len() ==> is_blank(#[trigger] text[i])
}

/// The text neither starts nor ends with a blank.
pub open spec fn has_solid_ends(text: Seq<u8>) -> bool {
    text.len() > 0 ==> !is_blank(text.first()) && !is_blank(text.last())
}

proof fn lemma_trimmed_start_of_padded(lead: Seq<u8>, rest: Seq<u8>)
    requires
        all_blank(lead),
        rest.len() > 0 ==> !is_blank(rest.first()),
    ensures
        trimmed_start(lead + rest) == rest,
    decreases lead.len(),
{
    if lead.len() == 0 {
        assert(lead + rest =~= rest);
    } else {
        assert((lead + rest)[0] == lead[0]);
        assert((lead + rest).drop_first() =~= lead.drop_first() + rest);
        assert(all_blank(lead.drop_first())) by {
            assert forall|i: int| 0 <= i < lead.drop_first().len() implies is_blank(
                #[trigger] lead.drop_first()[i],
            ) by {
                assert(lead.drop_first()[i] == lead[i + 1]);
            }
        }
        lemma_trimmed_start_of_padded(lead.drop_first(), rest);
    }
}

proof fn lemma_trimmed_end_of_padded(rest: Seq<u8>, trail: Seq<u8>)
    requires
        all_blank(trail),
        rest.len() > 0 ==> !is_blank(rest.last()),
    ensures
        trimmed_end(rest + trail) == rest,
    decreases trail.len(),
{
    if trail.len() == 0 {
        assert(rest + trail =~= rest);
    } else {
        assert((rest + trail).last() == trail.last());
        assert(is_blank(trail[trail.len() - 1]));
        assert((rest + trail).drop_last() =~= rest + trail.drop_last());
        assert(all_blank(trail.drop_last())) by {
            assert forall|i: int| 0 <= i < trail.drop_last().len() implies is_blank(
                #[trigger] trail.drop_last()[i],
            ) by {
                assert(trail.drop_last()[i] == trail[i]);
            }
        }
        lemma_trimmed_end_of_padded(rest, trail.drop_last());
    }
}

/// Blanks around a text that neither starts nor ends with a blank are what
/// trimming takes away, and nothing else.
pub proof fn lemma_trimmed_of_padded(lead: Seq<u8>, inner: Seq<u8>, trail: Seq<u8>)
    requires
        all_blank(lead),
        all_blank(trail),
        has_solid_ends(inner),
    ensures
        trimmed(lead + inner + trail) == inner,
{
    if inner.len() == 0 {
        assert(lead + inner + trail =~= (lead + trail) + inner);
        assert(all_blank(lead + trail)) by {
            assert forall|i: int| 0 <= i < (lead + trail).len() implies is_blank(
                #[trigger] (lead + trail)[i],
            ) by {
                if i < lead.len() {
                    assert((lead + trail)[i] == lead[i]);
                } else {
                    assert((lead + trail)[i] == trail[i - lead.len()]);
                }
            }
        }
        lemma_trimmed_start_of_padded(lead + trail, inner);
    } else {
        assert(lead + inner + trail =~= lead + (inner + trail));
        assert((inner + trail).first() == inner.first());
        lemma_trimmed_start_of_padded(lead, inner + trail);
        lemma_trimmed_end_of_padded(inner, trail);
    }
}

/// Trimming takes blanks away from the two ends of a text and leaves the
/// rest as it is: every text is what is left of it, with blanks before and
/// behind, and what is left neither starts nor ends with a blank.
pub proof fn lemma_trimmed_shape(text: Seq<u8>)
    ensures
        exists|lead: Seq<u8>, trail: Seq<u8>|
            #![auto]
            text == lead + trimmed(text) + trail && all_blank(lead) && all_blank(trail),
        has_solid_ends(trimmed(text)),
{
    lemma_trimmed_start_shape(text);
    let lead = choose|lead: Seq<u8>|
        #![auto]
        text == lead + trimmed_start(text) && all_blank(lead);
    let rest = trimmed_start(text);
    lemma_trimmed_end_shape(rest);
    let trail = choose|trail: Seq<u8>|
        #![auto]
        rest == trimmed_end(rest) + trail && all_blank(trail);
    assert(text =~= lead + trimmed(text) + trail);
    if trimmed(text).len() > 0 {
        assert(trimmed(text).first() == rest.first());
    }
}

proof fn lemma_trimmed_start_shape(text: Seq<u8>)
    ensures
        exists|lead: Seq<u8>|
            #![auto]
            text == lead + trimmed_start(text) && all_blank(lead),
        trimmed_start(text).len() > 0 ==> !is_blank(trimmed_start(text).first()),
    decreases text.len(),
{
    if text.len() > 0 && is_blank(text[0]) {
        lemma_trimmed_start_shape(text.drop_first());
        let shorter = choose|lead: Seq<u8>|
            #![auto]
            text.drop_first() == lead + trimmed_start(text.drop_first()) && all_blank(lead);
        let lead = seq![text[0]] + shorter;
        assert(trimmed_start(text) == trimmed_start(text.drop_first()));
        assert(text =~= seq![text[0]] + text.drop_first());
        assert(text =~= lead + trimmed_start(text));
        assert(all_blank(lead)) by {
            assert forall|i: int| 0 <= i < lead.len() implies is_blank(#[trigger] lead[i]) by {
                if i > 0 {
                    assert(lead[i] == shorter[i - 1]);
                }
            }
        }
    } else {
        let lead = Seq::<u8>::empty();
        assert(text =~= lead + trimmed_start(text));
        assert(all_blank(lead));
    }
}

/// Trimming the end of a text takes blanks away from its end and nothing
/// else: what is left does not end with a blank, and starts as the text does.
pub proof fn lemma_trimmed_end_shape(text: Seq<u8>)
    ensures
        exists|trail: Seq<u8>|
            #![auto]
            text == trimmed_end(text) + trail && all_blank(trail),
        trimmed_end(text).len() > 0 ==> !is_blank(trimmed_end(text).last()),
        trimmed_end(text).len() > 0 ==> trimmed_end(text).first() == text.first(),
    decreases text.len(),
{
    if text.len() > 0 && is_blank(text.last()) {
        lemma_trimmed_end_shape(text.drop_last());
        let shorter = choose|trail: Seq<u8>|
            #![auto]
            text.drop_last() == trimmed_end(text.drop_last()) + trail && all_blank(trail);
        let trail = shorter.push(text.last());
        assert(trimmed_end(text) == trimmed_end(text.drop_last()));
        assert(text =~= text.drop_last().push(text.last()));
        assert(text =~= trimmed_end(text) + trail);
        assert(all_blank(trail)) by {
            assert forall|i: int| 0 <= i < trail.len() implies is_blank(#[trigger] trail[i]) by {
                if i < shorter.len() {
                    assert(trail[i] == shorter[i]);
                }
            }
        }
        if trimmed_end(text).len() > 0 {
            assert(text.drop_last().first() == text.first());
        }
    } else {
        let trail = Seq::<u8>::empty();
        assert(text =~= trimmed_end(text) + trail);
        assert(all_blank(trail));
    }
}

/// Whether a byte is a blank.
pub fn blank(b: u8) -> (yes: bool)
    ensures
        yes == is_blank(b),
{
    b == 32 || (9 <= b && b <= 13)
}

/// The text without the blanks at its start and at its end.
pub fn trim(text: &[u8]) -> (inner: &[u8])
    ensures
        inner@ == trimmed(text@),
{
    let mut from: usize = 0;
    assert(text@.subrange(0, text@.len() as int) =~= text@);
    while from < text.len() && blank(text[from])
        invariant
            from <= text.len(),
            trimmed_start(text@) == trimmed_start(text@.subrange(from as int, text@.len() as int)),
        decreases text.len() - from,
    {
        proof {
            let rest = text@.subrange(from as int, text@.len() as int);
            assert(rest[0] == text@[from as int]);
            assert(rest.drop_first() =~= text@.subrange(from + 1, text@.len() as int));
        }
        from += 1;
    }
    let ghost tail = text@.subrange(from as int, text@.len() as int);
    assert(trimmed_start(text@) == tail) by {
        if from < text.len() {
            assert(tail[0] == text@[from as int]);
        }
    }
    let mut to: usize = text.len();
    while to > from && blank(text[to - 1])
        invariant
            from <= to <= text.len(),
            trimmed_end(tail) == trimmed_end(text@.subrange(from as int, to as int)),
        decreases to,
    {
        proof {
            let rest = text@.subrange(from as int, to as int);
            assert(rest.last() == text@[to - 1]);
            assert(rest.drop_last() =~= text@.subrange(from as int, to - 1));
        }
        to -= 1;
    }
    proof {
        let rest = text@.subrange(from as int, to as int);
        if to > from {
            assert(rest.last() == text@[to - 1]);
        }
        assert(trimmed_end(rest) == rest);
    }
    vstd::slice::slice_subrange(text, from, to)
}

/// The fields of a text.
pub fn split_fields(text: &[u8]) -> (list: Vec<Vec<u8>>)
    ensures
        texts(list@) == fields(text@),
{
    let mut list: Vec<Vec<u8>> = Vec::new();
    let mut field: Vec<u8> = Vec::new();
    let mut i: usize = 0;
    while i < text.len()
        invariant
            i <= text.len(),
            texts(list@).push(field@) == fields(text@.subrange(0, i as int)),
        decreases text.len() - i,
    {
        let ghost before = text@.subrange(0, i as int);
        let ghost now = text@.subrange(0, i + 1);
        proof {
            assert(now.drop_last() =~= before);
            assert(now.last() == text@[i as int]);
        }
        if text[i] == SPACE {
            list.push(field);
            field = Vec::new();
            assert(texts(list@) =~= fields(before));
            assert(texts(list@).push(field@) =~= fields(now));
        } else {
            let ghost open = field@;
            field.push(text[i]);
            assert(fields(before).drop_last() =~= texts(list@));
            assert(fields(before).last() == open);
            assert(texts(list@).push(field@) =~= fields(now));
        }
        i += 1;
    }
    assert(text@.subrange(0, i as int) =~= text@);
    let ghost done = texts(list@);
    let ghost last = field@;
    list.push(field);
    assert(texts(list@) =~= done.push(last));
    list
}

} // verus!
