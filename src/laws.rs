//! General facts about parsing and matching, proved over the models.
use std::cmp::Ordering;
use vstd::prelude::*;

use crate::condition::{
    count_keyword, count_unit_keyword, render_view, room_token, symbol_of, ConditionView, ErrorView,
    RoomType,
};
use crate::layout::LayoutView;
use crate::matcher::{entity_count, holds_on, room_count};
use crate::parser::{body_view, parse_view, relationship_of, room_type_of};
use crate::text::{
    lemma_run_end_bounds, decimal, digit_char, digits_value, eq_ignore_case, fold_char, in_class, run_end, CharClass};

verus! {

/// `count` compared with `amount`, written out case by case.
pub open spec fn compares(count: nat, relationship: Ordering, amount: nat) -> bool {
    ||| (relationship == Ordering::Less && count < amount)
    ||| (relationship == Ordering::Equal && count == amount)
    ||| (relationship == Ordering::Greater && count > amount)
}

/// `c` with its relationship replaced by `relationship`.
pub open spec fn with_relationship(c: ConditionView, relationship: Ordering) -> ConditionView {
    match c {
        ConditionView::CountEntity { name, amount, .. } => ConditionView::CountEntity {
            name,
            relationship,
            amount,
        },
        ConditionView::CountRoomType { room_type, amount, .. } => ConditionView::CountRoomType {
            room_type,
            relationship,
            amount,
        },
    }
}

proof fn lemma_entity_count_is_filter_len(names: Seq<Seq<char>>, name: Seq<char>)
    ensures
        entity_count(names, name) == names.filter(|n: Seq<char>| eq_ignore_case(n, name)).len(),
    decreases names.len(),
{
    reveal(Seq::filter);
    if names.len() > 0 {
        lemma_entity_count_is_filter_len(names.drop_last(), name);
    }
}

proof fn lemma_room_count_is_filter_len(rooms: Seq<RoomType>, room_type: RoomType)
    ensures
        room_count(rooms, room_type) == rooms.filter(|t: RoomType| t == room_type).len(),
    decreases rooms.len(),
{
    reveal(Seq::filter);
    if rooms.len() > 0 {
        lemma_room_count_is_filter_len(rooms.drop_last(), room_type);
    }
}

/// A condition read from text holds on a layout exactly when the number of
/// entities whose name equals the condition's name ignoring case (or of map
/// units of the condition's room type), counted directly, compares with the
/// amount as the condition's comparator says.
pub proof fn lemma_parsed_condition_agrees_with_direct_count(text: Seq<char>, layout: LayoutView)
    requires
        parse_view(text) is Ok,
    ensures
        match parse_view(text)->Ok_0 {
            ConditionView::CountEntity { name, relationship, amount } => holds_on(
                parse_view(text)->Ok_0,
                layout,
            ) == compares(
                layout.entity_names.filter(|n: Seq<char>| eq_ignore_case(n, name)).len(),
                relationship,
                amount,
            ),
            ConditionView::CountRoomType { room_type, relationship, amount } => holds_on(
                parse_view(text)->Ok_0,
                layout,
            ) == compares(
                layout.room_types.filter(|t: RoomType| t == room_type).len(),
                relationship,
                amount,
            ),
        },
{
    match parse_view(text)->Ok_0 {
        ConditionView::CountEntity { name, .. } => {
            lemma_entity_count_is_filter_len(layout.entity_names, name);
        },
        ConditionView::CountRoomType { room_type, .. } => {
            lemma_room_count_is_filter_len(layout.room_types, room_type);
        },
    }
}

/// For a fixed layout, name or room type, and amount, exactly one of the
/// three comparators gives a condition that holds.
pub proof fn lemma_exactly_one_comparator_holds(c: ConditionView, layout: LayoutView)
    ensures
        ({
            let less = holds_on(with_relationship(c, Ordering::Less), layout);
            let equal = holds_on(with_relationship(c, Ordering::Equal), layout);
            let greater = holds_on(with_relationship(c, Ordering::Greater), layout);
            &&& less || equal || greater
            &&& !(less && equal)
            &&& !(less && greater)
            &&& !(equal && greater)
        }),
{
}

proof fn lemma_entity_count_ignores_case(names: Seq<Seq<char>>, a: Seq<char>, b: Seq<char>)
    requires
        eq_ignore_case(a, b),
    ensures
        entity_count(names, a) == entity_count(names, b),
    decreases names.len(),
{
    if names.len() > 0 {
        lemma_entity_count_ignores_case(names.drop_last(), a, b);
        let last = names.last();
        if eq_ignore_case(last, a) {
            assert(eq_ignore_case(last, b));
        }
        if eq_ignore_case(last, b) {
            assert(eq_ignore_case(last, a));
        }
    }
}

/// Whether an entity count holds does not depend on the ASCII case in which
/// its name is written.
pub proof fn lemma_entity_name_case_does_not_matter(
    a: Seq<char>,
    b: Seq<char>,
    relationship: Ordering,
    amount: nat,
    layout: LayoutView,
)
    requires
        eq_ignore_case(a, b),
    ensures
        holds_on(ConditionView::CountEntity { name: a, relationship, amount }, layout) == holds_on(
            ConditionView::CountEntity { name: b, relationship, amount },
            layout,
        ),
{
    lemma_entity_count_ignores_case(layout.entity_names, a, b);
}

proof fn lemma_no_matching_entities(names: Seq<Seq<char>>, name: Seq<char>)
    requires
        forall|k: int| 0 <= k < names.len() ==> !eq_ignore_case(#[trigger] names[k], name),
    ensures
        entity_count(names, name) == 0,
    decreases names.len(),
{
    if names.len() > 0 {
        assert(!eq_ignore_case(names[names.len() - 1], name));
        lemma_no_matching_entities(names.drop_last(), name);
    }
}

proof fn lemma_no_matching_rooms(rooms: Seq<RoomType>, room_type: RoomType)
    requires
        forall|k: int| 0 <= k < rooms.len() ==> #[trigger] rooms[k] != room_type,
    ensures
        room_count(rooms, room_type) == 0,
    decreases rooms.len(),
{
    if rooms.len() > 0 {
        assert(rooms[rooms.len() - 1] != room_type);
        lemma_no_matching_rooms(rooms.drop_last(), room_type);
    }
}

/// An entity count of zero with `=` holds on a layout where no entity's
/// name equals the condition's name.
pub proof fn lemma_zero_equal_entities_holds(name: Seq<char>, layout: LayoutView)
    requires
        forall|k: int|
            0 <= k < layout.entity_names.len() ==> !eq_ignore_case(
                #[trigger] layout.entity_names[k],
                name,
            ),
    ensures
        holds_on(
            ConditionView::CountEntity { name, relationship: Ordering::Equal, amount: 0 },
            layout,
        ),
{
    lemma_no_matching_entities(layout.entity_names, name);
}

/// A room-type count of zero with `=` holds on a layout where no map unit
/// has that room type.
pub proof fn lemma_zero_equal_rooms_holds(room_type: RoomType, layout: LayoutView)
    requires
        forall|k: int| 0 <= k < layout.room_types.len() ==> #[trigger] layout.room_types[k] != room_type,
    ensures
        holds_on(
            ConditionView::CountRoomType { room_type, relationship: Ordering::Equal, amount: 0 },
            layout,
        ),
{
    lemma_no_matching_rooms(layout.room_types, room_type);
}

/// A condition whose canonical text the parser can read: an entity name is
/// a non-empty run of word characters, and the amount fits in a `usize`.
pub open spec fn readable(c: ConditionView) -> bool {
    match c {
        ConditionView::CountEntity { name, amount, .. } => {
            &&& name.len() > 0
            &&& forall|k: int| 0 <= k < name.len() ==> in_class(#[trigger] name[k], CharClass::WordChar)
            &&& amount <= usize::MAX
        },
        ConditionView::CountRoomType { amount, .. } => amount <= usize::MAX,
    }
}

proof fn lemma_run_end_at(s: Seq<char>, i: int, j: int, class: CharClass)
    requires
        0 <= i <= j <= s.len(),
        forall|k: int| i <= k < j ==> in_class(#[trigger] s[k], class),
        j == s.len() || !in_class(s[j], class),
    ensures
        run_end(s, i, class) == j,
    decreases j - i,
{
    if i < j {
        lemma_run_end_at(s, i + 1, j, class);
    }
}

proof fn lemma_decimal_reads_back(n: nat)
    ensures
        decimal(n).len() > 0,
        forall|k: int| 0 <= k < decimal(n).len() ==> in_class(#[trigger] decimal(n)[k], CharClass::Digit),
        digits_value(decimal(n)) == n,
    decreases n,
{
    let d = digit_char(n % 10);
    assert(in_class(d, CharClass::Digit) && (d as u32) - 48 == n % 10);
    if n >= 10 {
        lemma_decimal_reads_back(n / 10);
        let prev = decimal(n / 10);
        assert(decimal(n).drop_last() =~= prev);
        assert(decimal(n).last() == d);
        assert(digits_value(decimal(n)) == digits_value(prev) * 10 + ((d as u32) - 48) as nat);
        assert((n / 10) * 10 + n % 10 == n);
        assert forall|k: int| 0 <= k < decimal(n).len() implies in_class(
            #[trigger] decimal(n)[k],
            CharClass::Digit,
        ) by {
            if k < prev.len() {
                assert(decimal(n)[k] == prev[k]);
            }
        }
    } else {
        assert(decimal(n).drop_last() =~= Seq::<char>::empty());
        assert(decimal(n).last() == d);
        assert(digits_value(Seq::<char>::empty()) == 0);
        assert(digits_value(decimal(n)) == ((d as u32) - 48) as nat);
    }
}

/// Every character of `s` is a space or a tab.
pub open spec fn all_blank(s: Seq<char>) -> bool {
    forall|k: int| 0 <= k < s.len() ==> in_class(#[trigger] s[k], CharClass::Blank)
}

proof fn lemma_body_reads_back(
    prefix: Seq<char>,
    word: Seq<char>,
    before: Seq<char>,
    rel: Ordering,
    after: Seq<char>,
    n: nat,
)
    requires
        word.len() > 0,
        forall|k: int| 0 <= k < word.len() ==> in_class(#[trigger] word[k], CharClass::WordChar),
        all_blank(before),
        all_blank(after),
        n <= usize::MAX,
    ensures
        body_view(prefix + word + before + seq![symbol_of(rel)] + after + decimal(n), prefix.len() as int)
            == Some((word, rel, n)),
{
    let digits = decimal(n);
    let s = prefix + word + before + seq![symbol_of(rel)] + after + digits;
    let p = prefix.len() as int;
    let w = word.len() as int;
    let c = p + w + before.len();
    let ds = c + 1 + after.len();
    lemma_decimal_reads_back(n);
    assert forall|k: int| p <= k < p + w implies in_class(#[trigger] s[k], CharClass::WordChar) by {
        assert(s[k] == word[k - p]);
    }
    assert forall|k: int| p + w <= k < c implies in_class(#[trigger] s[k], CharClass::Blank) by {
        assert(s[k] == before[k - p - w]);
    }
    assert(s[c] == symbol_of(rel));
    assert(!in_class(s[p + w], CharClass::WordChar)) by {
        if before.len() > 0 {
            assert(s[p + w] == before[0]);
        }
    }
    lemma_run_end_at(s, p, p + w, CharClass::WordChar);
    lemma_run_end_at(s, p + w, c, CharClass::Blank);
    assert(relationship_of(s[c]) == Some(rel));
    assert forall|k: int| c + 1 <= k < ds implies in_class(#[trigger] s[k], CharClass::Blank) by {
        assert(s[k] == after[k - c - 1]);
    }
    assert(s[ds] == digits[0]);
    lemma_run_end_at(s, c + 1, ds, CharClass::Blank);
    assert forall|k: int| ds <= k < s.len() implies in_class(#[trigger] s[k], CharClass::Digit) by {
        assert(s[k] == digits[k - ds]);
    }
    lemma_run_end_at(s, ds, s.len() as int, CharClass::Digit);
    lemma_run_end_at(s, s.len() as int, s.len() as int, CharClass::Blank);
    assert(s.subrange(p, p + w) =~= word);
    assert(s.subrange(ds, s.len() as int) =~= digits);
}

proof fn lemma_keyword_reads_back(lead: Seq<char>, keyword: Seq<char>, gap: Seq<char>, rest: Seq<char>)
    requires
        all_blank(lead),
        keyword.len() > 0,
        forall|k: int| 0 <= k < keyword.len() ==> in_class(#[trigger] keyword[k], CharClass::KeywordChar),
        gap.len() > 0,
        all_blank(gap),
        rest.len() > 0,
        !in_class(rest[0], CharClass::Blank),
    ensures
        ({
            let s = lead + keyword + gap + rest;
            let l = lead.len() as int;
            let e = l + keyword.len();
            &&& run_end(s, 0, CharClass::Blank) == l
            &&& run_end(s, l, CharClass::KeywordChar) == e
            &&& run_end(s, e, CharClass::Blank) == e + gap.len()
            &&& s.subrange(l, e) == keyword
        }),
{
    let s = lead + keyword + gap + rest;
    let l = lead.len() as int;
    let e = l + keyword.len();
    assert forall|k: int| 0 <= k < l implies in_class(#[trigger] s[k], CharClass::Blank) by {
        assert(s[k] == lead[k]);
    }
    assert(s[l] == keyword[0]);
    lemma_run_end_at(s, 0, l, CharClass::Blank);
    assert forall|k: int| l <= k < e implies in_class(#[trigger] s[k], CharClass::KeywordChar) by {
        assert(s[k] == keyword[k - l]);
    }
    assert(s[e] == gap[0]);
    lemma_run_end_at(s, l, e, CharClass::KeywordChar);
    assert forall|k: int| e <= k < e + gap.len() implies in_class(#[trigger] s[k], CharClass::Blank) by {
        assert(s[k] == gap[k - e]);
    }
    assert(s[e + gap.len()] == rest[0]);
    lemma_run_end_at(s, e, e + gap.len(), CharClass::Blank);
    assert(s.subrange(l, e) =~= keyword);
}

proof fn lemma_room_token_reads_back(room_type: RoomType)
    ensures
        room_type_of(room_token(room_type)) == Some(room_type),
{
    let token = room_token(room_type);
    assert(eq_ignore_case(token, token));
    if room_type != RoomType::Room {
        assert(fold_char(token[0]) != fold_char('r'));
    }
}

proof fn lemma_keywords_read_back()
    ensures
        eq_ignore_case(count_keyword(), count_keyword()),
        eq_ignore_case(count_unit_keyword(), count_unit_keyword()),
        !eq_ignore_case(count_unit_keyword(), count_keyword()),
        forall|k: int|
            0 <= k < count_keyword().len() ==> in_class(
                #[trigger] count_keyword()[k],
                CharClass::KeywordChar,
            ),
        forall|k: int|
            0 <= k < count_unit_keyword().len() ==> in_class(
                #[trigger] count_unit_keyword()[k],
                CharClass::KeywordChar,
            ),
{
}

/// The text of `c` with the given blanks: `lead` before the keyword, `gap`
/// after it, and `before` and `after` around the comparator.
pub open spec fn spaced_text(
    c: ConditionView,
    lead: Seq<char>,
    gap: Seq<char>,
    before: Seq<char>,
    after: Seq<char>,
) -> Seq<char> {
    match c {
        ConditionView::CountEntity { name, relationship, amount } => lead + count_keyword() + gap
            + name + before + seq![symbol_of(relationship)] + after + decimal(amount),
        ConditionView::CountRoomType { room_type, relationship, amount } => lead
            + count_unit_keyword() + gap + room_token(room_type) + before + seq![
            symbol_of(relationship),
        ] + after + decimal(amount),
    }
}

proof fn lemma_entity_text_reads_back(
    name: Seq<char>,
    relationship: Ordering,
    amount: nat,
    lead: Seq<char>,
    gap: Seq<char>,
    before: Seq<char>,
    after: Seq<char>,
)
    requires
        readable(ConditionView::CountEntity { name, relationship, amount }),
        all_blank(lead),
        all_blank(gap),
        gap.len() > 0,
        all_blank(before),
        all_blank(after),
    ensures
        parse_view(
            spaced_text(ConditionView::CountEntity { name, relationship, amount }, lead, gap, before, after),
        ) == Ok::<ConditionView, ErrorView>(
            ConditionView::CountEntity { name, relationship, amount },
        ),
{
    let c = ConditionView::CountEntity { name, relationship, amount };
    let tail = before + seq![symbol_of(relationship)] + after + decimal(amount);
    let rest = name + tail;
    let prefix = lead + count_keyword() + gap;
    assert(spaced_text(c, lead, gap, before, after) =~= lead + count_keyword() + gap + rest);
    assert(rest[0] == name[0]);
    assert(in_class(name[0], CharClass::WordChar));
    lemma_keywords_read_back();
    lemma_keyword_reads_back(lead, count_keyword(), gap, rest);
    assert(spaced_text(c, lead, gap, before, after) =~= prefix + name + before + seq![
        symbol_of(relationship),
    ] + after + decimal(amount));
    lemma_body_reads_back(prefix, name, before, relationship, after, amount);
}

proof fn lemma_room_text_reads_back(
    room_type: RoomType,
    relationship: Ordering,
    amount: nat,
    lead: Seq<char>,
    gap: Seq<char>,
    before: Seq<char>,
    after: Seq<char>,
)
    requires
        amount <= usize::MAX,
        all_blank(lead),
        all_blank(gap),
        gap.len() > 0,
        all_blank(before),
        all_blank(after),
    ensures
        parse_view(
            spaced_text(ConditionView::CountRoomType { room_type, relationship, amount }, lead, gap, before, after),
        ) == Ok::<ConditionView, ErrorView>(
            ConditionView::CountRoomType { room_type, relationship, amount },
        ),
{
    let c = ConditionView::CountRoomType { room_type, relationship, amount };
    let token = room_token(room_type);
    let tail = before + seq![symbol_of(relationship)] + after + decimal(amount);
    let rest = token + tail;
    let prefix = lead + count_unit_keyword() + gap;
    assert(spaced_text(c, lead, gap, before, after) =~= lead + count_unit_keyword() + gap + rest);
    assert(rest[0] == token[0]);
    lemma_keywords_read_back();
    lemma_keyword_reads_back(lead, count_unit_keyword(), gap, rest);
    assert(spaced_text(c, lead, gap, before, after) =~= prefix + token + before + seq![
        symbol_of(relationship),
    ] + after + decimal(amount));
    lemma_body_reads_back(prefix, token, before, relationship, after, amount);
    lemma_room_token_reads_back(room_type);
}

/// Blanks are free between the tokens of a condition: any run of spaces and
/// tabs before the keyword, a non-empty one after it, and any around the
/// comparator, give text that reads as the same condition.
pub proof fn lemma_blanks_between_tokens_do_not_matter(
    c: ConditionView,
    lead: Seq<char>,
    gap: Seq<char>,
    before: Seq<char>,
    after: Seq<char>,
)
    requires
        readable(c),
        all_blank(lead),
        all_blank(gap),
        gap.len() > 0,
        all_blank(before),
        all_blank(after),
    ensures
        parse_view(spaced_text(c, lead, gap, before, after)) == Ok::<ConditionView, ErrorView>(c),
{
    match c {
        ConditionView::CountEntity { name, relationship, amount } => {
            lemma_entity_text_reads_back(name, relationship, amount, lead, gap, before, after);
        },
        ConditionView::CountRoomType { room_type, relationship, amount } => {
            lemma_room_text_reads_back(room_type, relationship, amount, lead, gap, before, after);
        },
    }
}

/// The canonical text of a readable condition reads back as that condition.
pub proof fn lemma_render_then_parse(c: ConditionView)
    requires
        readable(c),
    ensures
        parse_view(render_view(c)) == Ok::<ConditionView, ErrorView>(c),
{
    let one = seq![' '];
    assert(render_view(c) =~= spaced_text(c, Seq::empty(), one, one, one));
    lemma_blanks_between_tokens_do_not_matter(c, Seq::empty(), one, one, one);
}

/// Every condition read from text is readable, so its canonical text reads
/// back as the same condition.
pub proof fn lemma_parsed_condition_renders_back(text: Seq<char>)
    requires
        parse_view(text) is Ok,
    ensures
        readable(parse_view(text)->Ok_0),
        parse_view(render_view(parse_view(text)->Ok_0)) == parse_view(text),
{
    let kw_start = run_end(text, 0, CharClass::Blank);
    lemma_run_end_bounds(text, 0, CharClass::Blank);
    let kw_end = run_end(text, kw_start, CharClass::KeywordChar);
    lemma_run_end_bounds(text, kw_start, CharClass::KeywordChar);
    let body_start = run_end(text, kw_end, CharClass::Blank);
    lemma_run_end_bounds(text, kw_end, CharClass::Blank);
    lemma_run_end_bounds(text, body_start, CharClass::WordChar);
    let word_end = run_end(text, body_start, CharClass::WordChar);
    let word = text.subrange(body_start, word_end);
    assert forall|k: int| 0 <= k < word.len() implies in_class(
        #[trigger] word[k],
        CharClass::WordChar,
    ) by {
        assert(word[k] == text[body_start + k]);
    }
    lemma_render_then_parse(parse_view(text)->Ok_0);
}

} // verus!
