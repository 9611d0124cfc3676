//! Reading a condition from text.
//!
//! Grammar, with `ws` a space or a tab:
//!
//! ```text
//! condition  := ws* keyword ws+ word ws* comparator ws* digits ws*
//! keyword    := (letter | '_' | '-')+
//! word       := (letter | digit | '_' | '-')+
//! comparator := '<' | '=' | '>'
//! ```
//!
//! The keyword is `count` (the word is an entity name) or `count_unit` (the
//! word is a room token), compared without regard to ASCII case. Nothing but
//! blanks may follow the amount, and the amount must fit in a `usize`.
use std::cmp::Ordering;
use vstd::prelude::*;
use vstd::string::StrSliceExecFns;

use crate::condition::{
    count_keyword, count_unit_keyword, result_view, ConditionView, ErrorView, RoomType,
    SearchCondition, SearchConditionError,
};
use crate::text::{
    digits_value, eq_ignore_case, in_class, lemma_run_end_bounds, range_eq_ignore_case, run_end,
    scan_run, CharClass,
};

verus! {

/// The relationship that a comparator character denotes.
pub open spec fn relationship_of(c: char) -> Option<Ordering> {
    if c == '<' {
        Some(Ordering::Less)
    } else if c == '=' {
        Some(Ordering::Equal)
    } else if c == '>' {
        Some(Ordering::Greater)
    } else {
        None
    }
}

/// The room type that a token names: `room`; `cap` or `alcove`; `hall` or
/// `hallway`; in any ASCII case.
pub open spec fn room_type_of(tok: Seq<char>) -> Option<RoomType> {
    if eq_ignore_case(tok, seq!['r', 'o', 'o', 'm']) {
        Some(RoomType::Room)
    } else if eq_ignore_case(tok, seq!['c', 'a', 'p']) || eq_ignore_case(
        tok,
        seq!['a', 'l', 'c', 'o', 'v', 'e'],
    ) {
        Some(RoomType::DeadEnd)
    } else if eq_ignore_case(tok, seq!['h', 'a', 'l', 'l']) || eq_ignore_case(
        tok,
        seq!['h', 'a', 'l', 'l', 'w', 'a', 'y'],
    ) {
        Some(RoomType::Hallway)
    } else {
        None
    }
}

/// The word, relationship and amount of the body that starts at `start`
/// in `s`, if the rest of `s` is a well-formed body.
pub open spec fn body_view(s: Seq<char>, start: int) -> Option<(Seq<char>, Ordering, nat)> {
    let word_end = run_end(s, start, CharClass::WordChar);
    let cmp_at = run_end(s, word_end, CharClass::Blank);
    let digits_start = run_end(s, cmp_at + 1, CharClass::Blank);
    let digits_end = run_end(s, digits_start, CharClass::Digit);
    let amount = digits_value(s.subrange(digits_start, digits_end));
    if word_end == start || cmp_at >= s.len() || relationship_of(s[cmp_at]) is None {
        None
    } else if digits_end == digits_start || run_end(s, digits_end, CharClass::Blank) != s.len()
        || amount > usize::MAX {
        None
    } else {
        Some((s.subrange(start, word_end), relationship_of(s[cmp_at])->Some_0, amount))
    }
}

/// What reading `s` as a condition gives.
pub open spec fn parse_view(s: Seq<char>) -> Result<ConditionView, ErrorView> {
    let kw_start = run_end(s, 0, CharClass::Blank);
    let kw_end = run_end(s, kw_start, CharClass::KeywordChar);
    let body_start = run_end(s, kw_end, CharClass::Blank);
    let keyword = s.subrange(kw_start, kw_end);
    if kw_end == kw_start || body_start == kw_end {
        Err(ErrorView::ParseError)
    } else if eq_ignore_case(keyword, count_keyword()) {
        match body_view(s, body_start) {
            None => Err(ErrorView::ParseError),
            Some((name, relationship, amount)) => Ok(
                ConditionView::CountEntity { name, relationship, amount },
            ),
        }
    } else if eq_ignore_case(keyword, count_unit_keyword()) {
        match body_view(s, body_start) {
            None => Err(ErrorView::ParseError),
            Some((token, relationship, amount)) => match room_type_of(token) {
                None => Err(ErrorView::InvalidArgument(token)),
                Some(room_type) => Ok(
                    ConditionView::CountRoomType { room_type, relationship, amount },
                ),
            },
        }
    } else {
        Err(ErrorView::UnknownCondition(keyword))
    }
}

fn relationship_from_char(c: char) -> (r: Option<Ordering>)
    ensures
        r == relationship_of(c),
{
    match c {
        '<' => Some(Ordering::Less),
        '=' => Some(Ordering::Equal),
        '>' => Some(Ordering::Greater),
        _ => None,
    }
}

/// The value of `text[from..to]`, a run of digits, or `None` where it
/// exceeds `usize::MAX`.
fn digits_to_usize(text: &str, from: usize, to: usize) -> (r: Option<usize>)
    requires
        from <= to <= text@.len(),
        forall|k: int| from <= k < to ==> in_class(#[trigger] text@[k], CharClass::Digit),
    ensures
        match r {
            Some(v) => v as nat == digits_value(text@.subrange(from as int, to as int)),
            None => digits_value(text@.subrange(from as int, to as int)) > usize::MAX,
        },
{
    let mut acc: usize = 0;
    let mut overflowed = false;
    let mut i: usize = from;
    assert(text@.subrange(from as int, from as int).len() == 0);
    while i < to
        invariant
            from <= i <= to <= text@.len(),
            forall|k: int| from <= k < to ==> in_class(#[trigger] text@[k], CharClass::Digit),
            !overflowed ==> acc as nat == digits_value(text@.subrange(from as int, i as int)),
            overflowed ==> digits_value(text@.subrange(from as int, i as int)) > usize::MAX,
        decreases to - i,
    {
        let c = text.get_char(i);
        assert(in_class(text@[i as int], CharClass::Digit));
        let d = ((c as u32) - 48) as usize;
        proof {
            let next = text@.subrange(from as int, i + 1);
            assert(next.drop_last() =~= text@.subrange(from as int, i as int));
            assert(next.last() == c);
        }
        if !overflowed {
            if acc > (usize::MAX - d) / 10 {
                overflowed = true;
            } else {
                acc = acc * 10 + d;
            }
        }
        i = i + 1;
    }
    if overflowed {
        None
    } else {
        Some(acc)
    }
}

/// Reads the body that starts at `start`: a word, a comparator and an amount,
/// with nothing but blanks after it.
fn parse_body(text: &str, len: usize, start: usize) -> (r: Option<(String, Ordering, usize)>)
    requires
        len == text@.len(),
        start <= len,
    ensures
        match r {
            None => body_view(text@, start as int) is None,
            Some((word, relationship, amount)) => body_view(text@, start as int) == Some(
                (word@, relationship, amount as nat),
            ),
        },
{
    let word_end = scan_run(text, len, start, CharClass::WordChar);
    let cmp_at = scan_run(text, len, word_end, CharClass::Blank);
    if word_end == start || cmp_at >= len {
        return None;
    }
    let relationship = match relationship_from_char(text.get_char(cmp_at)) {
        None => {
            return None;
        },
        Some(rel) => rel,
    };
    let digits_start = scan_run(text, len, cmp_at + 1, CharClass::Blank);
    let digits_end = scan_run(text, len, digits_start, CharClass::Digit);
    let tail_end = scan_run(text, len, digits_end, CharClass::Blank);
    if digits_end == digits_start || tail_end != len {
        return None;
    }
    proof {
        lemma_run_end_bounds(text@, digits_start as int, CharClass::Digit);
    }
    match digits_to_usize(text, digits_start, digits_end) {
        None => None,
        Some(amount) => {
            let word = text.substring_char(start, word_end).to_owned();
            Some((word, relationship, amount))
        },
    }
}

/// Maps a room token to its room type.
fn room_type_from_token(text: &str, from: usize, to: usize) -> (r: Option<RoomType>)
    requires
        from <= to <= text@.len(),
    ensures
        r == room_type_of(text@.subrange(from as int, to as int)),
{
    if range_eq_ignore_case(text, from, to, &vec!['r', 'o', 'o', 'm']) {
        Some(RoomType::Room)
    } else if range_eq_ignore_case(text, from, to, &vec!['c', 'a', 'p']) || range_eq_ignore_case(
        text,
        from,
        to,
        &vec!['a', 'l', 'c', 'o', 'v', 'e'],
    ) {
        Some(RoomType::DeadEnd)
    } else if range_eq_ignore_case(text, from, to, &vec!['h', 'a', 'l', 'l'])
        || range_eq_ignore_case(text, from, to, &vec!['h', 'a', 'l', 'l', 'w', 'a', 'y']) {
        Some(RoomType::Hallway)
    } else {
        None
    }
}

impl SearchCondition {
    /// Reads a condition from text. An unknown keyword and an unknown room
    /// token are errors of their own; every other departure from the grammar
    /// is a `ParseError`.
    pub fn parse(text: &str) -> (r: Result<SearchCondition, SearchConditionError>)
        ensures
            result_view(r) == parse_view(text@),
    {
        let len = text.unicode_len();
        let kw_start = scan_run(text, len, 0, CharClass::Blank);
        let kw_end = scan_run(text, len, kw_start, CharClass::KeywordChar);
        let body_start = scan_run(text, len, kw_end, CharClass::Blank);
        if kw_end == kw_start || body_start == kw_end {
            return Err(SearchConditionError::ParseError);
        }
        if range_eq_ignore_case(text, kw_start, kw_end, &vec!['c', 'o', 'u', 'n', 't']) {
            match parse_body(text, len, body_start) {
                None => Err(SearchConditionError::ParseError),
                Some((name, relationship, amount)) => Ok(
                    SearchCondition::CountEntity { name, relationship, amount },
                ),
            }
        } else if range_eq_ignore_case(
            text,
            kw_start,
            kw_end,
            &vec!['c', 'o', 'u', 'n', 't', '_', 'u', 'n', 'i', 't'],
        ) {
            let word_end = scan_run(text, len, body_start, CharClass::WordChar);
            match parse_body(text, len, body_start) {
                None => Err(SearchConditionError::ParseError),
                Some((token, relationship, amount)) => {
                    proof {
                        lemma_run_end_bounds(text@, body_start as int, CharClass::WordChar);
                    }
                    match room_type_from_token(text, body_start, word_end) {
                        None => Err(SearchConditionError::InvalidArgument(token)),
                        Some(room_type) => Ok(
                            SearchCondition::CountRoomType { room_type, relationship, amount },
                        ),
                    }
                },
            }
        } else {
            Err(
                SearchConditionError::UnknownCondition(
                    text.substring_char(kw_start, kw_end).to_owned(),
                ),
            )
        }
    }
}

} // verus!
