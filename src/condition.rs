//! The structured form of a condition, its mathematical model, and its
//! canonical text.
use std::cmp::Ordering;
use vstd::prelude::*;
use vstd::string::StringExecFns;

use crate::text::{decimal, digit_char};

verus! {

/// The classification of a map unit.
#[derive(Clone, Copy, Debug, PartialEq, Eq, Structural, Hash)]
pub enum RoomType {
    Room,
    DeadEnd,
    Hallway,
}

/// One atomic predicate over a layout.
#[derive(Debug, PartialEq, Eq)]
pub enum SearchCondition {
    /// The number of spawned entities whose name equals `name`, ignoring
    /// ASCII case, relates to `amount` as `relationship` says.
    CountEntity { name: String, relationship: Ordering, amount: usize },
    /// The number of map units of room type `room_type` relates to `amount`
    /// as `relationship` says.
    CountRoomType { room_type: RoomType, relationship: Ordering, amount: usize },
}

/// Why a text could not be read as a condition.
#[derive(Clone, Debug, PartialEq, Eq)]
pub enum SearchConditionError {
    /// The text does not follow the grammar.
    ParseError,
    /// A room token that names no room type; carries the token.
    InvalidArgument(String),
    /// A leading keyword that names no kind of condition; carries the keyword.
    UnknownCondition(String),
}

/// The model of a `SearchCondition`.
pub enum ConditionView {
    CountEntity { name: Seq<char>, relationship: Ordering, amount: nat },
    CountRoomType { room_type: RoomType, relationship: Ordering, amount: nat },
}

/// The model of a `SearchConditionError`.
pub enum ErrorView {
    ParseError,
    InvalidArgument(Seq<char>),
    UnknownCondition(Seq<char>),
}

impl View for SearchCondition {
    type V = ConditionView;

    open spec fn view(&self) -> ConditionView {
        match self {
            SearchCondition::CountEntity { name, relationship, amount } => ConditionView::CountEntity {
                name: name@,
                relationship: *relationship,
                amount: *amount as nat,
            },
            SearchCondition::CountRoomType { room_type, relationship, amount } => ConditionView::CountRoomType {
                room_type: *room_type,
                relationship: *relationship,
                amount: *amount as nat,
            },
        }
    }
}

impl View for SearchConditionError {
    type V = ErrorView;

    open spec fn view(&self) -> ErrorView {
        match self {
            SearchConditionError::ParseError => ErrorView::ParseError,
            SearchConditionError::InvalidArgument(t) => ErrorView::InvalidArgument(t@),
            SearchConditionError::UnknownCondition(k) => ErrorView::UnknownCondition(k@),
        }
    }
}

/// The model of a parse result.
pub open spec fn result_view(r: Result<SearchCondition, SearchConditionError>) -> Result<
    ConditionView,
    ErrorView,
> {
    match r {
        Ok(c) => Ok(c@),
        Err(e) => Err(e@),
    }
}

/// The keyword of entity counts.
pub open spec fn count_keyword() -> Seq<char> {
    seq!['c', 'o', 'u', 'n', 't']
}

/// The keyword of room-type counts.
pub open spec fn count_unit_keyword() -> Seq<char> {
    seq!['c', 'o', 'u', 'n', 't', '_', 'u', 'n', 'i', 't']
}

/// The comparator symbol of a relationship.
pub open spec fn symbol_of(rel: Ordering) -> char {
    match rel {
        Ordering::Less => '<',
        Ordering::Equal => '=',
        Ordering::Greater => '>',
    }
}

/// The token by which a room type is written in canonical text.
pub open spec fn room_token(t: RoomType) -> Seq<char> {
    match t {
        RoomType::Room => seq!['r', 'o', 'o', 'm'],
        RoomType::DeadEnd => seq!['c', 'a', 'p'],
        RoomType::Hallway => seq!['h', 'a', 'l', 'l', 'w', 'a', 'y'],
    }
}

/// The canonical text of a condition: `count <name> <symbol> <amount>` or
/// `count_unit <room> <symbol> <amount>`. Both forms use the keyword and
/// the tokens that the parser accepts, so the text reads back as the
/// same condition.
pub open spec fn render_view(c: ConditionView) -> Seq<char> {
    match c {
        ConditionView::CountEntity { name, relationship, amount } => count_keyword() + seq![' ']
            + name + seq![' ', symbol_of(relationship), ' '] + decimal(amount),
        ConditionView::CountRoomType { room_type, relationship, amount } => count_unit_keyword()
            + seq![' '] + room_token(room_type) + seq![' ', symbol_of(relationship), ' ']
            + decimal(amount),
    }
}

fn append_digit(out: &mut String, d: usize)
    requires
        d < 10,
    ensures
        final(out)@ == old(out)@ + seq![digit_char(d as nat)],
{
    proof {
        reveal_strlit("0");
        reveal_strlit("1");
        reveal_strlit("2");
        reveal_strlit("3");
        reveal_strlit("4");
        reveal_strlit("5");
        reveal_strlit("6");
        reveal_strlit("7");
        reveal_strlit("8");
        reveal_strlit("9");
    }
    let s = match d {
        0 => "0",
        1 => "1",
        2 => "2",
        3 => "3",
        4 => "4",
        5 => "5",
        6 => "6",
        7 => "7",
        8 => "8",
        _ => "9",
    };
    assert(s@ =~= seq![digit_char(d as nat)]);
    out.append(s);
}

fn append_decimal(out: &mut String, n: usize)
    ensures
        final(out)@ == old(out)@ + decimal(n as nat),
    decreases n,
{
    if n >= 10 {
        append_decimal(out, n / 10);
        append_digit(out, n % 10);
        assert(final(out)@ =~= old(out)@ + decimal(n as nat));
    } else {
        append_digit(out, n);
        assert(final(out)@ =~= old(out)@ + decimal(n as nat));
    }
}

fn append_symbol(out: &mut String, rel: Ordering)
    ensures
        final(out)@ == old(out)@ + seq![' ', symbol_of(rel), ' '],
{
    proof {
        reveal_strlit(" < ");
        reveal_strlit(" = ");
        reveal_strlit(" > ");
    }
    let s = match rel {
        Ordering::Less => " < ",
        Ordering::Equal => " = ",
        Ordering::Greater => " > ",
    };
    assert(s@ =~= seq![' ', symbol_of(rel), ' ']);
    out.append(s);
}

impl Clone for SearchCondition {
    fn clone(&self) -> (r: Self)
        ensures
            r@ == self@,
    {
        match self {
            SearchCondition::CountEntity { name, relationship, amount } => {
                SearchCondition::CountEntity {
                    name: name.clone(),
                    relationship: *relationship,
                    amount: *amount,
                }
            },
            SearchCondition::CountRoomType { room_type, relationship, amount } => {
                SearchCondition::CountRoomType {
                    room_type: *room_type,
                    relationship: *relationship,
                    amount: *amount,
                }
            },
        }
    }
}

impl SearchCondition {
    /// The canonical text of this condition.
    pub fn render(&self) -> (r: String)
        ensures
            r@ == render_view(self@),
    {
        proof {
            reveal_strlit("count ");
            reveal_strlit("count_unit ");
            reveal_strlit("room");
            reveal_strlit("cap");
            reveal_strlit("hallway");
        }
        let mut out = String::new();
        match self {
            SearchCondition::CountEntity { name, relationship, amount } => {
                assert("count "@ =~= count_keyword() + seq![' ']);
                out.append("count ");
                out.append(name.as_str());
                append_symbol(&mut out, *relationship);
                append_decimal(&mut out, *amount);
            },
            SearchCondition::CountRoomType { room_type, relationship, amount } => {
                assert("count_unit "@ =~= count_unit_keyword() + seq![' ']);
                out.append("count_unit ");
                let token = match room_type {
                    RoomType::Room => "room",
                    RoomType::DeadEnd => "cap",
                    RoomType::Hallway => "hallway",
                };
                assert(token@ =~= room_token(*room_type));
                out.append(token);
                append_symbol(&mut out, *relationship);
                append_decimal(&mut out, *amount);
            },
        }
        assert(out@ =~= render_view(self@));
        out
    }
}

} // verus!
