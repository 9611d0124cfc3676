use std::cmp::Ordering;

use layout_search::{Layout, RoomType, SearchCondition, SearchConditionError};

fn layout(names: &[&str], rooms: &[RoomType]) -> Layout {
    Layout::new(names.iter().map(|n| n.to_string()).collect(), rooms.to_vec())
}

fn sample_layout() -> Layout {
    layout(
        &["Bulborb", "Bulborb", "Bulborb", "Chocolate", "Dwarf Bulborb"],
        &[RoomType::Hallway, RoomType::Room, RoomType::Hallway, RoomType::DeadEnd],
    )
}

fn entity(name: &str, relationship: Ordering, amount: usize) -> SearchCondition {
    SearchCondition::CountEntity { name: name.to_string(), relationship, amount }
}

fn rooms(room_type: RoomType, relationship: Ordering, amount: usize) -> SearchCondition {
    SearchCondition::CountRoomType { room_type, relationship, amount }
}

#[test]
fn parse_then_match_agrees_with_direct_count() {
    let l = sample_layout();
    for text in [
        "count bulborb > 2",
        "count bulborb = 3",
        "count bulborb < 3",
        "count chocolate = 1",
        "count pellet = 0",
        "count_unit hall = 2",
        "count_unit room > 0",
        "count_unit cap < 1",
    ] {
        let c = SearchCondition::parse(text).unwrap();
        let (count, relationship, amount) = match &c {
            SearchCondition::CountEntity { name, relationship, amount } => (
                l.spawn_object_names.iter().filter(|n| n.eq_ignore_ascii_case(name)).count(),
                *relationship,
                *amount,
            ),
            SearchCondition::CountRoomType { room_type, relationship, amount } => (
                l.map_unit_room_types.iter().filter(|t| *t == room_type).count(),
                *relationship,
                *amount,
            ),
        };
        assert_eq!(c.matches(&l), count.cmp(&amount) == relationship, "{}", text);
    }
}

#[test]
fn name_matches_ignoring_case() {
    let c = SearchCondition::parse("count Foo = 1").unwrap();
    assert!(c.matches(&layout(&["FOO"], &[])));
    assert!(c.matches(&layout(&["foo", "bar"], &[])));
    assert!(!c.matches(&layout(&["FOO", "foo"], &[])));
    assert!(!c.matches(&layout(&["FOOD"], &[])));
}

#[test]
fn whitespace_is_flexible() {
    let spaced = SearchCondition::parse("count  foo   >  2").unwrap();
    let tight = SearchCondition::parse("count foo>2").unwrap();
    let tabbed = SearchCondition::parse(" \tcount\tfoo\t> 2\t ").unwrap();
    assert_eq!(spaced, entity("foo", Ordering::Greater, 2));
    assert_eq!(tight, spaced);
    assert_eq!(tabbed, spaced);
}

#[test]
fn keyword_needs_following_blank() {
    assert_eq!(SearchCondition::parse("count"), Err(SearchConditionError::ParseError));
    assert_eq!(SearchCondition::parse("   "), Err(SearchConditionError::ParseError));
    assert_eq!(SearchCondition::parse(""), Err(SearchConditionError::ParseError));
    assert_eq!(SearchCondition::parse("= count foo 1"), Err(SearchConditionError::ParseError));
}

#[test]
fn exactly_one_comparator_holds() {
    let l = sample_layout();
    for amount in 0..6 {
        let hits = [Ordering::Less, Ordering::Equal, Ordering::Greater]
            .iter()
            .filter(|r| entity("bulborb", **r, amount).matches(&l))
            .count();
        assert_eq!(hits, 1);
        let hits = [Ordering::Less, Ordering::Equal, Ordering::Greater]
            .iter()
            .filter(|r| rooms(RoomType::Hallway, **r, amount).matches(&l))
            .count();
        assert_eq!(hits, 1);
    }
}

#[test]
fn room_tokens_map_to_room_types() {
    assert_eq!(
        SearchCondition::parse("count_unit cap = 0"),
        Ok(rooms(RoomType::DeadEnd, Ordering::Equal, 0))
    );
    assert_eq!(
        SearchCondition::parse("count_unit hall > 1"),
        Ok(rooms(RoomType::Hallway, Ordering::Greater, 1))
    );
    assert_eq!(
        SearchCondition::parse("count_unit alcove < 4"),
        Ok(rooms(RoomType::DeadEnd, Ordering::Less, 4))
    );
    assert_eq!(
        SearchCondition::parse("count_unit HallWay = 3"),
        Ok(rooms(RoomType::Hallway, Ordering::Equal, 3))
    );
    assert_eq!(
        SearchCondition::parse("COUNT_UNIT Room > 0"),
        Ok(rooms(RoomType::Room, Ordering::Greater, 0))
    );
}

#[test]
fn unknown_room_token_is_invalid_argument() {
    assert_eq!(
        SearchCondition::parse("count_unit foo = 1"),
        Err(SearchConditionError::InvalidArgument("foo".to_string()))
    );
    assert_eq!(
        SearchCondition::parse("count_unit deadend = 1"),
        Err(SearchConditionError::InvalidArgument("deadend".to_string()))
    );
}

#[test]
fn malformed_room_condition_is_parse_error() {
    assert_eq!(SearchCondition::parse("count_unit foo"), Err(SearchConditionError::ParseError));
    assert_eq!(SearchCondition::parse("count_unit room ! 1"), Err(SearchConditionError::ParseError));
}

#[test]
fn unknown_keyword_is_typed_error() {
    assert_eq!(
        SearchCondition::parse("frobnicate foo = 1"),
        Err(SearchConditionError::UnknownCondition("frobnicate".to_string()))
    );
    assert_eq!(
        SearchCondition::parse("  Count-Entity foo = 1"),
        Err(SearchConditionError::UnknownCondition("Count-Entity".to_string()))
    );
}

#[test]
fn keyword_ignores_case() {
    assert_eq!(SearchCondition::parse("COUNT foo = 1"), Ok(entity("foo", Ordering::Equal, 1)));
    assert_eq!(SearchCondition::parse("Count foo < 9"), Ok(entity("foo", Ordering::Less, 9)));
}

#[test]
fn name_keeps_its_case_and_word_characters() {
    assert_eq!(
        SearchCondition::parse("count Egg_2-b = 5"),
        Ok(entity("Egg_2-b", Ordering::Equal, 5))
    );
}

#[test]
fn zero_equal_holds_on_layout_without_matches() {
    let empty = layout(&[], &[]);
    assert!(SearchCondition::parse("count bulborb = 0").unwrap().matches(&empty));
    assert!(SearchCondition::parse("count_unit room = 0").unwrap().matches(&empty));
    let other = layout(&["Chocolate"], &[RoomType::Hallway]);
    assert!(SearchCondition::parse("count bulborb = 0").unwrap().matches(&other));
    assert!(SearchCondition::parse("count_unit cap = 0").unwrap().matches(&other));
    assert!(!SearchCondition::parse("count_unit hall = 0").unwrap().matches(&other));
}

#[test]
fn end_to_end_example() {
    let l = layout(
        &["Bulborb", "Bulborb", "Bulborb"],
        &[RoomType::Hallway, RoomType::Hallway],
    );
    assert!(SearchCondition::parse("count bulborb > 2").unwrap().matches(&l));
    assert!(SearchCondition::parse("count_unit hall = 2").unwrap().matches(&l));
    assert!(!SearchCondition::parse("count_unit room > 5").unwrap().matches(&l));
}

#[test]
fn malformed_text_is_parse_error() {
    for text in [
        "count foo",
        "count foo =",
        "count = 2",
        "count foo <= 2",
        "count foo != 2",
        "count foo = two",
        "count foo = -2",
        "count foo = 2 extra",
        "count foo = 2x",
        "count foo bar = 2",
    ] {
        assert_eq!(SearchCondition::parse(text), Err(SearchConditionError::ParseError), "{}", text);
    }
}

#[test]
fn amount_is_decimal_up_to_usize_max() {
    assert_eq!(SearchCondition::parse("count foo = 007"), Ok(entity("foo", Ordering::Equal, 7)));
    assert_eq!(SearchCondition::parse("count foo = 1234"), Ok(entity("foo", Ordering::Equal, 1234)));
    let max = format!("count foo < {}", usize::MAX);
    assert_eq!(SearchCondition::parse(&max), Ok(entity("foo", Ordering::Less, usize::MAX)));
    let over = format!("count foo < {}0", usize::MAX);
    assert_eq!(SearchCondition::parse(&over), Err(SearchConditionError::ParseError));
}

#[test]
fn trailing_blanks_are_accepted() {
    assert_eq!(SearchCondition::parse("count foo = 2   "), Ok(entity("foo", Ordering::Equal, 2)));
}

#[test]
fn less_and_greater_compare_counts() {
    let l = sample_layout();
    assert!(entity("bulborb", Ordering::Less, 4).matches(&l));
    assert!(!entity("bulborb", Ordering::Less, 3).matches(&l));
    assert!(entity("bulborb", Ordering::Greater, 2).matches(&l));
    assert!(!entity("bulborb", Ordering::Greater, 3).matches(&l));
    assert!(rooms(RoomType::DeadEnd, Ordering::Equal, 1).matches(&l));
    assert!(rooms(RoomType::Room, Ordering::Less, 2).matches(&l));
}

#[test]
fn render_gives_canonical_text() {
    assert_eq!(entity("Bulborb", Ordering::Greater, 2).render(), "count Bulborb > 2");
    assert_eq!(entity("x", Ordering::Less, 0).render(), "count x < 0");
    assert_eq!(entity("egg", Ordering::Equal, 1050).render(), "count egg = 1050");
    assert_eq!(rooms(RoomType::Hallway, Ordering::Equal, 2).render(), "count_unit hallway = 2");
    assert_eq!(rooms(RoomType::DeadEnd, Ordering::Less, 10).render(), "count_unit cap < 10");
    assert_eq!(rooms(RoomType::Room, Ordering::Greater, 5).render(), "count_unit room > 5");
}

#[test]
fn rendered_text_parses_back() {
    for c in [
        entity("Bulborb", Ordering::Greater, 2),
        entity("a-b_3", Ordering::Equal, usize::MAX),
        rooms(RoomType::Hallway, Ordering::Equal, 2),
        rooms(RoomType::DeadEnd, Ordering::Less, 0),
        rooms(RoomType::Room, Ordering::Greater, 99),
    ] {
        assert_eq!(SearchCondition::parse(&c.render()), Ok(c.clone()));
    }
}

#[test]
fn clone_keeps_condition() {
    let c = entity("Bulborb", Ordering::Greater, 2);
    assert_eq!(c.clone(), c);
}

#[test]
fn case_folding_is_ascii_only() {
    assert!(layout_search::text::str_eq_ignore_case("BuLbOrB", "bulborb"));
    assert!(!layout_search::text::str_eq_ignore_case("É", "é"));
    assert!(!layout_search::text::str_eq_ignore_case("bulb", "bulborb"));
    let c = SearchCondition::parse("count CAFÉ = 1");
    assert_eq!(c, Err(SearchConditionError::ParseError));
    let accented = entity("café", Ordering::Equal, 1);
    assert!(accented.matches(&layout(&["CAFé"], &[])));
    assert!(!accented.matches(&layout(&["CAFÉ"], &[])));
}
