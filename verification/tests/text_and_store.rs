use continuwuity::json::{Json, JsonObject};
use continuwuity::matrix::{localpart_of, make_user_id, server_name_of};
use continuwuity::order::{rank_str, same_str, Rank};
use continuwuity::store::{Column, Key};
use continuwuity::text::{
    begins_with, decimal_text, find_char, finishes_with, glue, join, replace_char, split_at_char,
};
use continuwuity::time::{is_younger_than, millis_of, plus, secs_of, times};

#[test]
fn text_helpers() {
    assert_eq!(find_char("a:b:c", ':'), Some(1));
    assert_eq!(find_char("abc", ':'), None);
    assert!(begins_with("reverse", "rev"));
    assert!(!begins_with("re", "rev"));
    assert!(finishes_with("a.example.org", ".example.org"));
    assert!(!finishes_with("example.org", ".example.org"));
    assert_eq!(glue("a", "b"), "ab");
    assert_eq!(replace_char("a-b-c", '-', "_"), "a_b_c");
    assert_eq!(decimal_text(0), "0");
    assert_eq!(decimal_text(10), "10");
    assert_eq!(decimal_text(u64::MAX), "18446744073709551615");
}

#[test]
fn split_then_join_gives_the_text_back() {
    for text in ["", "a", "a b", " a  b ", "org.example.app"] {
        let parts = split_at_char(text, ' ');
        assert_eq!(join(&parts, " "), text);
    }
    assert_eq!(split_at_char("a  b", ' '), vec!["a".to_owned(), String::new(), "b".to_owned()]);
    assert_eq!(split_at_char("", ' '), vec![String::new()]);
}

#[test]
fn strings_are_ordered_by_their_bytes() {
    assert!(matches!(rank_str("a", "b"), Rank::Before));
    assert!(matches!(rank_str("b", "a"), Rank::After));
    assert!(matches!(rank_str("a", "a"), Rank::Same));
    assert!(matches!(rank_str("a", "ab"), Rank::Before));
    assert!(matches!(rank_str("Z", "a"), Rank::Before));
    assert!(matches!(rank_str("z", "\u{e9}"), Rank::Before));
    assert!(same_str("x", "x"));
    assert!(!same_str("x", "y"));
}

#[test]
fn points_in_time() {
    assert_eq!(secs_of(1_999_999_999), 1);
    assert_eq!(millis_of(1_999_999), 1);
    assert_eq!(plus(u64::MAX, 1), u64::MAX);
    assert_eq!(plus(2, 3), 5);
    assert_eq!(times(u64::MAX, 2), u64::MAX);
    assert_eq!(times(4, 5), 20);
    assert!(is_younger_than(10, 5, 6));
    assert!(!is_younger_than(11, 5, 6));
    assert!(!is_younger_than(4, 5, 6));
}

#[test]
fn user_ids_are_taken_apart() {
    assert_eq!(localpart_of("@alice:example.org"), "alice");
    assert_eq!(localpart_of("#room:example.org:8448"), "room");
    assert_eq!(server_name_of("@alice:example.org:8448"), Some("example.org:8448".to_owned()));
    assert_eq!(server_name_of("!room"), None);
    assert_eq!(make_user_id("alice", "example.org"), "@alice:example.org");
}

#[test]
fn columns_keep_their_rows_in_key_order() {
    let mut column: Column<String> = Column::new();
    column.insert(Key::pair("b", "1"), "b1".to_owned());
    column.insert(Key::pair("a", "2"), "a2".to_owned());
    column.insert(Key::pair("a", "1"), "old".to_owned());
    column.insert(Key::pair("a", "1"), "a1".to_owned());
    assert_eq!(column.len(), 3);
    assert_eq!(column.get(&Key::pair("a", "1")).map(String::as_str), Some("a1"));
    let all: Vec<String> = column.keys(None, None).iter().map(|k| glue(&k.first, &k.second)).collect();
    assert_eq!(all, vec!["a1", "a2", "b1"]);
    let under_a: Vec<String> = column.keys(Some("a"), None).iter().map(|k| k.second.clone()).collect();
    assert_eq!(under_a, vec!["1", "2"]);
    assert_eq!(column.take(&Key::pair("a", "2")), Some("a2".to_owned()));
    assert!(!column.contains(&Key::pair("a", "2")));
    column.remove_under(Some("a"), None);
    assert_eq!(column.len(), 1);
    column.remove(&Key::pair("b", "1"));
    assert_eq!(column.len(), 0);
}

#[test]
fn columns_tell_what_is_to_be_saved() {
    let mut column: Column<u64> = Column::new();
    column.load(Key::of("kept"), 1);
    assert_eq!(column.take_touched().len(), 0);
    column.insert(Key::counted("new", 7), 2);
    column.remove(&Key::of("kept"));
    let touched = column.take_touched();
    assert_eq!(touched.len(), 2);
    assert_eq!(touched[0].count, 7);
    assert_eq!(touched[1].first, "kept");
    assert_eq!(column.take_touched().len(), 0);
}

#[test]
fn keys_are_ranked_part_by_part() {
    assert!(matches!(Key::counted("a", 2).rank(&Key::counted("a", 10)), Rank::Before));
    assert!(matches!(Key::counters(1, 9).rank(&Key::counters(1, 8)), Rank::After));
    assert!(matches!(Key::triple("a", "b", "c").rank(&Key::triple("a", "b", "c")), Rank::Same));
}

#[test]
fn json_objects() {
    let mut object = JsonObject::new();
    object.insert("type", Json::String("m.room.member".to_owned()));
    object.insert("depth", Json::Integer(4));
    object.insert("depth", Json::Integer(5));
    assert_eq!(object.get_str("type"), Some("m.room.member"));
    assert!(matches!(object.get("depth"), Some(Json::Integer(5))));
    assert_eq!(object.get_str("depth"), None);
    assert!(object.get_object("type").is_none());
    assert_eq!(object.names().len(), 2);
    assert!(object.take("type").is_some());
    assert!(!object.contains_key("type"));
    object.remove("depth");
    assert!(object.names().is_empty());
}

#[test]
fn json_insert_then_remove_changes_nothing_else() {
    let mut object = JsonObject::new();
    object.insert("kept", Json::Bool(true));
    object.insert("gone", Json::Null);
    object.remove("gone");
    assert!(matches!(object.get("kept"), Some(Json::Bool(true))));
    assert!(object.get("gone").is_none());
}

#[test]
fn json_duplicates_read_alike() {
    let mut inner = JsonObject::new();
    inner.insert("x", Json::Integer(-3));
    let mut object = JsonObject::new();
    object.insert("list", Json::Array(vec![Json::Null, Json::String("s".to_owned())]));
    object.insert("inner", Json::Object(inner));
    let copy = Json::Object(object).duplicate();
    let copy = copy.as_object().unwrap();
    let list = copy.get("list").unwrap().as_array().unwrap();
    assert_eq!(list.len(), 2);
    assert_eq!(list[1].as_str(), Some("s"));
    assert!(matches!(copy.get_object("inner").unwrap().get("x"), Some(Json::Integer(-3))));
}
