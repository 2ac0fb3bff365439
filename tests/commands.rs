use mgindb::command::{count, decr, format_command, incr, indices, query, schedule, sub, unsub};

#[test]
fn query_without_options_has_no_trailing_space() {
    assert_eq!(query("myKey", None, None), "QUERY myKey");
}

#[test]
fn query_with_all_arguments() {
    assert_eq!(
        query("myKey", Some("age>30"), Some("LIMIT 10")),
        "QUERY myKey age>30 LIMIT 10"
    );
}

#[test]
fn query_with_only_options_leaves_no_gap() {
    assert_eq!(query("myKey", None, Some("LIMIT 10")), "QUERY myKey LIMIT 10");
}

#[test]
fn query_with_empty_optional_is_omitted() {
    assert_eq!(query("myKey", Some(""), None), "QUERY myKey");
}

#[test]
fn set_formats_exactly() {
    assert_eq!(mgindb::command::set("k", "v"), "SET k v");
}

#[test]
fn delete_formats_exactly() {
    assert_eq!(mgindb::command::delete("k"), "DEL k");
}

#[test]
fn incr_and_decr_format() {
    assert_eq!(incr("k", "1"), "INCR k 1");
    assert_eq!(decr("k", "2"), "DECR k 2");
}

#[test]
fn single_key_commands_format() {
    assert_eq!(count("users"), "COUNT users");
    assert_eq!(sub("k"), "SUB k");
    assert_eq!(unsub("k"), "UNSUB k");
}

#[test]
fn indices_formats_with_and_without_optionals() {
    assert_eq!(indices("list", None, None), "INDICES list");
    assert_eq!(indices("add", Some("users"), Some("name")), "INDICES add users name");
    assert_eq!(indices("get", Some("users"), None), "INDICES get users");
}

#[test]
fn schedule_formats_with_and_without_optionals() {
    assert_eq!(schedule("SHOW", None, None), "SCHEDULE SHOW");
    assert_eq!(
        schedule("ADD", Some("*/5"), Some("INCR hits 1")),
        "SCHEDULE ADD */5 INCR hits 1"
    );
    assert_eq!(schedule("DEL", Some("job1"), None), "SCHEDULE DEL job1");
}

#[test]
fn format_command_joins_non_empty_arguments() {
    assert_eq!(format_command("VERB", &vec!["a", "", "b", ""]), "VERB a b");
    assert_eq!(format_command("VERB", &vec![]), "VERB");
    assert_eq!(format_command("VERB", &vec!["", ""]), "VERB");
}
