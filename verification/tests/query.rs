use averter::query::Query;

#[test]
fn empty_query_is_an_empty_object() {
    assert_eq!(Query::new().cache_key("/path"), "/path{}");
    assert_eq!(Query::new().cache_key(""), "{}");
    assert!(Query::new().pairs().is_empty());
}

#[test]
fn key_is_path_then_parameters_in_order_of_name() {
    let query = Query::new().with("uris", Some("a,b")).with("q", Some("x"));
    assert_eq!(query.cache_key("/safety"), "/safety{\"q\":\"x\",\"uris\":\"a,b\"}");
}

#[test]
fn missing_value_is_null() {
    let query = Query::new().with("q", None).with("rank", Some("*"));
    assert_eq!(query.cache_key("/r"), "/r{\"q\":null,\"rank\":\"*\"}");
}

#[test]
fn values_are_escaped_as_json() {
    let query = Query::new().with("q", Some("a\"b\\c\n"));
    assert_eq!(query.cache_key("/s"), "/s{\"q\":\"a\\\"b\\\\c\\n\"}");
}

#[test]
fn setting_a_name_again_replaces_its_value() {
    let mut query = Query::new().with("q", Some("old"));
    query.set("q".to_string(), Some("new".to_string()));
    assert_eq!(query.value("q"), Some(Some("new".to_string())));
    assert_eq!(query.pairs().len(), 1);
    assert_eq!(query.cache_key("/s"), "/s{\"q\":\"new\"}");
}

#[test]
fn value_tells_unset_from_set_to_nothing() {
    let query = Query::new().with("rank", None);
    assert_eq!(query.value("rank"), Some(None));
    assert_eq!(query.value("q"), None);
}

#[test]
fn order_of_setting_does_not_change_the_key() {
    let one = Query::new().with("a", Some("1")).with("b", Some("2")).with("c", None);
    let other = Query::new().with("c", None).with("b", Some("2")).with("a", Some("1"));
    assert_eq!(one.cache_key("/p"), other.cache_key("/p"));
    let mut names: Vec<String> = other.pairs().into_iter().map(|pair| pair.0).collect();
    names.sort();
    assert_eq!(names, vec!["a".to_string(), "b".to_string(), "c".to_string()]);
}

#[test]
fn different_values_have_different_keys() {
    let one = Query::new().with("id", Some("1"));
    let other = Query::new().with("id", Some("2"));
    assert_ne!(one.cache_key("/p"), other.cache_key("/p"));
    assert_ne!(one.cache_key("/p"), one.cache_key("/q"));
}
