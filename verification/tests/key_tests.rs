use replace_t::json_path_from_key;
use replace_t::util::find_char;

#[test]
fn test_json_path_from_key() {
    let scopes = vec!["module".to_string(), "data".to_string()];
    let result = json_path_from_key("variable:name".to_string(), &scopes);
    assert_eq!(result, ("variable".to_string(), "name".to_string()));
}

#[test]
fn key_without_namespace_uses_first_scope() {
    let scopes = vec!["module".to_string(), "data".to_string()];
    let result = json_path_from_key("plain.key".to_string(), &scopes);
    assert_eq!(result, ("module".to_string(), "plain.key".to_string()));
}

#[test]
fn key_without_namespace_and_no_scopes() {
    let scopes: Vec<String> = vec![];
    let result = json_path_from_key("a".to_string(), &scopes);
    assert_eq!(result, ("".to_string(), "a".to_string()));
}

#[test]
fn key_splits_on_first_colon() {
    let scopes: Vec<String> = vec![];
    let result = json_path_from_key("ns:a:b".to_string(), &scopes);
    assert_eq!(result, ("ns".to_string(), "a:b".to_string()));
}

#[test]
fn find_char_first_occurrence() {
    assert_eq!(find_char("a:b:c", ':'), Some(1));
    assert_eq!(find_char("abc", ':'), None);
    assert_eq!(find_char("", ':'), None);
}
