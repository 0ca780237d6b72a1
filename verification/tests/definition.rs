use phpantom::definition::variable::{
    resolve_variable_definition, resolve_variable_definition_ast, VarDefSearchResult,
};

#[test]
fn found_definition_gives_target() {
    let r = resolve_variable_definition_ast(Some(VarDefSearchResult::FoundAt { offset: 10, end_offset: 14 }), "file:///src/a.php");
    let target = r.expect("uri parses").expect("a target");
    assert_eq!(target.start_offset, 10);
    assert_eq!(target.end_offset, 14);
    assert_eq!(target.uri, "file:///src/a.php");
}

#[test]
fn no_definition_or_at_definition_gives_no_target() {
    assert!(matches!(resolve_variable_definition_ast(Some(VarDefSearchResult::NotFound), "file:///a.php"), Some(None)));
    assert!(matches!(resolve_variable_definition_ast(Some(VarDefSearchResult::AtDefinition), "file:///a.php"), Some(None)));
    assert!(resolve_variable_definition(Some(VarDefSearchResult::NotFound), "file:///a.php").is_none());
    assert!(resolve_variable_definition(Some(VarDefSearchResult::AtDefinition), "file:///a.php").is_none());
}

#[test]
fn failed_parse_gives_none() {
    assert!(resolve_variable_definition_ast(None, "file:///a.php").is_none());
    assert!(resolve_variable_definition(None, "file:///a.php").is_none());
}

#[test]
fn unparsable_uri_gives_none() {
    assert!(resolve_variable_definition_ast(Some(VarDefSearchResult::FoundAt { offset: 1, end_offset: 2 }), "not a uri").is_none());
    assert!(resolve_variable_definition(Some(VarDefSearchResult::FoundAt { offset: 1, end_offset: 2 }), "not a uri").is_none());
}

#[test]
fn flattened_resolution_keeps_target() {
    let t = resolve_variable_definition(Some(VarDefSearchResult::FoundAt { offset: 3, end_offset: 5 }), "file:///b.php").unwrap();
    assert_eq!((t.start_offset, t.end_offset), (3, 5));
    assert_eq!(t.uri, "file:///b.php");
}

#[test]
fn default_search_result_is_not_found() {
    assert_eq!(VarDefSearchResult::default(), VarDefSearchResult::NotFound);
}
