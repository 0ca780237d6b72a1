use phpantom::completion::builder::{
    build_callable_snippet, build_completion_items, build_method_label, display_class_name,
    is_magic_method,
};
use phpantom::completion::item::{CompletionEntry, CompletionKind};
use phpantom::completion::sort::sort_by_keys;
use phpantom::types::{
    AccessKind, ClassInfo, ConstantInfo, MethodInfo, ParameterInfo, PropertyInfo, Visibility,
};

fn param(name: &str, required: bool) -> ParameterInfo {
    ParameterInfo {
        name: name.to_string(),
        type_hint: None,
        is_required: required,
        is_variadic: false,
        is_reference: false,
        default_value: None,
    }
}

fn method(name: &str, is_static: bool, visibility: Visibility) -> MethodInfo {
    MethodInfo {
        name: name.to_string(),
        parameters: Vec::new(),
        return_type: None,
        is_static,
        visibility,
        is_deprecated: false,
    }
}

fn property(name: &str, is_static: bool, visibility: Visibility) -> PropertyInfo {
    PropertyInfo {
        name: name.to_string(),
        type_hint: None,
        is_static,
        visibility,
        is_deprecated: false,
    }
}

fn constant(name: &str, visibility: Visibility) -> ConstantInfo {
    ConstantInfo { name: name.to_string(), type_hint: None, visibility, is_deprecated: false }
}

fn labels(items: &[CompletionEntry]) -> Vec<String> {
    items.iter().map(|i| i.label.clone()).collect()
}

fn sample_class() -> ClassInfo {
    ClassInfo {
        name: "Pen".to_string(),
        methods: vec![
            method("write", false, Visibility::Public),
            method("create", true, Visibility::Public),
            method("__construct", false, Visibility::Public),
            method("__toString", false, Visibility::Public),
            method("secret", false, Visibility::Private),
            method("guarded", false, Visibility::Protected),
        ],
        properties: vec![
            property("color", false, Visibility::Public),
            property("count", true, Visibility::Public),
            property("ink", false, Visibility::Private),
        ],
        constants: vec![
            constant("MAX", Visibility::Public),
            constant("HIDDEN", Visibility::Private),
        ],
    }
}

#[test]
fn display_class_name_replaces_anonymous_names() {
    assert_eq!(display_class_name("__anonymous@156"), "anonymous class");
    assert_eq!(display_class_name("Foo"), "Foo");
    assert_eq!(display_class_name("x__anonymous@1"), "x__anonymous@1");
}

#[test]
fn snippet_without_required_parameters() {
    assert_eq!(build_callable_snippet("reset", &[]), "reset()$0");
}

#[test]
fn snippet_with_one_required_and_one_optional_parameter() {
    let params = vec![param("$text", true), param("$long", false)];
    assert_eq!(build_callable_snippet("makeText", &params), "makeText(${1:\\$text})$0");
}

#[test]
fn snippet_with_two_required_parameters() {
    let params = vec![param("$a", true), param("$b", true)];
    assert_eq!(build_callable_snippet("add", &params), "add(${1:\\$a}, ${2:\\$b})$0");
}

#[test]
fn snippet_numbers_only_required_parameters() {
    let params = vec![param("$a", false), param("$b", true), param("$c", true)];
    assert_eq!(build_callable_snippet("f", &params), "f(${1:\\$b}, ${2:\\$c})$0");
}

#[test]
fn snippet_numbers_past_nine() {
    let params: Vec<ParameterInfo> = (0..10).map(|i| param(&format!("$p{}", i), true)).collect();
    let s = build_callable_snippet("many", &params);
    assert!(s.ends_with("${10:\\$p9})$0"));
    assert!(s.starts_with("many(${1:\\$p0}, ${2:\\$p1}"));
}

#[test]
fn method_label_shows_full_signature() {
    let m = MethodInfo {
        name: "regularCode".to_string(),
        parameters: vec![
            ParameterInfo {
                name: "$text".to_string(),
                type_hint: Some("string".to_string()),
                is_required: true,
                is_variadic: false,
                is_reference: false,
                default_value: None,
            },
            ParameterInfo { default_value: Some("false".to_string()), ..param("$frogs", false) },
        ],
        return_type: Some("string".to_string()),
        is_static: false,
        visibility: Visibility::Public,
        is_deprecated: false,
    };
    assert_eq!(build_method_label(&m), "regularCode(string $text, $frogs = false): string");
}

#[test]
fn method_label_with_unknown_default_value() {
    let m = MethodInfo { parameters: vec![param("$x", true), param("$y", false)], ..method("g", false, Visibility::Public) };
    assert_eq!(build_method_label(&m), "g($x, $y = ...)");
}

#[test]
fn method_label_reference_and_variadic_parameters() {
    let m = MethodInfo {
        name: "f".to_string(),
        parameters: vec![
            ParameterInfo {
                name: "$out".to_string(),
                type_hint: Some("array".to_string()),
                is_required: true,
                is_variadic: false,
                is_reference: true,
                default_value: None,
            },
            ParameterInfo {
                name: "$rest".to_string(),
                type_hint: None,
                is_required: false,
                is_variadic: true,
                is_reference: false,
                default_value: None,
            },
        ],
        return_type: None,
        is_static: false,
        visibility: Visibility::Public,
        is_deprecated: false,
    };
    assert_eq!(build_method_label(&m), "f(array &$out, ...$rest)");
}

#[test]
fn magic_methods_are_recognised_ignoring_ascii_case() {
    assert!(is_magic_method("__construct"));
    assert!(is_magic_method("__CONSTRUCT"));
    assert!(is_magic_method("__tostring"));
    assert!(is_magic_method("__debugInfo"));
    assert!(!is_magic_method("construct"));
    assert!(!is_magic_method("__constructor"));
    assert!(!is_magic_method(""));
}

#[test]
fn arrow_access_from_outside_shows_public_instance_members() {
    let items = build_completion_items(&sample_class(), AccessKind::Arrow, None, false);
    assert_eq!(labels(&items), vec!["color", "write()"]);
    assert_eq!(items[0].kind, CompletionKind::Property);
    assert_eq!(items[1].kind, CompletionKind::Method);
    assert_eq!(items[1].insert_text, "write()$0");
    assert!(items[1].is_snippet);
    assert_eq!(items[1].filter_text, "write");
    assert_eq!(items[1].detail, "Class: Pen");
}

#[test]
fn arrow_access_inside_same_class_shows_private_and_protected() {
    let items = build_completion_items(&sample_class(), AccessKind::Arrow, Some("Pen"), false);
    assert_eq!(labels(&items), vec!["color", "guarded()", "ink", "secret()", "write()"]);
}

#[test]
fn arrow_access_from_subclass_shows_protected_but_not_private() {
    let items = build_completion_items(&sample_class(), AccessKind::Arrow, Some("Marker"), true);
    assert_eq!(labels(&items), vec!["color", "guarded()", "write()"]);
}

#[test]
fn double_colon_access_from_outside() {
    let items = build_completion_items(&sample_class(), AccessKind::DoubleColon, None, false);
    assert_eq!(labels(&items), vec!["$count", "class", "create()", "MAX"]);
    let kw = &items[1];
    assert_eq!(kw.kind, CompletionKind::Keyword);
    assert_eq!(kw.detail, "class-string");
    assert_eq!(kw.insert_text, "class");
    let count = &items[0];
    assert_eq!(count.insert_text, "$count");
    assert_eq!(count.filter_text, "$count");
    assert_eq!(items[3].kind, CompletionKind::Constant);
}

#[test]
fn double_colon_from_subclass_offers_constructor() {
    let items = build_completion_items(&sample_class(), AccessKind::DoubleColon, Some("Marker"), true);
    assert_eq!(labels(&items), vec!["$count", "__construct()", "class", "create()", "MAX"]);
}

#[test]
fn parent_double_colon_offers_instance_and_static_methods() {
    let items = build_completion_items(&sample_class(), AccessKind::ParentDoubleColon, Some("Marker"), true);
    assert_eq!(
        labels(&items),
        vec!["$count", "__construct()", "class", "create()", "guarded()", "MAX", "write()"]
    );
}

#[test]
fn other_access_offers_everything_public() {
    let items = build_completion_items(&sample_class(), AccessKind::Other, None, false);
    assert_eq!(labels(&items), vec!["color", "count", "create()", "MAX", "write()"]);
}

#[test]
fn sort_text_is_zero_padded_position() {
    let items = build_completion_items(&sample_class(), AccessKind::Other, None, false);
    let sort: Vec<String> = items.iter().map(|i| i.sort_text.clone()).collect();
    assert_eq!(sort, vec!["00000", "00001", "00002", "00003", "00004"]);
}

#[test]
fn sort_text_beyond_ten_entries() {
    let class = ClassInfo {
        name: "Many".to_string(),
        methods: Vec::new(),
        properties: (0..12).map(|i| property(&format!("p{:02}", i), false, Visibility::Public)).collect(),
        constants: Vec::new(),
    };
    let items = build_completion_items(&class, AccessKind::Arrow, None, false);
    assert_eq!(items.len(), 12);
    assert_eq!(items[11].sort_text, "00011");
    assert_eq!(items[11].label, "p11");
}

#[test]
fn sorting_ignores_case() {
    let class = ClassInfo {
        name: "C".to_string(),
        methods: Vec::new(),
        properties: vec![
            property("Zeta", false, Visibility::Public),
            property("alpha", false, Visibility::Public),
            property("Beta", false, Visibility::Public),
        ],
        constants: Vec::new(),
    };
    let items = build_completion_items(&class, AccessKind::Arrow, None, false);
    assert_eq!(labels(&items), vec!["alpha", "Beta", "Zeta"]);
}

#[test]
fn sorting_is_stable_for_equal_keys() {
    let class = ClassInfo {
        name: "C".to_string(),
        methods: Vec::new(),
        properties: vec![
            property("Name", false, Visibility::Public),
            property("name", false, Visibility::Public),
            property("NAME", false, Visibility::Public),
        ],
        constants: Vec::new(),
    };
    let items = build_completion_items(&class, AccessKind::Arrow, None, false);
    assert_eq!(labels(&items), vec!["Name", "name", "NAME"]);
}

#[test]
fn details_show_type_hints_and_anonymous_classes() {
    let class = ClassInfo {
        name: "__anonymous@42".to_string(),
        methods: vec![MethodInfo { is_deprecated: true, ..method("run", false, Visibility::Public) }],
        properties: vec![PropertyInfo {
            type_hint: Some("int".to_string()),
            is_deprecated: true,
            ..property("size", false, Visibility::Public)
        }],
        constants: vec![ConstantInfo { type_hint: Some("string".to_string()), ..constant("KEY", Visibility::Public) }],
    };
    let items = build_completion_items(&class, AccessKind::Other, None, false);
    assert_eq!(labels(&items), vec!["KEY", "run()", "size"]);
    assert_eq!(items[0].detail, "Class: anonymous class \u{2014} string");
    assert!(!items[0].deprecated);
    assert_eq!(items[1].detail, "Class: anonymous class");
    assert!(items[1].deprecated);
    assert_eq!(items[2].detail, "Class: anonymous class \u{2014} int");
    assert!(items[2].deprecated);
    assert!(!items[2].is_snippet);
}

#[test]
fn magic_methods_hidden_from_arrow_access_even_inside_class() {
    let items = build_completion_items(&sample_class(), AccessKind::Arrow, Some("Pen"), true);
    assert!(!labels(&items).iter().any(|l| l.starts_with("__")));
}

#[test]
fn empty_class_under_arrow_gives_nothing() {
    let class = ClassInfo { name: "E".to_string(), methods: Vec::new(), properties: Vec::new(), constants: Vec::new() };
    assert!(build_completion_items(&class, AccessKind::Arrow, None, false).is_empty());
    let items = build_completion_items(&class, AccessKind::DoubleColon, None, false);
    assert_eq!(labels(&items), vec!["class"]);
}

#[test]
fn sorting_by_given_keys_is_stable() {
    let entry = |label: &str| CompletionEntry {
        label: label.to_string(),
        kind: CompletionKind::Property,
        detail: String::new(),
        insert_text: label.to_string(),
        is_snippet: false,
        filter_text: label.to_string(),
        deprecated: false,
        sort_text: String::new(),
    };
    let keys = vec![vec!['b'], vec!['a'], vec!['b'], vec!['a', 'a']];
    let entries = vec![entry("first b"), entry("a"), entry("second b"), entry("aa")];
    let out = sort_by_keys(keys, entries);
    assert_eq!(labels(&out), vec!["a", "aa", "first b", "second b"]);
}

#[test]
fn ascii_case_insensitive_order_examples() {
    let class = ClassInfo {
        name: "C".to_string(),
        methods: Vec::new(),
        properties: vec![property("Zap", true, Visibility::Public), property("apple", true, Visibility::Public), property("path", true, Visibility::Public)],
        constants: vec![constant("MAX", Visibility::Public)],
    };
    let items = build_completion_items(&class, AccessKind::DoubleColon, None, false);
    assert_eq!(labels(&items), vec!["$apple", "$path", "$Zap", "class", "MAX"]);
}
