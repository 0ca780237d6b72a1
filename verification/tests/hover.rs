use phpantom::hover::docblock::{find_method_docblock, parameter_docblock_type};
use phpantom::hover::syntax::{
    Block, CatchClause, ClassMember, Expression, Foreach, IterableTypes, Parameter, ParameterList,
    Span, Statement, StatementKind,
};
use phpantom::hover::variable_type::{
    extract_foreach_expression_raw_type, find_type_in_catch, find_type_in_closure_stmt, find_type_in_params,
    find_variable_type_in_statements, resolve_variable_type_string,
};

/// The span of the first occurrence of `needle` in `content`.
fn span_of(content: &str, needle: &str) -> Span {
    let start = content.find(needle).expect("needle present");
    Span { start: start as u32, end: (start + needle.len()) as u32 }
}

/// The offset just inside the first occurrence of `needle`.
fn offset_in(content: &str, needle: &str) -> u32 {
    (content.find(needle).expect("needle present") + 1) as u32
}

fn param(name: &str, native: Option<&str>, effective: Option<&str>) -> Parameter {
    Parameter {
        name: name.to_string(),
        native_hint: native.map(|s| s.to_string()),
        effective_hint: effective.map(|s| s.to_string()),
    }
}

fn function_program(content: &str, params: Vec<Parameter>, body: Vec<Statement>) -> Vec<Statement> {
    let start = content.find("function").unwrap();
    let end = content.rfind('}').unwrap() + 1;
    vec![Statement {
        span: Span { start: start as u32, end: end as u32 },
        kind: StatementKind::Function {
            parameters: ParameterList { span: span_of(content, "("), parameters: params },
            body: Block {
                span: Span { start: content.find('{').unwrap() as u32, end: end as u32 },
                statements: body,
            },
        },
    }]
}

#[test]
fn parameter_type_from_function_body() {
    let content = "<?php\nfunction f(int $x) { return $x; }\n";
    let program = function_program(content, vec![param("$x", Some("int"), None)], Vec::new());
    let cursor = offset_in(content, "$x;");
    assert_eq!(find_variable_type_in_statements(&program, "$x", content, cursor), Some("int".to_string()));
    assert_eq!(find_variable_type_in_statements(&program, "$y", content, cursor), None);
}

#[test]
fn docblock_effective_type_wins_over_native_hint() {
    let content = "<?php\nfunction f(array $xs) { return $xs; }\n";
    let program = function_program(content, vec![param("$xs", Some("array"), Some("list<int>"))], Vec::new());
    let cursor = offset_in(content, "$xs;");
    assert_eq!(
        find_variable_type_in_statements(&program, "$xs", content, cursor),
        Some("list<int>".to_string())
    );
}

#[test]
fn parameter_without_any_type_gives_none() {
    let list = ParameterList { span: Span { start: 0, end: 10 }, parameters: vec![param("$x", None, None), param("$x", Some("int"), None)] };
    // The first parameter of that name decides, even without a type.
    assert_eq!(find_type_in_params(&list, "$x"), None);
}

#[test]
fn cursor_outside_every_scope_gives_none() {
    let content = "<?php\nfunction f(int $x) { return $x; }\n$x = 1;\n";
    let program = function_program(content, vec![param("$x", Some("int"), None)], Vec::new());
    let cursor = offset_in(content, "$x = 1");
    // The function's span ends before the cursor.
    let mut prog = program;
    let end = (content.find("}\n").unwrap() + 1) as u32;
    prog[0].span.end = end;
    if let StatementKind::Function { body, .. } = &mut prog[0].kind {
        body.span.end = end;
    }
    assert_eq!(find_variable_type_in_statements(&prog, "$x", content, cursor), None);
}

#[test]
fn catch_variable_type_from_hint() {
    let content = "<?php\ntry { work(); } catch (Throwable $it) { log($it); }\n";
    let stmt = Statement {
        span: Span { start: 6, end: (content.len() - 1) as u32 },
        kind: StatementKind::Try {
            block: Block { span: span_of(content, "{ work(); }"), statements: Vec::new() },
            catches: vec![CatchClause {
                variable: Some(("$it".to_string(), span_of(content, "$it"))),
                hint: "Throwable".to_string(),
                block: Block { span: span_of(content, "{ log($it); }"), statements: Vec::new() },
            }],
            finally: None,
        },
    };
    let on_var = offset_in(content, "$it)");
    assert_eq!(find_type_in_catch(&stmt, "$it", on_var), Some("Throwable".to_string()));
    // Off the variable, the catch clause gives no type.
    let in_block = offset_in(content, "log(");
    assert_eq!(find_type_in_catch(&stmt, "$it", in_block), None);
    let program = vec![stmt];
    assert_eq!(
        find_variable_type_in_statements(&program, "$it", content, on_var),
        Some("Throwable".to_string())
    );
}

fn foreach_program(content: &str, expr: &str, iterable: Option<IterableTypes>) -> Vec<Statement> {
    let kw = content.find("foreach").unwrap();
    let end = content.rfind('}').unwrap() + 1;
    vec![Statement {
        span: Span { start: kw as u32, end: end as u32 },
        kind: StatementKind::Foreach(Foreach {
            keyword_start: kw as u32,
            body_end: end as u32,
            expression: span_of(content, expr),
            key_variable: Some("$i".to_string()),
            value_variable: Some("$pencil".to_string()),
            iterable,
            body: Vec::new(),
        }),
    }]
}

fn generator_types() -> Option<IterableTypes> {
    Some(IterableTypes { value_type: Some("Pencil".to_string()), key_type: Some("int".to_string()) })
}

#[test]
fn foreach_value_type_from_generator_docblock() {
    let content = "<?php\n/** @var \\Generator<int, Pencil> $pencils */\nforeach ($pencils as $i => $pencil) { $pencil->draw(); }\n";
    let program = foreach_program(content, "$pencils", generator_types());
    let cursor = offset_in(content, "$pencil->");
    assert_eq!(
        find_variable_type_in_statements(&program, "$pencil", content, cursor),
        Some("Pencil".to_string())
    );
    assert_eq!(find_variable_type_in_statements(&program, "$i", content, cursor), Some("int".to_string()));
}

#[test]
fn foreach_over_property_or_static_gives_none() {
    let content = "<?php\nforeach ($this->items as $i => $pencil) { $pencil->draw(); }\n";
    let program = foreach_program(content, "$this->items", generator_types());
    let cursor = offset_in(content, "$pencil->");
    assert_eq!(find_variable_type_in_statements(&program, "$pencil", content, cursor), None);

    let content = "<?php\nforeach (Box::$items as $i => $pencil) { $pencil->draw(); }\n";
    let program = foreach_program(content, "Box::$items", generator_types());
    let cursor = offset_in(content, "$pencil->");
    assert_eq!(find_variable_type_in_statements(&program, "$pencil", content, cursor), None);
}

#[test]
fn foreach_expression_text_is_trimmed() {
    let content = "<?php\nforeach ( $items  as $i => $pencil) { }\n";
    let program = foreach_program(content, " $items  ", generator_types());
    if let StatementKind::Foreach(f) = &program[0].kind {
        assert!(extract_foreach_expression_raw_type(f, content).is_some());
    } else {
        unreachable!();
    }
}

#[test]
fn foreach_expression_span_outside_text_gives_none() {
    let content = "<?php\nforeach ($items as $i => $pencil) { }\n";
    let mut program = foreach_program(content, "$items", generator_types());
    if let StatementKind::Foreach(f) = &mut program[0].kind {
        f.expression = Span { start: 5, end: 500 };
        assert!(extract_foreach_expression_raw_type(f, content).is_none());
        f.expression = Span { start: 9, end: 8 };
        assert!(extract_foreach_expression_raw_type(f, content).is_none());
    }
}

#[test]
fn closure_parameter_inside_method_body() {
    let content = "<?php\nclass A {\n  public function run() {\n    $f = function (Pen $p) { $p->x(); };\n  }\n}\n";
    let closure_start = content.find("function (").unwrap();
    let closure_end = content.find("};").unwrap() + 1;
    let closure = Expression::Closure {
        span: Span { start: closure_start as u32, end: closure_end as u32 },
        parameters: ParameterList { span: span_of(content, "(Pen $p)"), parameters: vec![param("$p", Some("Pen"), None)] },
        body: Vec::new(),
    };
    let assign_stmt = Statement {
        span: Span { start: content.find("$f =").unwrap() as u32, end: (closure_end + 1) as u32 },
        kind: StatementKind::Expression(Expression::Assignment { rhs: Box::new(closure) }),
    };
    let method_start = content.find("public").unwrap();
    let body_start = content.find("{\n    $f").unwrap();
    let body_end = content.find("}\n}").unwrap() + 1;
    let class = Statement {
        span: Span { start: 6, end: (content.len() - 1) as u32 },
        kind: StatementKind::ClassLike {
            body: Span { start: content.find("{\n").unwrap() as u32, end: (content.len() - 1) as u32 },
            members: vec![ClassMember::Method {
                start: method_start as u32,
                parameters: ParameterList { span: span_of(content, "()"), parameters: Vec::new() },
                body: Some(Block { span: Span { start: body_start as u32, end: body_end as u32 }, statements: vec![assign_stmt] }),
            }],
        },
    };
    let namespaced = vec![Statement { span: Span { start: 0, end: content.len() as u32 }, kind: StatementKind::Namespace { statements: vec![class] } }];
    let cursor = offset_in(content, "$p->");
    assert_eq!(find_variable_type_in_statements(&namespaced, "$p", content, cursor), Some("Pen".to_string()));
    assert_eq!(find_variable_type_in_statements(&namespaced, "$q", content, cursor), None);
}

#[test]
fn inline_var_override_wins() {
    let content = "<?php\nfunction f(int $x) { return $x; }\n";
    let program = function_program(content, vec![param("$x", Some("int"), None)], Vec::new());
    let cursor = offset_in(content, "$x;");
    // The assignment inference is not run when an earlier source decides.
    let r = resolve_variable_type_string("$x", content, cursor, &program, Some("Foo".to_string()), || -> Option<String> {
        panic!("assignment inference must not run")
    });
    assert_eq!(r, Some("Foo".to_string()));
    let r = resolve_variable_type_string("$x", content, cursor, &program, None, || -> Option<String> {
        panic!("assignment inference must not run")
    });
    assert_eq!(r, Some("int".to_string()));
    let r = resolve_variable_type_string("$y", content, cursor, &program, None, || Some("Bar".to_string()));
    assert_eq!(r, Some("Bar".to_string()));
    let r = resolve_variable_type_string("$y", content, cursor, &program, None, || None);
    assert_eq!(r, None);
}

#[test]
fn docblock_before_method() {
    let content = "<?php\n/** @param int $x */\nfunction f($x) {}\n";
    let start = content.find("function").unwrap();
    assert_eq!(find_method_docblock(content, start), Some("/** @param int $x */".to_string()));
}

#[test]
fn docblock_takes_last_opening() {
    let content = "/** old */ /** @return void */  \n\tfunction g() {}";
    let start = content.find("function").unwrap();
    assert_eq!(find_method_docblock(content, start), Some("/** @return void */".to_string()));
}

#[test]
fn no_docblock_cases() {
    let content = "<?php\n/* plain comment */\nfunction f() {}\n";
    let start = content.find("function").unwrap();
    assert_eq!(find_method_docblock(content, start), None);
    let content = "<?php\n/** doc */ $x = 1;\nfunction f() {}\n";
    let start = content.find("function").unwrap();
    assert_eq!(find_method_docblock(content, start), None);
    assert_eq!(find_method_docblock("abc", 10), None);
    assert_eq!(find_method_docblock("", 0), None);
}

#[test]
fn docblock_offset_inside_multibyte_character() {
    let content = "/** é */é function";
    let e = content.rfind('é').unwrap();
    assert_eq!(find_method_docblock(content, e + 1), None);
    assert_eq!(find_method_docblock(content, e), Some("/** é */".to_string()));
}

#[test]
fn unicode_whitespace_is_skipped_before_declaration() {
    let content = "/** doc */\u{00A0}\u{2003}\u{3000}fn";
    let start = content.find("fn").unwrap();
    assert_eq!(find_method_docblock(content, start), Some("/** doc */".to_string()));
}

fn closure(content: &str, start_marker: &str, end_marker: &str, param_list: &str, p: Parameter, body: Vec<Statement>) -> Expression {
    let start = content.find(start_marker).unwrap();
    let end = content.find(end_marker).unwrap() + end_marker.len();
    Expression::Closure {
        span: Span { start: start as u32, end: end as u32 },
        parameters: ParameterList { span: span_of(content, param_list), parameters: vec![p] },
        body,
    }
}

#[test]
fn nested_closure_reusing_a_variable_name_terminates() {
    let content = "<?php\n$query->where(function ($q) {\n  $q->orWhere(function (Inner $q): void {\n    $q->where(1);\n  });\n});\n";
    let inner = closure(content, "function (Inner", "  })", "(Inner $q)", param("$q", Some("Inner"), None), Vec::new());
    let inner_stmt = Statement {
        span: Span { start: content.find("$q->orWhere").unwrap() as u32, end: (content.find("  });").unwrap() + 5) as u32 },
        kind: StatementKind::Expression(Expression::Call { arguments: vec![inner] }),
    };
    let outer = closure(content, "function ($q)", "\n})", "($q)", param("$q", None, Some("Builder")), vec![inner_stmt]);
    let program = vec![Statement {
        span: Span { start: 6, end: (content.len() - 1) as u32 },
        kind: StatementKind::Expression(Expression::Call { arguments: vec![outer] }),
    }];
    // The lookup from top-level statements only descends into classes,
    // functions, try and foreach: a bare expression statement gives nothing.
    let cursor = offset_in(content, "$q->where(1)");
    assert_eq!(find_variable_type_in_statements(&program, "$q", content, cursor), None);
    // Inside a function body, the enclosing closure's parameter is found
    // first, as the outer closure covers the cursor.
    let func = vec![Statement {
        span: Span { start: 0, end: content.len() as u32 },
        kind: StatementKind::Function {
            parameters: ParameterList { span: Span { start: 0, end: 0 }, parameters: Vec::new() },
            body: Block { span: Span { start: 1, end: content.len() as u32 }, statements: program },
        },
    }];
    assert_eq!(find_variable_type_in_statements(&func, "$q", content, cursor), Some("Builder".to_string()));
}

#[test]
fn catch_variable_nested_in_control_flow() {
    let content = "<?php\nif ($a) { switch ($b) { case 1: do { try { x(); } catch (E $err) {} } while (0); } }\n";
    let try_stmt = Statement {
        span: span_of(content, "try { x(); } catch (E $err) {}"),
        kind: StatementKind::Try {
            block: Block { span: span_of(content, "{ x(); }"), statements: Vec::new() },
            catches: vec![CatchClause {
                variable: Some(("$err".to_string(), span_of(content, "$err"))),
                hint: "E".to_string(),
                block: Block { span: span_of(content, "{}"), statements: Vec::new() },
            }],
            finally: None,
        },
    };
    let do_while = Statement { span: span_of(content, "do {"), kind: StatementKind::DoWhile { statement: Box::new(try_stmt) } };
    let switch = Statement { span: span_of(content, "switch"), kind: StatementKind::Switch { cases: vec![vec![do_while]] } };
    let if_stmt = Statement { span: Span { start: 6, end: (content.len() - 1) as u32 }, kind: StatementKind::If { statements: vec![switch] } };
    let cursor = offset_in(content, "$err");
    assert_eq!(find_type_in_catch(&if_stmt, "$err", cursor), Some("E".to_string()));
    assert_eq!(find_type_in_catch(&if_stmt, "$other", cursor), None);
}

#[test]
fn parameter_docblock_type_prefers_annotation_then_method_docblock() {
    let content = "<?php\n/** @param int[] $xs */\nfunction f($xs) {}\n";
    let start = content.find("function").unwrap();
    let r = parameter_docblock_type(Some("list<int>".to_string()), content, start, |_doc: String| -> Option<String> {
        panic!("the docblock is not read when an annotation was found")
    });
    assert_eq!(r, Some("list<int>".to_string()));
    let r = parameter_docblock_type(None, content, start, |doc: String| {
        assert_eq!(doc, "/** @param int[] $xs */");
        Some("int[]".to_string())
    });
    assert_eq!(r, Some("int[]".to_string()));
    let plain = "<?php\nfunction f($xs) {}\n";
    let start = plain.find("function").unwrap();
    let r = parameter_docblock_type(None, plain, start, |_doc: String| -> Option<String> {
        panic!("no docblock to read")
    });
    assert_eq!(r, None);
}

#[test]
fn statement_off_cursor_gives_nothing() {
    let content = "<?php\ntry { x(); } catch (E $e) {}\nuse_it(function (F $e) {});\n$e->y();\n";
    let try_stmt = Statement {
        span: span_of(content, "try { x(); } catch (E $e) {}"),
        kind: StatementKind::Try {
            block: Block { span: span_of(content, "{ x(); }"), statements: Vec::new() },
            catches: vec![CatchClause {
                variable: Some(("$e".to_string(), span_of(content, "$e"))),
                hint: "E".to_string(),
                block: Block { span: span_of(content, "{}"), statements: Vec::new() },
            }],
            finally: None,
        },
    };
    let call_stmt = Statement {
        span: span_of(content, "use_it(function (F $e) {});"),
        kind: StatementKind::Expression(Expression::Call {
            arguments: vec![closure(content, "function (F", "{})", "(F $e)", param("$e", Some("F"), None), Vec::new())],
        }),
    };
    let cursor = offset_in(content, "$e->y");
    assert_eq!(find_type_in_catch(&try_stmt, "$e", cursor), None);
    assert_eq!(find_type_in_closure_stmt(&call_stmt, "$e", content, cursor), None);
    // On the bindings themselves, each statement gives its type.
    assert_eq!(find_type_in_catch(&try_stmt, "$e", offset_in(content, "$e)")), Some("E".to_string()));
    assert_eq!(
        find_type_in_closure_stmt(&call_stmt, "$e", content, offset_in(content, "F $e")),
        Some("F".to_string())
    );
    let program = vec![try_stmt, call_stmt];
    assert_eq!(find_variable_type_in_statements(&program, "$e", content, cursor), None);
}
