use companion::extract::{
    analyze, extract_key_from_brackets, generate_module_dump, member_type_from_value,
    members_from_table, AnalysisOutcome, SyntaxError,
};
use companion::order::compare_names;
use companion::shape::{is_internal_name, shape_from_writes};
use companion::syntax::{Block, Expr, Field, FunctionName, LastStmt, Part, Stmt, Suffix};
use companion::MemberType;

fn s(t: &str) -> String {
    t.to_string()
}

fn name(n: &str) -> Expr {
    Expr::Name(s(n))
}

fn num(n: &str) -> Expr {
    Expr::Number(s(n))
}

fn func(stmts: Vec<Stmt>) -> Expr {
    Expr::Function(Block { stmts, last: None })
}

fn table(fields: Vec<Field>) -> Expr {
    Expr::Table(fields)
}

fn named(key: &str, value: Expr) -> Field {
    Field::Named { name: s(key), value }
}

fn local(n: &str, value: Expr) -> Stmt {
    Stmt::LocalAssignment { names: vec![s(n)], values: vec![value] }
}

fn assign(target: Expr, value: Expr) -> Stmt {
    Stmt::Assignment { targets: vec![target], values: vec![value] }
}

fn dot(base: &str, member: &str) -> Expr {
    Expr::Suffixed { prefix: Box::new(name(base)), suffixes: vec![Suffix::Dot(s(member))] }
}

fn declare(names: &[&str], method: Option<&str>) -> Stmt {
    Stmt::FunctionDeclaration {
        name: FunctionName { names: names.iter().map(|n| s(n)).collect(), method: method.map(s) },
        body: Block { stmts: vec![], last: None },
    }
}

fn chunk(stmts: Vec<Stmt>, returns: Option<Vec<Expr>>) -> Block {
    Block { stmts, last: returns.map(LastStmt::Return) }
}

fn members(pairs: &[(&str, MemberType)]) -> Vec<(String, MemberType)> {
    pairs.iter().map(|(n, k)| (s(n), *k)).collect()
}

// local M = {} function M.foo() end function M:bar() end return M
#[test]
fn function_and_method_declarations() {
    let c = chunk(
        vec![local("M", table(vec![])), declare(&["M", "foo"], None), declare(&["M"], Some("bar"))],
        Some(vec![name("M")]),
    );
    assert_eq!(
        generate_module_dump(&c),
        Some(members(&[("bar", MemberType::Method), ("foo", MemberType::Function)]))
    );
}

// return { x = 1, y = function() end }
#[test]
fn returned_table_literal() {
    let c = chunk(vec![], Some(vec![table(vec![named("x", num("1")), named("y", func(vec![]))])]));
    assert_eq!(
        generate_module_dump(&c),
        Some(members(&[("x", MemberType::Value), ("y", MemberType::Function)]))
    );
}

// local M = {} return M
#[test]
fn empty_module_table() {
    let c = chunk(vec![local("M", table(vec![]))], Some(vec![name("M")]));
    assert_eq!(generate_module_dump(&c), Some(vec![]));
}

// return 3 + 5
#[test]
fn returned_binary_operation() {
    let c = chunk(
        vec![],
        Some(vec![Expr::BinOp { lhs: Box::new(num("3")), rhs: Box::new(num("5")) }]),
    );
    assert_eq!(generate_module_dump(&c), None);
}

// return
#[test]
fn returns_but_nothing() {
    let c = chunk(vec![local("M", table(vec![]))], Some(vec![]));
    assert_eq!(generate_module_dump(&c), None);
}

// local M = {} function M.__init() end return M
#[test]
fn internal_function_skipped() {
    let c = chunk(
        vec![local("M", table(vec![])), declare(&["M", "__init"], None)],
        Some(vec![name("M")]),
    );
    assert_eq!(generate_module_dump(&c), Some(vec![]));
}

// local M = {} M.x = 1
#[test]
fn no_return() {
    let c = chunk(vec![local("M", table(vec![])), assign(dot("M", "x"), num("1"))], None);
    assert_eq!(generate_module_dump(&c), None);
}

// local M = 5 return M + 1 / return f() / return (M) / return "s"
#[test]
fn returns_not_table() {
    let call = Expr::Suffixed { prefix: Box::new(name("f")), suffixes: vec![Suffix::Call(vec![])] };
    let paren = Expr::Other(vec![name("M")]);
    for value in [call, paren, Expr::Str(s("\"s\"")), num("5"), dot("M", "x")] {
        let c = chunk(vec![local("M", table(vec![]))], Some(vec![value]));
        assert_eq!(generate_module_dump(&c), None);
    }
}

// M = {} M.a = 1 return M   (global assignment)
#[test]
fn assigned_global() {
    let c = chunk(
        vec![assign(name("M"), table(vec![named("b", func(vec![]))])), assign(dot("M", "a"), num("1"))],
        Some(vec![name("M")]),
    );
    assert_eq!(
        generate_module_dump(&c),
        Some(members(&[("a", MemberType::Value), ("b", MemberType::Function)]))
    );
}

// local M = { a = 1, b = function() end } return M
#[test]
fn assigned_instantly() {
    let c = chunk(
        vec![local("M", table(vec![named("a", num("1")), named("b", func(vec![]))]))],
        Some(vec![name("M")]),
    );
    assert_eq!(
        generate_module_dump(&c),
        Some(members(&[("a", MemberType::Value), ("b", MemberType::Function)]))
    );
}

// local M = { a = 1 } M.b = function() end function M.c() end return M
#[test]
fn assigned_instantly_and_later() {
    let c = chunk(
        vec![
            local("M", table(vec![named("a", num("1"))])),
            assign(dot("M", "b"), func(vec![])),
            declare(&["M", "c"], None),
        ],
        Some(vec![name("M")]),
    );
    assert_eq!(
        generate_module_dump(&c),
        Some(members(&[
            ("a", MemberType::Value),
            ("b", MemberType::Function),
            ("c", MemberType::Function),
        ]))
    );
}

// local M = {} M.a = 1 M["b"] = 2 return M
#[test]
fn assigned_later() {
    let brackets = Expr::Suffixed {
        prefix: Box::new(name("M")),
        suffixes: vec![Suffix::Brackets(Expr::Str(s("\"b\"")))],
    };
    let c = chunk(
        vec![local("M", table(vec![])), assign(dot("M", "a"), num("1")), assign(brackets, num("2"))],
        Some(vec![name("M")]),
    );
    assert_eq!(
        generate_module_dump(&c),
        Some(members(&[("a", MemberType::Value), ("b", MemberType::Value)]))
    );
}

// local M = {} M.a = function() end return M
#[test]
fn assigned_later_as_function() {
    let c = chunk(
        vec![local("M", table(vec![])), assign(dot("M", "a"), func(vec![]))],
        Some(vec![name("M")]),
    );
    assert_eq!(generate_module_dump(&c), Some(members(&[("a", MemberType::Function)])));
}

#[test]
fn syntax_error_is_passed_on() {
    let e = SyntaxError { line: 3, column: 7, message: s("unexpected token") };
    match analyze(Err(e)) {
        AnalysisOutcome::SyntaxError(e) => {
            assert_eq!(e.line, 3);
            assert_eq!(e.column, 7);
            assert_eq!(e.message, "unexpected token");
        }
        _ => panic!("expected a syntax error"),
    }
}

#[test]
fn analyze_distinguishes_outcomes() {
    let none = chunk(vec![], Some(vec![]));
    assert!(matches!(analyze(Ok(none)), AnalysisOutcome::NoShape));
    let shaped = chunk(vec![local("M", table(vec![]))], Some(vec![name("M")]));
    match analyze(Ok(shaped)) {
        AnalysisOutcome::Shape(es) => assert!(es.is_empty()),
        _ => panic!("expected a shape"),
    }
}

#[test]
fn analysis_is_deterministic() {
    let build = || {
        chunk(
            vec![
                local("M", table(vec![named("z", num("1")), named("a", func(vec![]))])),
                declare(&["M"], Some("m")),
            ],
            Some(vec![name("M")]),
        )
    };
    let first = generate_module_dump(&build());
    let second = generate_module_dump(&build());
    assert_eq!(first, second);
    assert_eq!(
        first,
        Some(members(&[
            ("a", MemberType::Function),
            ("m", MemberType::Method),
            ("z", MemberType::Value),
        ]))
    );
}

// local M = { a = 1, b = function() end } M = { a = function() end } return M
#[test]
fn later_table_assignment_wins() {
    let c = chunk(
        vec![
            local("M", table(vec![named("a", num("1")), named("b", func(vec![]))])),
            assign(name("M"), table(vec![named("a", func(vec![]))])),
        ],
        Some(vec![name("M")]),
    );
    assert_eq!(
        generate_module_dump(&c),
        Some(members(&[("a", MemberType::Function), ("b", MemberType::Function)]))
    );
    let reversed = chunk(
        vec![
            local("M", table(vec![named("a", func(vec![]))])),
            assign(name("M"), table(vec![named("a", num("1"))])),
        ],
        Some(vec![name("M")]),
    );
    assert_eq!(generate_module_dump(&reversed), Some(members(&[("a", MemberType::Value)])));
}

#[test]
fn internal_names_absent_everywhere() {
    let c = chunk(
        vec![
            local("M", table(vec![named("__index", num("1")), named("keep", num("2"))])),
            assign(dot("M", "__call"), func(vec![])),
            declare(&["M", "__tostring"], None),
            declare(&["M"], Some("__eq")),
            declare(&["M", "__deep", "x"], None),
        ],
        Some(vec![name("M")]),
    );
    assert_eq!(generate_module_dump(&c), Some(members(&[("keep", MemberType::Value)])));
    let t = chunk(vec![], Some(vec![table(vec![named("__gc", num("1")), named("_one", num("1"))])]));
    assert_eq!(generate_module_dump(&t), Some(members(&[("_one", MemberType::Value)])));
}

#[test]
fn bracket_keys() {
    let c = chunk(
        vec![],
        Some(vec![table(vec![
            Field::Keyed { key: Expr::Str(s("'it''s'")), value: num("1") },
            Field::Keyed { key: num("10"), value: func(vec![]) },
            Field::Keyed { key: Expr::Symbol(s("true")), value: num("1") },
            Field::Keyed { key: name("x"), value: num("1") },
            Field::Keyed {
                key: Expr::BinOp { lhs: Box::new(Expr::Str(s("\"a\""))), rhs: Box::new(Expr::Str(s("\"b\""))) },
                value: num("1"),
            },
            Field::Positional(num("7")),
        ])]),
    );
    assert_eq!(
        generate_module_dump(&c),
        Some(members(&[
            ("10", MemberType::Function),
            ("it''s", MemberType::Value),
            ("true", MemberType::Value),
        ]))
    );
}

#[test]
fn extract_key_from_brackets_cases() {
    assert_eq!(extract_key_from_brackets(&Expr::Str(s("\"abc\""))), Some(s("abc")));
    assert_eq!(extract_key_from_brackets(&Expr::Str(s("\"\""))), Some(s("")));
    assert_eq!(extract_key_from_brackets(&num("0x1F")), Some(s("0x1F")));
    assert_eq!(extract_key_from_brackets(&Expr::Symbol(s("nil"))), Some(s("nil")));
    assert_eq!(extract_key_from_brackets(&name("k")), None);
    assert_eq!(extract_key_from_brackets(&func(vec![])), None);
}

#[test]
fn member_type_from_value_cases() {
    assert_eq!(member_type_from_value(&func(vec![])), MemberType::Function);
    assert_eq!(member_type_from_value(&table(vec![])), MemberType::Value);
    assert_eq!(member_type_from_value(&name("f")), MemberType::Value);
    assert_eq!(member_type_from_value(&Expr::Other(vec![func(vec![])])), MemberType::Value);
}

#[test]
fn members_from_table_last_write_wins() {
    let fields = vec![named("a", func(vec![])), named("b", num("1")), named("a", num("2"))];
    assert_eq!(
        members_from_table(&fields),
        members(&[("a", MemberType::Value), ("b", MemberType::Value)])
    );
}

#[test]
fn names_sorted_by_code_point() {
    let c = chunk(
        vec![],
        Some(vec![table(vec![
            named("\u{e9}t\u{e9}", num("1")),
            named("b", num("1")),
            named("B", num("1")),
            named("ab", num("1")),
            named("a", num("1")),
        ])]),
    );
    let expected = members(&[
        ("B", MemberType::Value),
        ("a", MemberType::Value),
        ("ab", MemberType::Value),
        ("b", MemberType::Value),
        ("\u{e9}t\u{e9}", MemberType::Value),
    ]);
    assert_eq!(generate_module_dump(&c), Some(expected));
}

// function M.a.b() end  M.c.d = 1  function M.e:f() end  function M() end  M:g()
#[test]
fn deeper_names() {
    let deep_assign = Expr::Suffixed {
        prefix: Box::new(name("M")),
        suffixes: vec![Suffix::Dot(s("c")), Suffix::Dot(s("d"))],
    };
    let method_call = Stmt::Compound {
        parts: vec![Part::Expr(Expr::Suffixed {
            prefix: Box::new(name("M")),
            suffixes: vec![Suffix::Dot(s("g")), Suffix::Call(vec![])],
        })],
    };
    let c = chunk(
        vec![
            local("M", table(vec![])),
            declare(&["M", "a", "b"], None),
            assign(deep_assign, num("1")),
            declare(&["M", "e"], Some("f")),
            declare(&["M"], None),
            declare(&["N", "h"], None),
            method_call,
        ],
        Some(vec![name("M")]),
    );
    assert_eq!(generate_module_dump(&c), Some(members(&[("a", MemberType::Value)])));
}

// M.a, M.b = function() end   (second target has no value)
#[test]
fn short_value_list_defaults_to_value() {
    let c = chunk(
        vec![
            local("M", table(vec![])),
            Stmt::Assignment { targets: vec![dot("M", "a"), dot("M", "b")], values: vec![func(vec![])] },
        ],
        Some(vec![name("M")]),
    );
    assert_eq!(
        generate_module_dump(&c),
        Some(members(&[("a", MemberType::Function), ("b", MemberType::Value)]))
    );
}

// local M = {} do if x then M.a = 1 end end M.b = function() M.b = 2 end return M, 5
#[test]
fn nested_blocks_are_walked() {
    let inner_if = Stmt::Compound {
        parts: vec![
            Part::Expr(name("x")),
            Part::Block(Block { stmts: vec![assign(dot("M", "a"), num("1"))], last: None }),
        ],
    };
    let do_block = Stmt::Compound { parts: vec![Part::Block(Block { stmts: vec![inner_if], last: None })] };
    let c = chunk(
        vec![
            local("M", table(vec![])),
            do_block,
            assign(dot("M", "b"), func(vec![assign(dot("M", "b"), num("2"))])),
        ],
        Some(vec![name("M"), num("5")]),
    );
    assert_eq!(
        generate_module_dump(&c),
        Some(members(&[("a", MemberType::Value), ("b", MemberType::Value)]))
    );
}

#[test]
fn other_names_ignored() {
    let c = chunk(
        vec![
            local("M", table(vec![])),
            local("N", table(vec![named("n", num("1"))])),
            assign(dot("N", "x"), num("1")),
            Stmt::LocalAssignment { names: vec![s("M")], values: vec![] },
        ],
        Some(vec![name("M")]),
    );
    assert_eq!(generate_module_dump(&c), Some(vec![]));
}

#[test]
fn internal_name_test() {
    assert!(is_internal_name(&s("__index")));
    assert!(is_internal_name(&s("__")));
    assert!(!is_internal_name(&s("_x")));
    assert!(!is_internal_name(&s("x__")));
    assert!(!is_internal_name(&s("")));
}

#[test]
fn kind_labels() {
    assert_eq!(MemberType::Value.label(), "Value");
    assert_eq!(MemberType::Function.label(), "Function");
    assert_eq!(MemberType::Method.label(), "Method");
}

#[test]
fn compare_names_order() {
    assert_eq!(compare_names(&s("abc"), &s("abc")), 0);
    assert!(compare_names(&s("ab"), &s("abc")) < 0);
    assert!(compare_names(&s("abd"), &s("abc")) > 0);
    assert!(compare_names(&s(""), &s("a")) < 0);
    assert!(compare_names(&s("Z"), &s("a")) < 0);
    assert!(compare_names(&s("\u{e9}"), &s("z")) > 0);
}

#[test]
fn writes_folded_last_wins_sorted() {
    let ws = members(&[
        ("m", MemberType::Function),
        ("__x", MemberType::Value),
        ("c", MemberType::Value),
        ("m", MemberType::Method),
        ("a", MemberType::Value),
    ]);
    assert_eq!(
        shape_from_writes(&ws),
        members(&[("a", MemberType::Value), ("c", MemberType::Value), ("m", MemberType::Method)])
    );
    assert_eq!(shape_from_writes(&vec![]), vec![]);
}
