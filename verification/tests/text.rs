use zap::config::Stmt;
use zap::output::Output;
use zap::text::{cat2, cat3, cat4, cat5, decimal_string, digit_str};

#[test]
fn decimal_numerals() {
    assert_eq!(decimal_string(0), "0");
    assert_eq!(decimal_string(7), "7");
    assert_eq!(decimal_string(10), "10");
    assert_eq!(decimal_string(99), "99");
    assert_eq!(decimal_string(100), "100");
    assert_eq!(decimal_string(1234567890), "1234567890");
    assert_eq!(decimal_string(usize::MAX), usize::MAX.to_string());
    for d in 0..10 {
        assert_eq!(digit_str(d), d.to_string());
    }
}

#[test]
fn concatenation() {
    assert_eq!(cat2("a", "b"), "ab");
    assert_eq!(cat3("a", "", "c"), "ac");
    assert_eq!(cat4("a", "b", "c", "d"), "abcd");
    assert_eq!(cat5("a", "b", "c", "d", "e"), "abcde");
}

#[test]
fn lines_are_indented_by_depth() {
    let mut out = Output::new();
    out.push_line("a");
    out.indent();
    out.push_line("b");
    out.indent();
    out.push_line("c");
    out.dedent();
    out.push_line("d");
    out.dedent();
    out.push_line("e");
    out.push("f");
    out.push_usize(42);
    out.push_tabs(2);
    out.push_indent();
    out.push_usize(0);
    assert_eq!(out.finish(), "a\n\tb\n\t\tc\n\td\ne\nf42\t\t0");
}

#[test]
fn statements_are_placed_below_the_current_depth() {
    let stmts = vec![
        Stmt { depth: 0, check: false, parts: vec!["for i = 1, 2 do".to_string()] },
        Stmt { depth: 1, check: true, parts: vec!["assert(i > 0)".to_string()] },
        Stmt { depth: 1, check: false, parts: vec!["write(i)".to_string()] },
        Stmt { depth: 0, check: false, parts: vec!["end".to_string()] },
    ];
    let mut out = Output::new();
    out.indent();
    out.push_stmts(&stmts, true, "v");
    out.push_stmts(&stmts, false, "v");
    out.push_stmts(&Vec::new(), true, "v");
    out.push_stmt(&stmts[1], false, "v");
    out.push_stmt(&stmts[1], true, "v");
    assert_eq!(
        out.finish(),
        "\tfor i = 1, 2 do\n\t\tassert(i > 0)\n\t\twrite(i)\n\tend\n\tfor i = 1, 2 do\n\t\twrite(i)\n\tend\n\t\tassert(i > 0)\n"
    );
}

#[test]
fn validating_and_writing_statements_are_told_apart() {
    let stmts = vec![
        Stmt { depth: 0, check: false, parts: vec!["w1".to_string()] },
        Stmt { depth: 0, check: true, parts: vec!["c1".to_string()] },
        Stmt { depth: 1, check: true, parts: vec!["c2".to_string()] },
        Stmt { depth: 2, check: false, parts: vec!["w2".to_string()] },
        Stmt { depth: 0, check: true, parts: vec!["c3".to_string()] },
    ];
    let mut out = Output::new();
    out.indent();
    out.push_checks(&stmts, true, "v");
    assert_eq!(out.finish(), "\tc1\n\t\tc2\n\tc3\n");

    let mut out = Output::new();
    out.push_checks(&stmts, false, "v");
    assert_eq!(out.finish(), "");

    let mut out = Output::new();
    out.indent();
    out.push_writes(&stmts, "v");
    assert_eq!(out.finish(), "\tw1\n\t\t\tw2\n");

    let mut out = Output::new();
    out.push_part(&stmts, true, "v");
    out.push_part(&stmts, false, "v");
    out.push_part(&Vec::new(), true, "v");
    assert_eq!(out.finish(), "c1\n\tc2\nc3\nw1\n\t\tw2\n");
}

#[test]
fn the_name_of_the_value_fills_the_gaps() {
    let line = |parts: &[&str]| Stmt {
        depth: 0,
        check: false,
        parts: parts.iter().map(|p| p.to_string()).collect(),
    };
    assert_eq!(line(&[]).render("v"), "");
    assert_eq!(line(&["end"]).render("v"), "end");
    assert_eq!(line(&["", ""]).render("v"), "v");
    assert_eq!(line(&["write(", ")"]).render("value"), "write(value)");
    assert_eq!(line(&["", " = ", " + 1"]).render("Value"), "Value = Value + 1");
    assert_eq!(line(&["a", "b", "c", "d"]).render(""), "abcd");

    let mut out = Output::new();
    out.indent();
    out.push_stmt(&line(&["assert(", " > 0 and ", " < 9)"]), true, "x");
    assert_eq!(out.finish(), "\tassert(x > 0 and x < 9)\n");
}
