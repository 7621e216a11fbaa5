use turbolint_rules::text::{bytes_to_string, decimal_string};
use turbolint_rules::{
    apply_fixes, drop_suppressed, has_fallthrough_comment, is_radix_literal, is_suppressed, lint,
    lint_and_fix, lint_tree, line_at_exec, loses_precision, parse, strip_underscores,
    unwrap_parens, BraceStyle, Eqeqeq, Fix, HandleCallbackErr, NoDebugger, NoRestrictedSyntax,
    NoUndefInit, Rule, Severity, Span,
};

fn fix(start: u32, end: u32, text: &str) -> Fix {
    Fix { range: Span { start, end }, text: text.to_string() }
}

#[test]
fn diagnostics_carry_rule_name_and_severity() {
    let d = lint(Eqeqeq, "if (a == b) {}\nif (c != d) {}");
    assert_eq!(d.len(), 2);
    for x in &d {
        assert_eq!(x.rule_id, "eqeqeq");
        assert_eq!(x.severity, Severity::Error);
    }
    assert!(d[0].span.start < d[1].span.start);
    let w = lint(NoUndefInit, "var x = undefined;");
    assert_eq!(w[0].rule_id, "no-undef-init");
    assert_eq!(w[0].severity, Severity::Warning);
}

#[test]
fn retired_rules_report_nothing() {
    let src = "if (a == b) { debugger; } var x = undefined; function f(a,b,c,d,e) {}";
    assert!(lint(BraceStyle, src).is_empty());
    assert!(lint(HandleCallbackErr, src).is_empty());
    assert!(lint(NoRestrictedSyntax, src).is_empty());
    assert_eq!(BraceStyle.name(), "brace-style");
    assert_eq!(NoRestrictedSyntax.default_severity(), Severity::Warning);
}

#[test]
fn empty_source_gives_no_diagnostics() {
    assert!(lint(NoDebugger, "").is_empty());
    assert!(lint(Eqeqeq, "").is_empty());
}

#[test]
fn parse_builds_a_tree_over_the_source() {
    let t = parse("var x = 1;");
    assert!(t.node_count() > 0);
    assert!(t.has_kind(0, "program"));
    assert_eq!(t.start_byte(0), 0);
    assert_eq!(t.end_byte(0), 10);
    assert_eq!(t.source, "var x = 1;");
    let n = t.node_count();
    assert!((0..n).any(|i| t.has_kind(i, "variable_declarator") && t.text_equals(i, "x = 1")));
    assert!((0..n).any(|i| t.has_kind(i, "number") && t.text_equals(i, "1")));
    for i in 1..n {
        let p = t.parent_of(i).unwrap();
        assert!(p < i);
    }
}

#[test]
fn lint_tree_keeps_suppressed_diagnostics() {
    let src = "debugger; // eslint-disable-line\n";
    let t = parse(src);
    assert_eq!(lint_tree(&NoDebugger, &t).len(), 1);
    assert_eq!(drop_suppressed(src, lint_tree(&NoDebugger, &t)).len(), 0);
    assert!(lint(NoDebugger, src).is_empty());
}

#[test]
fn unwrap_parens_is_idempotent() {
    let t = parse("var y = ((a));");
    let n = t.node_count();
    let outer = (0..n)
        .find(|&i| t.has_kind(i, "parenthesized_expression"))
        .unwrap();
    let inner = unwrap_parens(&t, outer);
    assert!(t.has_kind(inner, "identifier"));
    assert!(t.text_equals(inner, "a"));
    assert_eq!(unwrap_parens(&t, inner), inner);
    let plain = (0..n).find(|&i| t.has_kind(i, "identifier")).unwrap();
    assert_eq!(unwrap_parens(&t, plain), plain);
}

#[test]
fn no_fixes_leave_the_source() {
    let r = apply_fixes("hello world", vec![]);
    assert!(!r.fixed);
    assert_eq!(r.output, "hello world");
}

#[test]
fn one_fix_replaces_its_range() {
    let r = apply_fixes("hello world", vec![fix(0, 5, "howdy")]);
    assert!(r.fixed);
    assert_eq!(r.output, "howdy world");
}

#[test]
fn fixes_apply_in_source_order() {
    let r = apply_fixes("hello world", vec![fix(6, 11, "there"), fix(0, 5, "howdy")]);
    assert!(r.fixed);
    assert_eq!(r.output, "howdy there");
}

#[test]
fn overlapping_fix_is_left_out() {
    let r = apply_fixes("hello world", vec![fix(0, 5, "A"), fix(3, 8, "B")]);
    assert!(r.fixed);
    assert_eq!(r.output, "A world");
}

#[test]
fn first_reported_fix_wins_at_same_start() {
    let r = apply_fixes("hello world", vec![fix(0, 5, "X"), fix(0, 2, "Y")]);
    assert_eq!(r.output, "X world");
}

#[test]
fn insertion_fix() {
    let r = apply_fixes("hello world", vec![fix(5, 5, ",")]);
    assert!(r.fixed);
    assert_eq!(r.output, "hello, world");
}

#[test]
fn fix_outside_source_is_ignored() {
    let r = apply_fixes("abc", vec![fix(1, 9, "x"), fix(2, 1, "y")]);
    assert!(!r.fixed);
    assert_eq!(r.output, "abc");
}

#[test]
fn fix_that_breaks_utf8_is_not_applied() {
    let r = apply_fixes("\u{e9}", vec![fix(0, 1, "")]);
    assert!(!r.fixed);
    assert_eq!(r.output, "\u{e9}");
}

#[test]
fn fixes_of_suppressed_diagnostics_are_not_applied() {
    let r = lint_and_fix(NoDebugger, "debugger; // eslint-disable-line\ndebugger;");
    assert!(r.fixed);
    assert_eq!(r.output, "debugger; // eslint-disable-line\n");
}

#[test]
fn eqeqeq_fix_on_several_operators() {
    let r = lint_and_fix(Eqeqeq, "if (a == b && c != d) {}");
    assert!(r.fixed);
    assert_eq!(r.output, "if (a === b && c !== d) {}");
}

#[test]
fn line_numbers() {
    let s = "a\nb\nc".as_bytes();
    assert_eq!(line_at_exec(s, 0), 0);
    assert_eq!(line_at_exec(s, 2), 1);
    assert_eq!(line_at_exec(s, 4), 2);
    assert_eq!(line_at_exec(s, 100), 2);
}

#[test]
fn directive_scopes() {
    let s = "x;\n// eslint-disable-next-line no-a, no-b -- why\ny;\n/* eslint-disable no-c */\nz;\n/* eslint-enable */\nw;\n"
        .as_bytes();
    assert!(!is_suppressed(s, b"no-a", 0));
    assert!(!is_suppressed(s, b"no-a", 1));
    assert!(is_suppressed(s, b"no-a", 2));
    assert!(is_suppressed(s, b"no-b", 2));
    assert!(!is_suppressed(s, b"no-c", 2));
    assert!(!is_suppressed(s, b"why", 2));
    assert!(is_suppressed(s, b"no-c", 3));
    assert!(is_suppressed(s, b"no-c", 4));
    assert!(!is_suppressed(s, b"no-c", 5));
    assert!(!is_suppressed(s, b"no-c", 6));
}

#[test]
fn no_directive_text_suppresses_nothing() {
    let s = "debugger; // eslint disable line\n".as_bytes();
    assert!(!is_suppressed(s, b"no-debugger", 0));
    assert_eq!(lint(NoDebugger, "debugger; // eslint disable line\n").len(), 1);
}

#[test]
fn loses_precision_values() {
    assert!(loses_precision("9007199254740993"));
    assert!(loses_precision("9007199254740992"));
    assert!(!loses_precision("9007199254740991"));
    assert!(!loses_precision("-9007199254740991"));
    assert!(loses_precision("-9007199254740992"));
    assert!(loses_precision("+9007199254740992"));
    assert!(!loses_precision("9007199254740993.0"));
    assert!(!loses_precision("9e20"));
    assert!(!loses_precision("170141183460469231731687303715884105728"));
    assert!(loses_precision("170141183460469231731687303715884105727"));
    assert!(loses_precision("-170141183460469231731687303715884105728"));
    assert!(!loses_precision("-170141183460469231731687303715884105729"));
    assert!(!loses_precision(""));
    assert!(!loses_precision("-"));
    assert!(!loses_precision("12a"));
}

#[test]
fn radix_literals() {
    assert!(is_radix_literal(b"0x1F"));
    assert!(is_radix_literal(b"0B101"));
    assert!(is_radix_literal(b"0o17"));
    assert!(!is_radix_literal(b"10"));
    assert!(!is_radix_literal(b"0"));
}

#[test]
fn underscores_are_stripped() {
    assert_eq!(strip_underscores(b"1_000_000"), b"1000000".to_vec());
    assert_eq!(strip_underscores(b"___"), Vec::<u8>::new());
    let once = strip_underscores(b"9_007_199_254_740_993");
    assert_eq!(strip_underscores(&once), once);
}

#[test]
fn fallthrough_comment_ignores_case() {
    assert!(has_fallthrough_comment("// Falls Through"));
    assert!(has_fallthrough_comment("/* FALLTHROUGH */"));
    assert!(has_fallthrough_comment("// fall through"));
    assert!(!has_fallthrough_comment("// keep going"));
}

#[test]
fn decimal_strings() {
    assert_eq!(decimal_string(0), "0");
    assert_eq!(decimal_string(1234), "1234");
    assert_eq!(decimal_string(10), "10");
}

#[test]
fn bytes_decode_as_utf8() {
    assert_eq!(bytes_to_string(b"caf\xc3\xa9"), "caf\u{e9}");
    assert_eq!(bytes_to_string(b"\xff\xfe"), "");
}

#[test]
fn diagnostics_lie_within_the_source() {
    let src = "var obj = { a: 1, a: 2 };\nswitch (x) { case 1: break; case 1: break; }\nif (a == b) {}\nvar u = undefined;\n";
    let mut all = Vec::new();
    all.extend(lint(turbolint_rules::NoDupeKeys, src));
    all.extend(lint(turbolint_rules::NoDuplicateCase, src));
    all.extend(lint(Eqeqeq, src));
    all.extend(lint(NoUndefInit, src));
    assert_eq!(all.len(), 4);
    for d in &all {
        assert!(d.span.start <= d.span.end);
        assert!(d.span.end as usize <= src.len());
        if let Some(f) = &d.fix {
            assert!(f.range.start as usize <= src.len());
            assert!(f.range.end as usize <= src.len());
        }
    }
}

#[test]
fn fixed_source_lints_clean() {
    let r = lint_and_fix(Eqeqeq, "if (a == b && c != d) { x = y == z; }");
    assert!(r.fixed);
    assert!(lint(Eqeqeq, &r.output).is_empty());
    let r = lint_and_fix(NoDebugger, "debugger;\nfoo();\ndebugger;\n");
    assert!(r.fixed);
    assert_eq!(r.output, "\nfoo();\n\n");
    assert!(lint(NoDebugger, &r.output).is_empty());
}

#[test]
fn parse_copies_fields_and_children_in_order() {
    let t = parse("var x = 1;");
    let n = t.node_count();
    let decl = (0..n).find(|&i| t.has_kind(i, "variable_declarator")).unwrap();
    let name = t.child_by_field_name(decl, "name").unwrap();
    let value = t.child_by_field_name(decl, "value").unwrap();
    assert!(t.text_equals(name, "x"));
    assert!(t.text_equals(value, "1"));
    assert!(name < value);
    assert_eq!(t.parent_of(name), Some(decl));
    let kids = t.named_children_of(decl);
    assert_eq!(kids, vec![name, value]);
    for i in 0..n {
        for &c in &t.nodes[i].children {
            assert_eq!(t.parent_of(c), Some(i));
        }
    }
}

#[test]
fn fallthrough_comment_survives_concatenation() {
    let a = "/* Falls Through */";
    for b in ["", "x", "case 2:", "// other"] {
        assert!(has_fallthrough_comment(&format!("{}{}", a, b)));
        assert!(has_fallthrough_comment(&format!("{}{}", b, a)));
    }
    assert!(has_fallthrough_comment("FALLTHROUGH") && has_fallthrough_comment("fallthrough"));
}
