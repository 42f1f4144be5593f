use sv_frontend::{FileRun, IncludeSession, MacroDef, PreprocessStep, Preprocessor, MAX_INCLUDE_DEPTH};

fn run(source: &str) -> String {
    Preprocessor::new().preprocess(source)
}

#[test]
fn plain_text_passes_unchanged() {
    assert_eq!(
        run("module m;\n  assign a = b;\r\nendmodule"),
        "module m;\n  assign a = b;\nendmodule\n"
    );
}

#[test]
fn empty_source_gives_empty_output() {
    assert_eq!(run(""), "");
    assert_eq!(run("\n"), "\n");
}

#[test]
fn object_like_macro_expands() {
    assert_eq!(
        run("`define WIDTH 8\nlogic [`WIDTH-1:0] x;"),
        "\nlogic [8-1:0] x;\n"
    );
}

#[test]
fn function_like_macro_substitutes_arguments() {
    assert_eq!(
        run("`define ADD(a, b) a+b\nassign y = `ADD(x, 1);"),
        "\nassign y = x+1;\n"
    );
}

#[test]
fn nested_parentheses_in_arguments() {
    assert_eq!(
        run("`define F(p) [p]\nz = `F(g(1, 2));"),
        "\nz = [g(1, 2)];\n"
    );
}

#[test]
fn parameterized_macro_without_call_gives_raw_body() {
    assert_eq!(run("`define F(p) p+p\nz = `F;"), "\nz = p+p;\n");
}

#[test]
fn macros_expanding_to_macros_expand_again() {
    assert_eq!(run("`define A `B\n`define B 5\nx = `A;"), "\n\nx = 5;\n");
}

#[test]
fn undefined_macro_use_stays() {
    assert_eq!(run("`FOO bar"), "`FOO bar\n");
}

#[test]
fn ifdef_else_endif_selects_branch() {
    assert_eq!(
        run("`define FOO\n`ifdef FOO\na\n`else\nb\n`endif"),
        "\n\na\n\n\n\n"
    );
    assert_eq!(run("`ifdef FOO // note\na\n`else\nb\n`endif"), "\n\n\nb\n\n");
}

#[test]
fn ifndef_selects_branch() {
    assert_eq!(run("`ifndef BAR\nc\n`endif"), "\nc\n\n");
}

#[test]
fn define_inside_inactive_branch_is_ignored() {
    let mut pp = Preprocessor::new();
    let out = pp.preprocess("`ifdef NOPE\n`define HIDDEN 1\n`endif");
    assert_eq!(out, "\n\n\n");
    assert!(!pp.is_defined("HIDDEN"));
}

#[test]
fn undef_removes_macro() {
    let mut pp = Preprocessor::new();
    assert_eq!(pp.preprocess("`define X 1\n`undef X\n`ifdef X\ny\n`endif"), "\n\n\n\n\n");
    assert!(!pp.is_defined("X"));
}

#[test]
fn attributes_are_removed() {
    assert_eq!(run("(* keep *)\nwire (* mark *) w;"), "\nwire   w;\n");
}

#[test]
fn unterminated_attribute_is_kept() {
    assert_eq!(run("a (*bcd"), "a (*bcd\n");
    assert_eq!(run("always @(*) begin"), "always @(*) begin\n");
    assert_eq!(run("always @(*) x = (* a *) y;"), "always @(*) x =   y;\n");
    assert_eq!(run("a (*) b *) c"), "a (*) b *) c\n");
}

#[test]
fn include_is_skipped_without_file_context() {
    assert_eq!(run("`include \"a.v\"\nx"), "\nx\n");
}

#[test]
fn tool_directives_are_dropped() {
    assert_eq!(run("`timescale 1ns/1ps\n`default_nettype none\nx"), "\n\nx\n");
}

#[test]
fn non_ascii_outside_macro_call_cannot_be_expanded() {
    let mut pp = Preprocessor::new();
    assert_eq!(pp.try_preprocess("a\n// \u{e9}\n"), None);
}

#[test]
fn non_ascii_in_define_line_is_fine() {
    let mut pp = Preprocessor::new();
    assert_eq!(pp.try_preprocess("`define C \u{e9}\nx"), Some("\nx\n".to_string()));
}

#[test]
fn non_ascii_argument_is_kept() {
    let mut pp = Preprocessor::new();
    assert_eq!(
        pp.try_preprocess("`define M(a) a\ny = `M(\u{e9});"),
        Some("\ny = \u{e9};\n".to_string())
    );
}

#[test]
fn parameters_are_replaced_at_once() {
    let mut pp = Preprocessor::new();
    pp.define(
        "F".to_string(),
        MacroDef {
            name: "F".to_string(),
            params: Some(vec!["a".to_string(), "b".to_string()]),
            body: "a+b".to_string(),
        },
    );
    assert_eq!(pp.preprocess("`F(b, c)"), "b+c\n");
    assert_eq!(pp.preprocess("`F(x)"), "x+b\n");
}

#[test]
fn unicode_macro_name_is_accepted() {
    let mut pp = Preprocessor::new();
    pp.preprocess("`define \u{3b1}\u{3b2} 1");
    assert!(pp.is_defined("\u{3b1}\u{3b2}"));
}

#[test]
fn define_then_is_defined() {
    let mut pp = Preprocessor::new();
    assert!(!pp.is_defined("N"));
    pp.define(
        "N".to_string(),
        MacroDef { name: "N".to_string(), params: None, body: "42".to_string() },
    );
    assert!(pp.is_defined("N"));
    assert_eq!(pp.preprocess("v = `N;"), "v = 42;\n");
}

#[test]
fn defined_parameterized_macro_from_api() {
    let mut pp = Preprocessor::new();
    pp.define(
        "MUL".to_string(),
        MacroDef {
            name: "MUL".to_string(),
            params: Some(vec!["x".to_string(), "y".to_string()]),
            body: "x*y".to_string(),
        },
    );
    assert_eq!(pp.preprocess("`MUL(3, 4)"), "3*4\n");
}

#[test]
fn with_defines_binds_names() {
    let mut pp = Preprocessor::with_defines(vec![
        ("A".to_string(), "1".to_string()),
        ("B".to_string(), "2".to_string()),
    ]);
    assert!(pp.is_defined("A") && pp.is_defined("B"));
    assert_eq!(pp.preprocess("`A+`B"), "1+2\n");
}

#[test]
fn default_is_empty() {
    let pp = Preprocessor::default();
    assert!(!pp.is_defined("A"));
}

#[test]
fn add_include_dir_keeps_one_copy_per_path() {
    let mut pp = Preprocessor::new();
    pp.add_include_dir("inc".to_string());
    pp.add_include_dir("inc/".to_string());
    pp.add_include_dir("inc".to_string());
    pp.add_include_dir("other".to_string());
    assert_eq!(pp.include_search_order(None), vec!["inc".to_string(), "other".to_string()]);
    assert_eq!(
        pp.include_search_order(Some("src".to_string())),
        vec!["src".to_string(), "inc".to_string(), "other".to_string()]
    );
}

#[test]
fn set_include_dirs_replaces_list() {
    let mut pp = Preprocessor::new();
    pp.add_include_dir("a".to_string());
    pp.set_include_dirs(vec!["b".to_string(), "c".to_string()]);
    assert_eq!(pp.include_search_order(None), vec!["b".to_string(), "c".to_string()]);
}

fn finish(pp: &mut Preprocessor, s: &mut IncludeSession) -> String {
    loop {
        match pp.step(s) {
            PreprocessStep::Continue => {}
            PreprocessStep::Done(text) => return text,
            other => panic!("unexpected step {:?}", matches!(other, PreprocessStep::Unreadable)),
        }
    }
}

#[test]
fn session_inserts_included_file() {
    let mut pp = Preprocessor::new();
    let mut s = IncludeSession::start("`include \"x.v\"\na", "top.v".to_string());
    match pp.step(&mut s) {
        PreprocessStep::Include { file, from } => {
            assert_eq!(file, "x.v");
            assert_eq!(from, "top.v");
        }
        _ => panic!("expected an include request"),
    }
    pp.enter_include(&mut s, "`define Y 7\nb\n", "dir/x.v".to_string());
    assert_eq!(finish(&mut pp, &mut s), "\nb\na\n");
    assert!(pp.is_defined("Y"));
}

#[test]
fn session_angle_bracket_include() {
    let mut pp = Preprocessor::new();
    let mut s = IncludeSession::start("`include <lib.svh>", "t.v".to_string());
    match pp.step(&mut s) {
        PreprocessStep::Include { file, .. } => assert_eq!(file, "lib.svh"),
        _ => panic!("expected an include request"),
    }
    s.skip_include();
    assert_eq!(finish(&mut pp, &mut s), "\n");
}

#[test]
fn session_skipped_include_leaves_empty_line() {
    let mut pp = Preprocessor::new();
    let mut s = IncludeSession::start("`include \"missing.v\"\na", "top.v".to_string());
    assert!(matches!(pp.step(&mut s), PreprocessStep::Include { .. }));
    s.skip_include();
    assert_eq!(finish(&mut pp, &mut s), "\na\n");
}

#[test]
fn session_inactive_include_is_not_requested() {
    let mut pp = Preprocessor::new();
    let mut s = IncludeSession::start("`ifdef NO\n`include \"x.v\"\n`endif", "top.v".to_string());
    assert_eq!(finish(&mut pp, &mut s), "\n\n\n");
}

#[test]
fn session_stops_at_depth_limit() {
    let mut pp = Preprocessor::new();
    let text = "`include \"self.v\"";
    let mut s = IncludeSession::start(text, "self.v".to_string());
    let mut requests = 0;
    let mut too_deep = 0;
    let out = loop {
        match pp.step(&mut s) {
            PreprocessStep::Include { .. } => {
                requests += 1;
                pp.enter_include(&mut s, text, "self.v".to_string());
            }
            PreprocessStep::TooDeep { file } => {
                assert_eq!(file, "self.v");
                too_deep += 1;
            }
            PreprocessStep::Continue => {}
            PreprocessStep::Done(t) => break t,
            PreprocessStep::Unreadable => panic!("unreadable"),
        }
    };
    assert_eq!(requests, MAX_INCLUDE_DEPTH);
    assert_eq!(too_deep, 1);
    assert_eq!(out, "\n");
}

#[test]
fn session_reports_unreadable_line() {
    let mut pp = Preprocessor::new();
    let mut s = IncludeSession::start("ok\n\u{e9}", "t.v".to_string());
    assert!(matches!(pp.step(&mut s), PreprocessStep::Continue));
    assert!(matches!(pp.step(&mut s), PreprocessStep::Unreadable));
    assert!(matches!(pp.step(&mut s), PreprocessStep::Unreadable));
}

#[test]
fn output_keeps_one_line_per_source_line() {
    let src = "`define W 8\n`ifdef NOPE\nwire a;\n`else\nwire [`W-1:0] b;\n`endif\n(* keep *)\n`timescale 1ns/1ps\nassign x = `W;";
    let out = run(src);
    assert_eq!(out.matches('\n').count(), src.lines().count());
    assert_eq!(out, "\n\n\n\nwire [8-1:0] b;\n\n\n\nassign x = 8;\n");
}

#[test]
fn session_without_include_matches_preprocess() {
    let src = "`define ADD(a, b) a + b\n`ifdef SKIP\n`include \"never.v\"\n`endif\ny = `ADD(1, 2);\nz = 0;";
    let mut a = Preprocessor::new();
    let expected = a.preprocess(src);
    let mut b = Preprocessor::new();
    let mut s = IncludeSession::start(src, "top.sv".to_string());
    assert_eq!(finish(&mut b, &mut s), expected);
    assert_eq!(expected, "\n\n\n\ny = 1 + 2;\nz = 0;\n");
    assert!(a.is_defined("ADD") && b.is_defined("ADD"));
}

#[test]
fn define_with_given_letter_flags() {
    let mut pp = Preprocessor::new();
    let line = "`define A_1(x) x+1";
    let letters: Vec<bool> = line[7..].trim().chars().map(|c| c.is_alphanumeric()).collect();
    pp.define_with_letters(line, &letters);
    assert!(pp.is_defined("A_1"));
    assert_eq!(pp.preprocess("`A_1(2)"), "2+1\n");
    let none = vec![false; line[7..].trim().chars().count()];
    let mut other = Preprocessor::new();
    other.define_with_letters("`define B 2", &none[..3]);
    assert!(!other.is_defined("B"));
}

#[test]
fn file_without_path_is_preprocessed_at_once() {
    let src = "`include \"a.v\"\n`define A 1\nx = `A;";
    let mut p1 = Preprocessor::new();
    let mut p2 = Preprocessor::new();
    match p1.start_file(src, None) {
        FileRun::Finished(Some(text)) => assert_eq!(text, p2.preprocess(src)),
        _ => panic!("expected a finished text"),
    }
    assert!(p1.is_defined("A") && p2.is_defined("A"));
    match p1.start_file("a", Some("t.v".to_string())) {
        FileRun::Session(mut s) => assert_eq!(finish(&mut p1, &mut s), "a\n"),
        _ => panic!("expected a session"),
    }
}

#[test]
fn include_candidates_follow_search_order() {
    let mut pp = Preprocessor::new();
    pp.add_include_dir("inc".to_string());
    let c = pp.include_candidates("a.svh", Some("src".to_string()));
    assert_eq!(c.len(), 2);
    assert!(c[0].starts_with("src") && c[0].ends_with("a.svh"));
    assert!(c[1].starts_with("inc") && c[1].ends_with("a.svh"));
    assert_ne!(c[0], "a.svh".to_string());
    assert_eq!(pp.include_candidates("/abs/a.svh", Some("src".to_string())), vec!["/abs/a.svh".to_string()]);
}

#[test]
fn parameters_match_whole_identifiers() {
    assert_eq!(
        run("`define F(a) data+a+a_1+(a)\nx = `F(7);"),
        "\nx = data+7+a_1+(7);\n"
    );
}

#[test]
fn expansion_stops_after_seventeen_passes() {
    let mut src = String::new();
    for k in 0..20 {
        src.push_str(&format!("`define M{} `M{}\n", k, k + 1));
    }
    src.push_str("`M0");
    let out = run(&src);
    assert!(out.ends_with("`M17\n"));
}
