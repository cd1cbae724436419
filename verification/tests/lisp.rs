//! The `(def<block> …)` authoring forms.

use kazari::lisp::{block_from_lisp, parse, LispError, Sexp};
use kazari::{Capability, ColorLevel, Print};

fn plain(src: &str) -> String {
    block_from_lisp(src)
        .unwrap()
        .to_string_at(Capability::fixed(ColorLevel::NoColor, 80, false))
}

#[test]
fn parses_callout() {
    assert!(plain(r#"(defcallout :severity error :message "boom")"#).contains("[ERROR] boom"));
    assert!(plain(r#"(defcallout :severity ok :message "done")"#).contains("[OK] done"));
}

#[test]
fn parses_callout_with_title() {
    let s = plain(r#"(defcallout :severity warn :title "cache" :message "miss")"#);
    assert!(s.contains("cache") && s.contains("miss"));
}

#[test]
fn parses_banner_and_bare() {
    assert!(plain(r#"(defbanner :title "sui")"#).contains("sui"));
    let bare = plain(r#"(defbanner :title "sui" :snowflake false)"#);
    assert!(bare.contains("sui") && !bare.contains('*'));
}

#[test]
fn parses_panel_rows() {
    let s = plain(r#"(defpanel :rows (("path" "/nix/store") ("size" "42 MiB")))"#);
    assert!(s.contains("path") && s.contains("/nix/store") && s.contains(" : "));
}

#[test]
fn parses_table() {
    let s = plain(r#"(deftable :headers ("Domain" "Gate") :rows (("derivation" "Working")))"#);
    assert!(s.contains("Domain") && s.contains("derivation") && s.contains("Working"));
}

#[test]
fn parses_list_with_tasks() {
    let s = plain(r#"(deflist :items ((task ok "fetch") (task error "build") "note"))"#);
    assert!(s.contains("[OK] fetch") && s.contains("[ERROR] build") && s.contains("note"));
}

#[test]
fn typed_errors_never_panic() {
    assert!(matches!(block_from_lisp("(defbogus)"), Err(LispError::UnknownForm(_))));
    assert!(matches!(block_from_lisp("(defcallout :severity error)"), Err(LispError::BadArg(_))));
    assert!(matches!(block_from_lisp("(defcallout"), Err(LispError::Unterminated(_))));
    assert!(matches!(block_from_lisp(""), Err(LispError::Empty)));
}

#[test]
fn comments_and_whitespace_ok() {
    let s = plain("; a comment\n  (defcallout :severity info  :message \"spaced\")  ");
    assert!(s.contains("[INFO] spaced"));
}

#[test]
fn every_error_variant_and_its_message() {
    let e = block_from_lisp(")").err().unwrap();
    assert_eq!(e, LispError::Unexpected(')'));
    assert_eq!(e.to_string(), "unexpected char )");
    let e = block_from_lisp("foo").err().unwrap();
    assert_eq!(e, LispError::ExpectedList);
    assert_eq!(e.to_string(), "expected a (form …) list");
    let e = block_from_lisp("()").err().unwrap();
    assert_eq!(e, LispError::Empty);
    assert_eq!(e.to_string(), "empty input");
    let e = block_from_lisp("(\"x\")").err().unwrap();
    assert_eq!(e, LispError::BadArg("expected a symbol"));
    assert_eq!(e.to_string(), "bad argument: expected a symbol");
    let e = block_from_lisp("(defcallout :severity loud :message \"m\")").err().unwrap();
    assert_eq!(e, LispError::BadArg("unknown severity"));
    let e = block_from_lisp("(defbogus)").err().unwrap();
    assert_eq!(e.to_string(), "unknown form: defbogus");
    let e = block_from_lisp("(defbanner :title \"x").err().unwrap();
    assert!(matches!(e, LispError::Unterminated(_)));
    assert!(e.to_string().starts_with("unterminated "));
}

#[test]
fn rule_badge_and_list_forms() {
    assert_eq!(
        block_from_lisp("(defrule :label x)")
            .unwrap()
            .to_string_at(Capability::fixed(ColorLevel::NoColor, 20, false)),
        "-- x ---------------\n"
    );
    assert_eq!(plain("(defrule)").len(), 81);
    assert_eq!(plain("(defbadge :text \"v2\" :severity warn)"), "[ v2 ]\n");
    assert_eq!(plain("(defbadge :text v2 :role ident)"), "[ v2 ]\n");
    assert_eq!(
        block_from_lisp("(defbadge :text v2 :role loud)").err().unwrap(),
        LispError::BadArg("unknown role")
    );
    assert_eq!(plain("(deflist :items (a (task warn b)))"), "  - a\n  [WARN] b\n");
    assert_eq!(plain("(defpanel :title t :rows ((k v)))"), "t\n  k : v\n");
}

#[test]
fn number_tokens_follow_the_f64_grammar() {
    let toks = [
        "1", "-1", "+1.5", "1e3", "1E-3", "1.", ".5", ".", "e3", "1e", "1e+", "inf", "-Infinity",
        "NaN", "nan1", "infin", "1_000", "0x10", "--1", "+", "", "1.2.3", "3.14e+10", "1e3.5",
    ];
    for t in toks {
        let chars: Vec<char> = t.chars().collect();
        assert_eq!(kazari::lisp::float_literal(&chars), t.parse::<f64>().is_ok(), "{t:?}");
    }
}

#[test]
fn whitespace_matches_std() {
    for c in ['\t', '\n', ' ', '\u{85}', '\u{a0}', '\u{2003}', '\u{3000}', 'a', '\u{200b}', '\u{feff}'] {
        assert_eq!(kazari::lisp::is_whitespace(c), c.is_whitespace(), "{c:?}");
    }
}

#[test]
fn numbers_and_keywords_read() {
    match parse("(a :k 1.5 \"s\")").unwrap() {
        Sexp::List(v) => {
            assert!(matches!(&v[0], Sexp::Sym(s) if s == "a"));
            assert!(matches!(&v[1], Sexp::Kw(s) if s == "k"));
            assert!(matches!(&v[2], Sexp::Num(s) if s == "1.5"));
            assert!(matches!(&v[3], Sexp::Str(s) if s == "s"));
            assert_eq!(v[2].as_num().ok(), Some("1.5"));
            assert!(v[3].as_num().is_err());
        }
        _ => panic!("expected a list"),
    }
}

#[test]
fn severity_tags_read_back() {
    for sev in kazari::CalloutSeverity::ALL {
        let src = format!("(defcallout :severity {} :message m)", sev.tag().to_ascii_lowercase());
        let mut expect = String::from("[");
        expect.push_str(sev.tag());
        expect.push_str("] m\n");
        assert_eq!(plain(&src), expect);
    }
}
