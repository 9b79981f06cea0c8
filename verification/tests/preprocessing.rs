//! Conditional blocks in shader sources.

use noesis_bevy::render_device::shader_preproc::{
    preprocess, try_preprocess, DefineSet, PreprocError,
};

fn defs(names: &[&'static str]) -> DefineSet {
    DefineSet::of(names)
}

#[test]
fn passes_through_when_no_directives() {
    let out = preprocess("foo\nbar\n", &defs(&[]));
    assert_eq!(out, "foo\nbar\n");
}

#[test]
fn ifdef_kept_when_defined() {
    let out = preprocess("a\n#ifdef X\nb\n#endif\nc\n", &defs(&["X"]));
    assert_eq!(out, "a\nb\nc\n");
}

#[test]
fn ifdef_dropped_when_undefined() {
    let out = preprocess("a\n#ifdef X\nb\n#endif\nc\n", &defs(&[]));
    assert_eq!(out, "a\nc\n");
}

#[test]
fn ifndef_complements_ifdef() {
    let out = preprocess("#ifndef X\nb\n#endif\n", &defs(&[]));
    assert_eq!(out, "b\n");
    let out = preprocess("#ifndef X\nb\n#endif\n", &defs(&["X"]));
    assert_eq!(out, "");
}

#[test]
fn nested_ifdef_works() {
    let src = "#ifdef A\nouter\n#ifdef B\ninner\n#endif\nafter\n#endif\n";
    assert_eq!(preprocess(src, &defs(&["A", "B"])), "outer\ninner\nafter\n");
    assert_eq!(preprocess(src, &defs(&["A"])), "outer\nafter\n");
    assert_eq!(preprocess(src, &defs(&["B"])), "");
}

#[test]
fn unbalanced_sources_are_refused() {
    assert!(matches!(
        try_preprocess("a\n#endif\n", &defs(&[])),
        Err(PreprocError::UnmatchedEndif { line: 2 })
    ));
    assert!(matches!(
        try_preprocess("#ifdef X\na\n", &defs(&[])),
        Err(PreprocError::Unterminated { open: 1 })
    ));
    assert_eq!(try_preprocess("a", &defs(&[])).ok(), Some("a\n".to_string()));
}

#[test]
fn balance_does_not_depend_on_defines() {
    let bad = "#ifdef A\n#ifndef B\n#endif\n";
    let good = "#ifdef A\n#ifndef B\n#endif\n#endif\n";
    for names in [&[][..], &["A"], &["B"], &["A", "B"]] {
        assert!(try_preprocess(bad, &defs(names)).is_err());
        assert!(try_preprocess(good, &defs(names)).is_ok());
    }
}

#[test]
fn directives_may_be_indented() {
    let out = preprocess("  #ifdef  X \n  b\n\t#endif\n", &defs(&["X"]));
    assert_eq!(out, "  b\n");
    let out = preprocess("\u{2003}#ifdef X\nb\n#endif\n", &defs(&[]));
    assert_eq!(out, "");
}

#[test]
fn unmentioned_define_is_irrelevant() {
    let src = "a\n#ifdef X\nb\n#endif\n";
    assert_eq!(preprocess(src, &defs(&["Y"])), preprocess(src, &defs(&[])));
}

#[test]
fn define_sets_hold_each_name_once() {
    let mut d = DefineSet::new();
    assert!(!d.contains("A"));
    assert!(d.insert("A"));
    assert!(!d.insert("A"));
    assert!(d.contains("A"));
}

#[test]
fn preprocessing_again_changes_nothing() {
    let src = "a\n#ifdef X\nb\n#ifndef Y\nc\n#endif\n#endif\n  d";
    for names in [&[][..], &["X"], &["Y"], &["X", "Y"]] {
        let out = preprocess(src, &defs(names));
        assert!(!out.contains('#'));
        assert!(out.ends_with('\n'));
        for again in [&[][..], &["X"], &["Y"]] {
            assert_eq!(preprocess(&out, &defs(again)), out);
        }
    }
    assert_eq!(preprocess("#ifdef X\na\n#endif", &defs(&[])), "");
    // A second carriage return is a part of the line, and then of its ending.
    let once = preprocess("a\r\r\n", &defs(&[]));
    assert_eq!(once, "a\r\n");
    assert_eq!(preprocess(&once, &defs(&[])), "a\n");
}

#[test]
fn parts_are_preprocessed_one_by_one() {
    let a = "a\n#ifdef X\nb\n#endif\n";
    let b = "#ifndef X\nc\n#endif\nd";
    let whole = format!("{a}{b}");
    for names in [&[][..], &["X"]] {
        let d = defs(names);
        assert_eq!(preprocess(&whole, &d), preprocess(a, &d) + &preprocess(b, &d));
    }
    let bad = "#endif\n";
    assert!(try_preprocess(&format!("{a}{bad}"), &defs(&[])).is_err());
}

#[test]
fn a_block_stands_for_its_body() {
    let body = "a\n#ifdef Y\nb\n#endif\n";
    let block = format!("#ifdef X\n{body}#endif\n");
    let inverse = format!("#ifndef X\n{body}#endif\n");
    for names in [&["Y"][..], &["X", "Y"], &["X"], &[]] {
        let d = defs(names);
        let (kept, dropped) = if d.contains("X") { (&block, &inverse) } else { (&inverse, &block) };
        assert_eq!(preprocess(kept, &d), preprocess(body, &d));
        assert_eq!(preprocess(dropped, &d), "");
    }
}
