use codespan::FileId;
use nickel_diagnostics::diagnostic::{Annotation, Diagnostic, LabelStyle};
use nickel_diagnostics::error::{Error, EvalError, ToDiagnostic};
use nickel_diagnostics::label::{polarity_prose, Label, TyPath};
use nickel_diagnostics::registry::SourceRegistry;
use nickel_diagnostics::term::{CallStack, Ident, RawSpan, RichTerm};

const SYNTHETIC: &str = "<unkown> (generated by evaluation)";

fn registry_with_source() -> (SourceRegistry, FileId) {
    let mut reg = SourceRegistry::new();
    let id = reg.add("main.ncl", String::from("let x = 1 + 1 in x 3"));
    (reg, id)
}

fn span(src_id: FileId, start: u32, end: u32) -> RawSpan {
    RawSpan { src_id, start, end }
}

fn term(repr: &str, pos: Option<RawSpan>) -> RichTerm {
    RichTerm::new(String::from(repr), None, pos)
}

fn source_of(reg: &SourceRegistry, id: FileId) -> String {
    reg.files().source(id).clone()
}

fn name_of(reg: &SourceRegistry, id: FileId) -> String {
    reg.files().name(id).to_string_lossy().into_owned()
}

fn assert_over(a: &Annotation, s: &RawSpan, style: LabelStyle, message: &str) {
    assert_eq!(a.style, style);
    assert_eq!(a.file_id, s.src_id);
    assert_eq!(a.start, s.start as usize);
    assert_eq!(a.end, s.end as usize);
    assert_eq!(a.message, message);
}

fn all_variants(id: FileId) -> Vec<EvalError> {
    let s = span(id, 0, 3);
    let label = Label { tag: String::from("Num"), polarity: false, path: TyPath::Nil(), span: s };
    vec![
        EvalError::BlameError(label, None),
        EvalError::TypeError(String::from("Num"), String::from("+"), term("\"a\"", None)),
        EvalError::NotAFunc(term("2", None), term("3", None), None),
        EvalError::FieldMissing(String::from("foo"), String::from("."), term("{ }", None), None),
        EvalError::NotEnoughArgs(2, String::from("strings.length"), None),
        EvalError::MergeIncompatibleArgs(term("1", None), term("2", None), None),
        EvalError::UnboundIdentifier(Ident(String::from("y")), None),
        EvalError::Other(String::from("something broke"), Some(s)),
    ]
}

#[test]
fn unbound_identifier_without_position() {
    let (mut reg, _) = registry_with_source();
    let before = reg.len();
    let err = EvalError::UnboundIdentifier(Ident(String::from("x")), None);
    let d = err.to_diagnostic(&mut reg);
    assert_eq!(d.message, "Unbound identifier");
    assert_eq!(d.labels.len(), 1);
    assert!(d.notes.is_empty());
    let l = &d.labels[0];
    assert_eq!(l.style, LabelStyle::Primary);
    assert_eq!(l.message, "this identifier is unbound");
    assert_eq!(reg.len(), before + 1);
    assert_eq!(source_of(&reg, l.file_id), "x");
    assert_eq!(name_of(&reg, l.file_id), SYNTHETIC);
    assert_eq!((l.start, l.end), (1, 1));
}

#[test]
fn unbound_identifier_with_position() {
    let (mut reg, id) = registry_with_source();
    let s = span(id, 4, 5);
    let d = EvalError::UnboundIdentifier(Ident(String::from("x")), Some(s)).to_diagnostic(&mut reg);
    assert_eq!(reg.len(), 1);
    assert_eq!(d.labels.len(), 1);
    assert_over(&d.labels[0], &s, LabelStyle::Primary, "this identifier is unbound");
}

#[test]
fn not_enough_args_with_position() {
    let (mut reg, id) = registry_with_source();
    let s = span(id, 2, 9);
    let d = EvalError::NotEnoughArgs(2, "strings.length".into(), Some(s)).to_diagnostic(&mut reg);
    let msg = "strings.length expects 2 arguments, but not enough were provided";
    assert_eq!(d.message, msg);
    assert_eq!(d.labels.len(), 1);
    assert_over(&d.labels[0], &s, LabelStyle::Primary, msg);
    assert!(d.notes.is_empty());
    assert_eq!(reg.len(), 1);
}

#[test]
fn not_enough_args_without_position_gives_a_note() {
    let (mut reg, _) = registry_with_source();
    let d = EvalError::NotEnoughArgs(12, "fold".into(), None).to_diagnostic(&mut reg);
    let msg = "fold expects 12 arguments, but not enough were provided";
    assert_eq!(d.message, msg);
    assert!(d.labels.is_empty());
    assert_eq!(d.notes, vec![String::from(msg)]);
    assert_eq!(reg.len(), 1);
}

#[test]
fn not_enough_args_count_zero() {
    let (mut reg, _) = registry_with_source();
    let d = EvalError::NotEnoughArgs(0, "f".into(), None).to_diagnostic(&mut reg);
    assert_eq!(d.message, "f expects 0 arguments, but not enough were provided");
}

#[test]
fn blame_error_positive_nil_path() {
    let (mut reg, id) = registry_with_source();
    let s = span(id, 0, 3);
    let label = Label { tag: String::from("T"), polarity: true, path: TyPath::Nil(), span: s };
    let d = EvalError::BlameError(label, None).to_diagnostic(&mut reg);
    assert!(d.message.starts_with("Blame error: [T]."));
    assert!(d.message.contains("The blame is on the value (positive blame)"));
    assert_eq!(d.message, "Blame error: [T].  The blame is on the value (positive blame)\n");
    assert_eq!(d.labels.len(), 1);
    assert_over(&d.labels[0], &s, LabelStyle::Primary, "bound here");
    assert!(d.notes.is_empty());
    assert_eq!(reg.len(), 1);
}

#[test]
fn blame_error_negative_with_path() {
    let (mut reg, id) = registry_with_source();
    let s = span(id, 1, 2);
    let path = TyPath::Domain(Box::new(TyPath::Codomain(Box::new(TyPath::Nil()))));
    let label = Label { tag: String::from("Num -> Num"), polarity: false, path, span: s };
    let stack = CallStack { frames: vec![s] };
    let d = EvalError::BlameError(label, Some(stack)).to_diagnostic(&mut reg);
    assert_eq!(
        d.message,
        "Blame error: [Num -> Num].  The blame is on the context (negative blame)\nDomain(Codomain(Nil))"
    );
}

#[test]
fn path_rendering() {
    assert_eq!(TyPath::Nil().render(), "Nil");
    assert!(TyPath::Nil().is_nil());
    let p = TyPath::Codomain(Box::new(TyPath::Domain(Box::new(TyPath::Nil()))));
    assert!(!p.is_nil());
    assert_eq!(p.render(), "Codomain(Domain(Nil))");
    assert_eq!(polarity_prose(true), "  The blame is on the value (positive blame)\n");
    assert_eq!(polarity_prose(false), "  The blame is on the context (negative blame)\n");
}

#[test]
fn parse_error_has_message_only() {
    let mut reg = SourceRegistry::new();
    let d = Error::ParseError(String::from("unexpected token")).to_diagnostic(&mut reg);
    assert_eq!(d.message, "While parsing: unexpected token");
    assert!(d.labels.is_empty());
    assert!(d.notes.is_empty());
    assert_eq!(reg.len(), 0);
}

#[test]
fn error_delegates_to_eval_error() {
    let (mut reg, id) = registry_with_source();
    let s = span(id, 0, 1);
    let direct = EvalError::Other(String::from("boom"), Some(s)).to_diagnostic(&mut reg);
    let wrapped = Error::from(EvalError::Other(String::from("boom"), Some(s))).to_diagnostic(&mut reg);
    assert_eq!(direct, wrapped);
}

#[test]
fn wrapping_round_trip() {
    let (_, id) = registry_with_source();
    for e in all_variants(id) {
        let expected = format!("{:?}", e);
        match Error::from(e) {
            Error::EvalError(inner) => assert_eq!(format!("{:?}", inner), expected),
            Error::ParseError(_) => panic!("wrapped into the wrong variant"),
        }
    }
    let e = EvalError::NotEnoughArgs(3, String::from("op"), None);
    assert_eq!(Error::from(e), Error::EvalError(EvalError::NotEnoughArgs(3, String::from("op"), None)));
}

#[test]
fn every_variant_gives_a_non_empty_diagnostic() {
    let (mut reg, id) = registry_with_source();
    for e in all_variants(id) {
        let d = e.to_diagnostic(&mut reg);
        assert!(!d.message.is_empty());
        assert!(d.labels.len() + d.notes.len() >= 1, "{:?}", e);
    }
}

#[test]
fn other_without_position_has_no_label() {
    let mut reg = SourceRegistry::new();
    let d = EvalError::Other(String::from("boom"), None).to_diagnostic(&mut reg);
    assert_eq!(d.message, "boom");
    assert!(d.labels.is_empty());
    assert!(d.notes.is_empty());
}

#[test]
fn other_with_position() {
    let (mut reg, id) = registry_with_source();
    let s = span(id, 3, 6);
    let d = EvalError::Other(String::from("boom"), Some(s)).to_diagnostic(&mut reg);
    assert_eq!(d.labels.len(), 1);
    assert_over(&d.labels[0], &s, LabelStyle::Primary, "here");
}

#[test]
fn type_error_without_position_uses_synthetic_anchor() {
    let (mut reg, _) = registry_with_source();
    let t = RichTerm::new(String::from("\"abc\""), Some(String::from("Str")), None);
    let d = EvalError::TypeError(String::from("Num"), String::from("+"), t).to_diagnostic(&mut reg);
    assert_eq!(d.message, "Type error: + expected a value of type Num, but got one of type Str");
    assert_eq!(d.notes, vec![String::from("+")]);
    assert_eq!(d.labels.len(), 1);
    let l = &d.labels[0];
    assert_eq!(l.message, "This expression has type Str, but Num was expected");
    assert_eq!(reg.len(), 2);
    assert_eq!(source_of(&reg, l.file_id), "\"abc\"");
    assert_eq!((l.start, l.end), (1, 5));
}

#[test]
fn type_error_with_position_and_unknown_type() {
    let (mut reg, id) = registry_with_source();
    let s = span(id, 8, 13);
    let d = EvalError::TypeError(String::from("Bool"), String::from("if"), term("1 + 1", Some(s)))
        .to_diagnostic(&mut reg);
    assert_over(
        &d.labels[0],
        &s,
        LabelStyle::Primary,
        "This expression has type <unevaluated>, but Bool was expected",
    );
    assert_eq!(
        d.message,
        "Type error: if expected a value of type Bool, but got one of type <unevaluated>"
    );
    assert_eq!(reg.len(), 1);
}

#[test]
fn synthetic_range_counts_bytes() {
    let mut reg = SourceRegistry::new();
    let d = EvalError::UnboundIdentifier(Ident(String::from("é")), None).to_diagnostic(&mut reg);
    assert_eq!((d.labels[0].start, d.labels[0].end), (1, 2));
}

#[test]
fn not_a_func_without_positions() {
    let (mut reg, _) = registry_with_source();
    let d = EvalError::NotAFunc(term("2", None), term("3", None), None).to_diagnostic(&mut reg);
    assert_eq!(d.message, "Not a function");
    assert_eq!(d.labels.len(), 2);
    assert_eq!(d.labels[0].style, LabelStyle::Primary);
    assert_eq!(d.labels[0].message, "this term is applied, but it is not a function");
    assert_eq!(d.labels[1].style, LabelStyle::Secondary);
    assert_eq!(d.labels[1].message, "applied here");
    assert_eq!(source_of(&reg, d.labels[0].file_id), "2");
    assert_eq!(source_of(&reg, d.labels[1].file_id), "(2) (3)");
    assert_ne!(d.labels[0].file_id, d.labels[1].file_id);
    assert_eq!(reg.len(), 3);
}

#[test]
fn not_a_func_with_positions() {
    let (mut reg, id) = registry_with_source();
    let ts = span(id, 17, 18);
    let app = span(id, 17, 20);
    let d = EvalError::NotAFunc(term("x", Some(ts)), term("3", None), Some(app)).to_diagnostic(&mut reg);
    assert_over(&d.labels[0], &ts, LabelStyle::Primary, "this term is applied, but it is not a function");
    assert_over(&d.labels[1], &app, LabelStyle::Secondary, "applied here");
    assert_eq!(reg.len(), 1);
}

#[test]
fn field_missing_with_positions() {
    let (mut reg, id) = registry_with_source();
    let access = span(id, 0, 4);
    let record = span(id, 5, 9);
    let d = EvalError::FieldMissing(String::from("foo"), String::from("."), term("{ bar = 1 }", Some(record)), Some(access))
        .to_diagnostic(&mut reg);
    assert_eq!(d.message, "Missing field");
    assert_eq!(d.labels.len(), 2);
    assert_over(&d.labels[0], &access, LabelStyle::Primary, "this requires field foo to exist");
    assert_over(&d.labels[1], &record, LabelStyle::Secondary, "field foo is missing here");
    assert!(d.notes.is_empty());
}

#[test]
fn field_missing_without_positions_keeps_a_note() {
    let mut reg = SourceRegistry::new();
    let d = EvalError::FieldMissing(String::from("foo"), String::from("$has"), term("{ }", None), None)
        .to_diagnostic(&mut reg);
    assert!(d.labels.is_empty());
    assert_eq!(d.notes, vec![String::from("Field foo was required by the operator $has")]);
    assert_eq!(reg.len(), 0);
}

#[test]
fn merge_incompatible_args() {
    let (mut reg, id) = registry_with_source();
    let merge = span(id, 0, 20);
    let left = span(id, 8, 9);
    let d = EvalError::MergeIncompatibleArgs(term("1", Some(left)), term("true", None), Some(merge))
        .to_diagnostic(&mut reg);
    assert_eq!(d.message, "Non mergeable terms");
    assert_eq!(d.labels.len(), 3);
    assert_over(&d.labels[0], &left, LabelStyle::Primary, "cannot merge this expression");
    assert_eq!(d.labels[1].style, LabelStyle::Primary);
    assert_eq!(d.labels[1].message, "with this expression");
    assert_eq!(source_of(&reg, d.labels[1].file_id), "true");
    assert_eq!((d.labels[1].start, d.labels[1].end), (1, 4));
    assert_over(&d.labels[2], &merge, LabelStyle::Secondary, "merged here");
    assert_eq!(reg.len(), 2);
}

#[test]
fn rendering_twice_registers_twice() {
    let (mut reg, _) = registry_with_source();
    let err = EvalError::UnboundIdentifier(Ident(String::from("x")), None);
    let d1 = err.to_diagnostic(&mut reg);
    let d2 = err.to_diagnostic(&mut reg);
    assert_eq!(reg.len(), 3);
    assert_ne!(d1.labels[0].file_id, d2.labels[0].file_id);
    assert_eq!(source_of(&reg, d1.labels[0].file_id), "x");
    assert_eq!(source_of(&reg, d2.labels[0].file_id), "x");
}

#[test]
fn two_position_less_terms_register_distinct_entries() {
    let mut reg = SourceRegistry::new();
    let d1 = EvalError::UnboundIdentifier(Ident(String::from("a")), None).to_diagnostic(&mut reg);
    let d2 = EvalError::UnboundIdentifier(Ident(String::from("b")), None).to_diagnostic(&mut reg);
    assert_eq!(reg.len(), 2);
    assert_ne!(d1.labels[0].file_id, d2.labels[0].file_id);
    assert_eq!(source_of(&reg, d1.labels[0].file_id), "a");
    assert_eq!(source_of(&reg, d2.labels[0].file_id), "b");
}

#[test]
fn real_sources_are_kept() {
    let (mut reg, id) = registry_with_source();
    let other = reg.add("lib.ncl", String::from("{ a = 1 }"));
    assert_ne!(id, other);
    assert_eq!(reg.len(), 2);
    assert_eq!(source_of(&reg, id), "let x = 1 + 1 in x 3");
    assert_eq!(source_of(&reg, other), "{ a = 1 }");
    assert_eq!(name_of(&reg, other), "lib.ncl");
}

#[test]
fn diagnostic_builders() {
    let (_, id) = registry_with_source();
    let a = Annotation::new(LabelStyle::Secondary, id, 2, 4, String::new()).with_message(String::from("m"));
    assert_eq!(a.message, "m");
    assert_eq!((a.start, a.end), (2, 4));
    let d = Diagnostic::error(String::from("e"))
        .with_labels(vec![a])
        .with_notes(vec![String::from("n")]);
    assert_eq!(d.message, "e");
    assert_eq!(d.labels.len(), 1);
    assert_eq!(d.notes, vec![String::from("n")]);
}

#[test]
fn term_accessors() {
    let t = RichTerm::new(String::from("[1, 2]"), Some(String::from("List")), None);
    assert_eq!(t.shallow_repr(), "[1, 2]");
    assert_eq!(t.type_of(), Some(String::from("List")));
    assert_eq!(term("x", None).type_of(), None);
}

#[test]
fn empty_synthetic_text_gets_an_empty_range() {
    let mut reg = SourceRegistry::new();
    let d = EvalError::UnboundIdentifier(Ident(String::new()), None).to_diagnostic(&mut reg);
    assert_eq!(reg.len(), 1);
    assert_eq!(source_of(&reg, d.labels[0].file_id), "");
    assert_eq!((d.labels[0].start, d.labels[0].end), (0, 0));
}

#[test]
fn large_argument_count_is_written_in_full() {
    let mut reg = SourceRegistry::new();
    let d = EvalError::NotEnoughArgs(1907, "f".into(), None).to_diagnostic(&mut reg);
    assert_eq!(d.message, "f expects 1907 arguments, but not enough were provided");
}

#[test]
fn path_rendering_matches_debug() {
    let p = TyPath::Domain(Box::new(TyPath::Codomain(Box::new(TyPath::Nil()))));
    assert_eq!(p.render(), format!("{:?}", p));
    assert_eq!(TyPath::Nil().render(), format!("{:?}", TyPath::Nil()));
}
