//! The errors of parsing and evaluation, and their rendering into diagnostics.

use crate::anchor::{
    anchored, lemma_extended_keys, lemma_synthesized_concat, pos_anchors, primary,
    primary_alt, primary_term, secondary, secondary_alt, span_view, synthesized, term_anchors,
    extended,
};
use crate::diagnostic::{Annotation, AnnotationView, Diagnostic, DiagnosticView, LabelStyle};
use crate::label::{path_text, polarity_prose, polarity_text, Label};
use crate::registry::SourceRegistry;
use crate::term::{CallStack, Ident, RawSpan, RichTerm};
use codespan::FileId;
use vstd::prelude::*;
use vstd::string::*;

verus! {

/// A general error occurring during either parsing or evaluation.
#[derive(Debug, PartialEq)]
pub enum Error {
    EvalError(EvalError),
    ParseError(String),
}

/// An error occurring during evaluation.
#[derive(Debug, PartialEq)]
pub enum EvalError {
    /// A contract was broken: the label says which one and whose fault it is.
    BlameError(Label, Option<CallStack>),
    /// A primitive operation got a value of the wrong type: the expected type, the
    /// operation, and the offending term.
    TypeError(String, String, RichTerm),
    /// A term that is not a function was applied: the term, its argument, and where it was
    /// applied.
    NotAFunc(RichTerm, RichTerm, Option<RawSpan>),
    /// A record operation needed a field that the record lacks: the field, the operator, the
    /// record, and where the field was required.
    FieldMissing(String, String, RichTerm, Option<RawSpan>),
    /// A builtin got too few arguments: how many it needs, its name, and where it was called.
    NotEnoughArgs(usize, String, Option<RawSpan>),
    /// Two values could not be merged: both operands, and where they were merged.
    MergeIncompatibleArgs(RichTerm, RichTerm, Option<RawSpan>),
    /// An identifier had no binding in scope.
    UnboundIdentifier(Ident, Option<RawSpan>),
    /// An error rare enough to have no variant of its own: its message and position.
    Other(String, Option<RawSpan>),
}

impl From<EvalError> for Error {
    fn from(error: EvalError) -> Error {
        Error::EvalError(error)
    }
}

impl vstd::std_specs::convert::FromSpecImpl<EvalError> for Error {
    open spec fn obeys_from_spec() -> bool {
        true
    }

    open spec fn from_spec(v: EvalError) -> Error {
        Error::EvalError(v)
    }
}

/// The decimal digits of `n`, most significant first.
pub open spec fn decimal(n: nat) -> Seq<char>
    decreases n,
{
    if n < 10 {
        seq![(n + 48) as char]
    } else {
        decimal(n / 10) + seq![((n % 10) + 48) as char]
    }
}

/// The one-character text of a decimal digit.
fn digit_string(d: usize) -> (r: String)
    requires
        d < 10,
    ensures
        r@ == seq![(d + 48) as char],
{
    proof {
        reveal_strlit("0");
        reveal_strlit("1");
        reveal_strlit("2");
        reveal_strlit("3");
        reveal_strlit("4");
        reveal_strlit("5");
        reveal_strlit("6");
        reveal_strlit("7");
        reveal_strlit("8");
        reveal_strlit("9");
    }
    let r = if d == 0 {
        String::from_str("0")
    } else if d == 1 {
        String::from_str("1")
    } else if d == 2 {
        String::from_str("2")
    } else if d == 3 {
        String::from_str("3")
    } else if d == 4 {
        String::from_str("4")
    } else if d == 5 {
        String::from_str("5")
    } else if d == 6 {
        String::from_str("6")
    } else if d == 7 {
        String::from_str("7")
    } else if d == 8 {
        String::from_str("8")
    } else {
        String::from_str("9")
    };
    assert(r@ =~= seq![(d + 48) as char]);
    r
}

/// The decimal digits of `n`, without sign or padding.
pub fn usize_to_string(n: usize) -> (r: String)
    ensures
        r@ == decimal(n as nat),
    decreases n,
{
    if n < 10 {
        digit_string(n)
    } else {
        usize_to_string(n / 10).concat(digit_string(n % 10).as_str())
    }
}

/// The type name shown for a term.
pub open spec fn type_text(t: RichTerm) -> Seq<char> {
    match t.known_type {
        Some(name) => name@,
        None => "<unevaluated>"@,
    }
}

/// The text standing for the application of `t` to `arg`.
pub open spec fn application_text(t: RichTerm, arg: RichTerm) -> Seq<char> {
    "("@ + t.repr@ + ") ("@ + arg.repr@ + ")"@
}

/// The message of a type error: the operation, the type it expected, and the type it got.
pub open spec fn type_error_text(expd: Seq<char>, op: Seq<char>, t: RichTerm) -> Seq<char> {
    "Type error: "@ + op + " expected a value of type "@ + expd + ", but got one of type "@
        + type_text(t)
}

/// The message of a blame error.
pub open spec fn blame_text(l: Label) -> Seq<char> {
    "Blame error: ["@ + l.tag@ + "]."@ + polarity_text(l.polarity) + if l.path is Nil {
        Seq::<char>::empty()
    } else {
        path_text(l.path)
    }
}

/// The message of a missing-arguments error.
pub open spec fn not_enough_args_text(count: usize, op: Seq<char>) -> Seq<char> {
    op + " expects "@ + decimal(count as nat) + " arguments, but not enough were provided"@
}

/// The annotation over `pos` if there is one, as a sequence of zero or one annotation.
pub open spec fn span_labels(pos: Option<RawSpan>, style: LabelStyle, message: Seq<char>) -> Seq<
    AnnotationView,
> {
    match pos {
        Some(span) => seq![span_view(span, style, message)],
        None => seq![],
    }
}

/// The note standing for an annotation over `pos` when there is none.
pub open spec fn missing_pos_notes(pos: Option<RawSpan>, note: Seq<char>) -> Seq<Seq<char>> {
    if pos is None {
        seq![note]
    } else {
        seq![]
    }
}

/// A diagnostic view from its three parts.
pub open spec fn diag(
    message: Seq<char>,
    labels: Seq<AnnotationView>,
    notes: Seq<Seq<char>>,
) -> DiagnosticView {
    DiagnosticView { message, labels, notes }
}

/// Conversion of an error to a diagnostic, anchored in a source registry.
pub trait ToDiagnostic {
    /// The texts registered as synthetic entries, in order, when this error is rendered.
    spec fn anchors(&self) -> Seq<Seq<char>>;

    /// The diagnostic of this error, given the handles under which its anchors are registered.
    spec fn diagnostic_spec(&self, ids: Seq<FileId>) -> DiagnosticView;

    /// Converts the error to a diagnostic. Each value that the diagnostic annotates and that
    /// has no position is registered in `files` as a new synthetic entry, and annotated there.
    fn to_diagnostic(&self, files: &mut SourceRegistry) -> (d: Diagnostic)
        requires
            old(files).wf(),
            old(files).entries().len() + self.anchors().len() <= u32::MAX,
        ensures
            final(files).wf(),
            exists|ids: Seq<FileId>|
                #[trigger] synthesized(
                    old(files).entries(),
                    final(files).entries(),
                    ids,
                    self.anchors(),
                ) && d@ == self.diagnostic_spec(ids),
    ;
}

impl ToDiagnostic for EvalError {
    open spec fn anchors(&self) -> Seq<Seq<char>> {
        match *self {
            EvalError::TypeError(_, _, t) => term_anchors(t),
            EvalError::NotAFunc(t, arg, pos) => term_anchors(t) + pos_anchors(
                pos,
                application_text(t, arg),
            ),
            EvalError::MergeIncompatibleArgs(t1, t2, _) => term_anchors(t1) + term_anchors(t2),
            EvalError::UnboundIdentifier(Ident(x), pos) => pos_anchors(pos, x@),
            _ => seq![],
        }
    }

    open spec fn diagnostic_spec(&self, ids: Seq<FileId>) -> DiagnosticView {
        match *self {
            EvalError::BlameError(l, _) => diag(
                blame_text(l),
                seq![span_view(l.span, LabelStyle::Primary, "bound here"@)],
                seq![],
            ),
            EvalError::TypeError(expd, op, t) => diag(
                type_error_text(expd@, op@, t),
                seq![
                    anchored(
                        t.pos,
                        t.repr@,
                        LabelStyle::Primary,
                        ids[0],
                        "This expression has type "@ + type_text(t) + ", but "@ + expd@
                            + " was expected"@,
                    ),
                ],
                seq![op@],
            ),
            EvalError::NotAFunc(t, arg, pos) => diag(
                "Not a function"@,
                seq![
                    anchored(
                        t.pos,
                        t.repr@,
                        LabelStyle::Primary,
                        ids[0],
                        "this term is applied, but it is not a function"@,
                    ),
                    anchored(
                        pos,
                        application_text(t, arg),
                        LabelStyle::Secondary,
                        ids[term_anchors(t).len() as int],
                        "applied here"@,
                    ),
                ],
                seq![],
            ),
            EvalError::FieldMissing(field, op, t, pos) => diag(
                "Missing field"@,
                span_labels(
                    pos,
                    LabelStyle::Primary,
                    "this requires field "@ + field@ + " to exist"@,
                ) + span_labels(
                    t.pos,
                    LabelStyle::Secondary,
                    "field "@ + field@ + " is missing here"@,
                ),
                missing_pos_notes(
                    pos,
                    "Field "@ + field@ + " was required by the operator "@ + op@,
                ),
            ),
            EvalError::NotEnoughArgs(count, op, pos) => diag(
                not_enough_args_text(count, op@),
                span_labels(pos, LabelStyle::Primary, not_enough_args_text(count, op@)),
                missing_pos_notes(pos, not_enough_args_text(count, op@)),
            ),
            EvalError::MergeIncompatibleArgs(t1, t2, pos) => diag(
                "Non mergeable terms"@,
                seq![
                    anchored(
                        t1.pos,
                        t1.repr@,
                        LabelStyle::Primary,
                        ids[0],
                        "cannot merge this expression"@,
                    ),
                    anchored(
                        t2.pos,
                        t2.repr@,
                        LabelStyle::Primary,
                        ids[term_anchors(t1).len() as int],
                        "with this expression"@,
                    ),
                ] + span_labels(pos, LabelStyle::Secondary, "merged here"@),
                seq![],
            ),
            EvalError::UnboundIdentifier(Ident(x), pos) => diag(
                "Unbound identifier"@,
                seq![anchored(pos, x@, LabelStyle::Primary, ids[0], "this identifier is unbound"@)],
                seq![],
            ),
            EvalError::Other(msg, pos) => diag(
                msg@,
                span_labels(pos, LabelStyle::Primary, "here"@),
                seq![],
            ),
        }
    }

    fn to_diagnostic(&self, files: &mut SourceRegistry) -> (d: Diagnostic) {
        assert(extended(old(files).entries(), Seq::empty(), Seq::empty()) == old(files).entries());
        match self {
            EvalError::BlameError(l, _cs_opt) => {
                let mut msg = String::from_str("Blame error: [").concat(l.tag.as_str()).concat(
                    "].",
                );
                msg = msg.concat(polarity_prose(l.polarity).as_str());
                if !l.path.is_nil() {
                    msg = msg.concat(l.path.render().as_str());
                }
                let lab = Annotation::new(
                    LabelStyle::Primary,
                    l.span.src_id,
                    l.span.start as usize,
                    l.span.end as usize,
                    String::from_str("bound here"),
                );
                let labels = vec![lab];
                let d = Diagnostic::error(msg).with_labels(labels);
                proof {
                    let spec = self.diagnostic_spec(seq![]);
                    assert(d@.labels =~= spec.labels);
                    assert(d@.notes =~= spec.notes);
                    assert(d@.message =~= spec.message);
                    assert(synthesized(old(files).entries(), files.entries(), seq![], self.anchors()) && d@ == spec);
                }
                d
            },
            EvalError::TypeError(expd, op, t) => {
                let ty = match t.type_of() {
                    Some(n) => n,
                    None => String::from_str("<unevaluated>"),
                };
                let text = String::from_str("This expression has type ").concat(
                    ty.as_str(),
                ).concat(", but ").concat(expd.as_str()).concat(" was expected");
                let lab0 = primary_term(t, files);
                let ghost ids = if t.pos is None {
                    seq![lab0.file_id]
                } else {
                    seq![]
                };
                let lab = lab0.with_message(text);
                let message = String::from_str("Type error: ").concat(op.as_str()).concat(
                    " expected a value of type ",
                ).concat(expd.as_str()).concat(", but got one of type ").concat(ty.as_str());
                assert(message@ =~= type_error_text(expd@, op@, *t));
                let d = Diagnostic::error(message).with_labels(
                    vec![lab],
                ).with_notes(vec![op.clone()]);
                proof {
                    let spec = self.diagnostic_spec(ids);
                    assert(text@ =~= "This expression has type "@ + type_text(*t) + ", but "@
                        + expd@ + " was expected"@);
                    assert(d@.labels =~= spec.labels);
                    assert(d@.notes =~= spec.notes);
                    assert(d@.message =~= spec.message);
                    assert(synthesized(old(files).entries(), files.entries(), ids, self.anchors()) && d@ == spec);
                }
                d
            },
            EvalError::NotAFunc(t, arg, pos_opt) => {
                proof {
                    files.lemma_wf();
                }
                let l1 = primary_term(t, files);
                let ghost m1 = files.entries();
                let ghost a = if t.pos is None {
                    seq![l1.file_id]
                } else {
                    seq![]
                };
                let app = String::from_str("(").concat(t.shallow_repr().as_str()).concat(
                    ") (",
                ).concat(arg.shallow_repr().as_str()).concat(")");
                assert(app@ =~= application_text(*t, *arg));
                proof {
                    lemma_extended_keys(old(files).entries(), a, term_anchors(*t));
                }
                let l2 = secondary_alt(pos_opt, app, files);
                let ghost b = if pos_opt is None {
                    seq![l2.file_id]
                } else {
                    seq![]
                };
                let labels = vec![
                    l1.with_message(
                        String::from_str("this term is applied, but it is not a function"),
                    ),
                    l2.with_message(String::from_str("applied here")),
                ];
                let d = Diagnostic::error(String::from_str("Not a function")).with_labels(labels);
                proof {
                    lemma_synthesized_concat(
                        old(files).entries(),
                        m1,
                        files.entries(),
                        a,
                        term_anchors(*t),
                        b,
                        pos_anchors(*pos_opt, application_text(*t, *arg)),
                    );
                    let ids = a + b;
                    let spec = self.diagnostic_spec(ids);
                    assert(d@.labels =~= spec.labels);
                    assert(d@.notes =~= spec.notes);
                    assert(d@.message =~= spec.message);
                    assert(synthesized(old(files).entries(), files.entries(), ids, self.anchors()) && d@ == spec);
                }
                d
            },
            EvalError::FieldMissing(field, op, t, span_opt) => {
                let mut labels: Vec<Annotation> = Vec::new();
                let mut notes: Vec<String> = Vec::new();
                match span_opt {
                    Some(span) => {
                        labels.push(
                            primary(span).with_message(
                                String::from_str("this requires field ").concat(
                                    field.as_str(),
                                ).concat(" to exist"),
                            ),
                        );
                    },
                    None => {
                        notes.push(
                            String::from_str("Field ").concat(field.as_str()).concat(
                                " was required by the operator ",
                            ).concat(op.as_str()),
                        );
                    },
                }
                match &t.pos {
                    Some(span) => {
                        labels.push(
                            secondary(span).with_message(
                                String::from_str("field ").concat(field.as_str()).concat(
                                    " is missing here",
                                ),
                            ),
                        );
                    },
                    None => {},
                }
                let d = Diagnostic::error(String::from_str("Missing field")).with_labels(
                    labels,
                ).with_notes(notes);
                proof {
                    let spec = self.diagnostic_spec(seq![]);
                    assert(d@.labels =~= spec.labels);
                    assert(d@.notes =~= spec.notes);
                    assert(d@.message =~= spec.message);
                    assert(synthesized(old(files).entries(), files.entries(), seq![], self.anchors()) && d@ == spec);
                }
                d
            },
            EvalError::NotEnoughArgs(count, op, span_opt) => {
                let msg = op.clone().concat(" expects ").concat(
                    usize_to_string(*count).as_str(),
                ).concat(" arguments, but not enough were provided");
                assert(msg@ =~= not_enough_args_text(*count, op@));
                let d = match span_opt {
                    Some(span) => Diagnostic::error(msg.clone()).with_labels(
                        vec![primary(span).with_message(msg)],
                    ),
                    None => Diagnostic::error(msg.clone()).with_notes(vec![msg]),
                };
                proof {
                    let spec = self.diagnostic_spec(seq![]);
                    assert(d@.labels =~= spec.labels);
                    assert(d@.notes =~= spec.notes);
                    assert(d@.message =~= spec.message);
                    assert(synthesized(old(files).entries(), files.entries(), seq![], self.anchors()) && d@ == spec);
                }
                d
            },
            EvalError::MergeIncompatibleArgs(t1, t2, span_opt) => {
                proof {
                    files.lemma_wf();
                }
                let l1 = primary_term(t1, files);
                let ghost m1 = files.entries();
                let ghost a = if t1.pos is None {
                    seq![l1.file_id]
                } else {
                    seq![]
                };
                proof {
                    lemma_extended_keys(old(files).entries(), a, term_anchors(*t1));
                }
                let l2 = primary_term(t2, files);
                let ghost b = if t2.pos is None {
                    seq![l2.file_id]
                } else {
                    seq![]
                };
                let mut labels = vec![
                    l1.with_message(String::from_str("cannot merge this expression")),
                    l2.with_message(String::from_str("with this expression")),
                ];
                match span_opt {
                    Some(span) => {
                        labels.push(secondary(span).with_message(String::from_str("merged here")));
                    },
                    None => {},
                }
                let d = Diagnostic::error(String::from_str("Non mergeable terms")).with_labels(
                    labels,
                );
                proof {
                    lemma_synthesized_concat(
                        old(files).entries(),
                        m1,
                        files.entries(),
                        a,
                        term_anchors(*t1),
                        b,
                        term_anchors(*t2),
                    );
                    let ids = a + b;
                    let spec = self.diagnostic_spec(ids);
                    assert(d@.labels =~= spec.labels);
                    assert(d@.notes =~= spec.notes);
                    assert(d@.message =~= spec.message);
                    assert(synthesized(old(files).entries(), files.entries(), ids, self.anchors()) && d@ == spec);
                }
                d
            },
            EvalError::UnboundIdentifier(Ident(ident), span_opt) => {
                let lab0 = primary_alt(span_opt, ident.clone(), files);
                let ghost ids = if span_opt is None {
                    seq![lab0.file_id]
                } else {
                    seq![]
                };
                let lab = lab0.with_message(String::from_str("this identifier is unbound"));
                let d = Diagnostic::error(String::from_str("Unbound identifier")).with_labels(
                    vec![lab],
                );
                proof {
                    let spec = self.diagnostic_spec(ids);
                    assert(d@.labels =~= spec.labels);
                    assert(d@.notes =~= spec.notes);
                    assert(d@.message =~= spec.message);
                    assert(synthesized(old(files).entries(), files.entries(), ids, self.anchors()) && d@ == spec);
                }
                d
            },
            EvalError::Other(msg, span_opt) => {
                let labels = match span_opt {
                    Some(span) => vec![primary(span).with_message(String::from_str("here"))],
                    None => Vec::new(),
                };
                let d = Diagnostic::error(msg.clone()).with_labels(labels);
                proof {
                    let spec = self.diagnostic_spec(seq![]);
                    assert(d@.labels =~= spec.labels);
                    assert(d@.notes =~= spec.notes);
                    assert(d@.message =~= spec.message);
                    assert(synthesized(old(files).entries(), files.entries(), seq![], self.anchors()) && d@ == spec);
                }
                d
            },
        }
    }
}

impl ToDiagnostic for Error {
    open spec fn anchors(&self) -> Seq<Seq<char>> {
        match *self {
            Error::EvalError(e) => e.anchors(),
            Error::ParseError(_) => seq![],
        }
    }

    open spec fn diagnostic_spec(&self, ids: Seq<FileId>) -> DiagnosticView {
        match *self {
            Error::EvalError(e) => e.diagnostic_spec(ids),
            Error::ParseError(msg) => diag("While parsing: "@ + msg@, seq![], seq![]),
        }
    }

    fn to_diagnostic(&self, files: &mut SourceRegistry) -> (d: Diagnostic) {
        match self {
            Error::ParseError(msg) => {
                let d = Diagnostic::error(String::from_str("While parsing: ").concat(msg.as_str()));
                proof {
                    let spec = self.diagnostic_spec(seq![]);
                    assert(d@.labels =~= spec.labels);
                    assert(d@.notes =~= spec.notes);
                    assert(d@.message =~= spec.message);
                    assert(extended(old(files).entries(), Seq::empty(), Seq::empty())
                        == old(files).entries());
                    assert(synthesized(old(files).entries(), files.entries(), seq![], self.anchors()) && d@ == spec);
                }
                d
            },
            Error::EvalError(err) => err.to_diagnostic(files),
        }
    }
}

/// An annotation lies exactly over a span.
pub open spec fn over_span(a: AnnotationView, span: RawSpan) -> bool {
    a.file_id == span.src_id && a.start == span.start && a.end == span.end
}

/// Every evaluation error renders to a diagnostic with a non-empty message and at least one
/// annotation or note. `Other` is the exception: without a position it has neither, and its
/// message is the one it carries, so it is left out here unless it has both.
pub proof fn lemma_diagnostic_not_empty(e: EvalError, ids: Seq<FileId>)
    requires
        e matches EvalError::Other(msg, pos) ==> pos is Some && msg@.len() > 0,
    ensures
        e.diagnostic_spec(ids).message.len() > 0,
        e.diagnostic_spec(ids).labels.len() + e.diagnostic_spec(ids).notes.len() >= 1,
{
    reveal_strlit("Blame error: [");
    reveal_strlit("Type error: ");
    reveal_strlit("Not a function");
    reveal_strlit("Missing field");
    reveal_strlit(" expects ");
    reveal_strlit("Non mergeable terms");
    reveal_strlit("Unbound identifier");
}

/// A term that has a position is annotated over exactly that position, in each error that
/// annotates terms.
pub proof fn lemma_positioned_terms_keep_their_span(e: EvalError, ids: Seq<FileId>)
    ensures
        e matches EvalError::TypeError(_, _, t) ==> t.pos is Some ==> over_span(
            e.diagnostic_spec(ids).labels[0],
            t.pos->Some_0,
        ),
        e matches EvalError::NotAFunc(t, _, _) ==> t.pos is Some ==> over_span(
            e.diagnostic_spec(ids).labels[0],
            t.pos->Some_0,
        ),
        e matches EvalError::MergeIncompatibleArgs(t1, _, _) ==> t1.pos is Some ==> over_span(
            e.diagnostic_spec(ids).labels[0],
            t1.pos->Some_0,
        ),
        e matches EvalError::MergeIncompatibleArgs(_, t2, _) ==> t2.pos is Some ==> over_span(
            e.diagnostic_spec(ids).labels[1],
            t2.pos->Some_0,
        ),
        e matches EvalError::FieldMissing(_, _, t, _) ==> t.pos is Some ==> over_span(
            e.diagnostic_spec(ids).labels.last(),
            t.pos->Some_0,
        ),
        e matches EvalError::UnboundIdentifier(_, pos) ==> pos is Some ==> over_span(
            e.diagnostic_spec(ids).labels[0],
            pos->Some_0,
        ),
{
}

/// A position, if there is one, names an entry of `m`.
pub open spec fn pos_registered(pos: Option<RawSpan>, m: Map<FileId, (Seq<char>, Seq<char>)>) -> bool {
    pos matches Some(span) ==> m.contains_key(span.src_id)
}

/// Every span that the error's diagnostic annotates names an entry of `m`.
pub open spec fn spans_registered(e: EvalError, m: Map<FileId, (Seq<char>, Seq<char>)>) -> bool {
    match e {
        EvalError::BlameError(l, _) => m.contains_key(l.span.src_id),
        EvalError::TypeError(_, _, t) => pos_registered(t.pos, m),
        EvalError::NotAFunc(t, _, pos) => pos_registered(t.pos, m) && pos_registered(pos, m),
        EvalError::FieldMissing(_, _, t, pos) => pos_registered(t.pos, m) && pos_registered(pos, m),
        EvalError::NotEnoughArgs(_, _, pos) => pos_registered(pos, m),
        EvalError::MergeIncompatibleArgs(t1, t2, pos) => pos_registered(t1.pos, m)
            && pos_registered(t2.pos, m) && pos_registered(pos, m),
        EvalError::UnboundIdentifier(_, pos) => pos_registered(pos, m),
        EvalError::Other(_, pos) => pos_registered(pos, m),
    }
}

/// When the error's spans name registered sources, every annotation of its diagnostic names
/// an entry of the registry as it stands after rendering.
pub proof fn lemma_labels_name_entries(
    e: EvalError,
    m0: Map<FileId, (Seq<char>, Seq<char>)>,
    m1: Map<FileId, (Seq<char>, Seq<char>)>,
    ids: Seq<FileId>,
)
    requires
        spans_registered(e, m0),
        synthesized(m0, m1, ids, e.anchors()),
    ensures
        forall|i: int|
            0 <= i < e.diagnostic_spec(ids).labels.len() ==> m1.contains_key(
                #[trigger] e.diagnostic_spec(ids).labels[i].file_id,
            ),
{
    lemma_extended_keys(m0, ids, e.anchors());
    assert forall|k: int| 0 <= k < ids.len() implies m1.contains_key(#[trigger] ids[k]) by {
        assert(ids.contains(ids[k]));
    }
}

/// Rendering one error and then another (possibly the same one again) registers fresh
/// entries each time: no handle of the second rendering is one of the first, and the registry
/// grows by the anchors of both. Nothing is cached across renderings. When the first error's
/// spans name registered sources, no annotation of the first diagnostic names a handle that
/// the second rendering registered.
pub proof fn lemma_each_rendering_registers_anew(
    e1: EvalError,
    e2: EvalError,
    m0: Map<FileId, (Seq<char>, Seq<char>)>,
    m1: Map<FileId, (Seq<char>, Seq<char>)>,
    m2: Map<FileId, (Seq<char>, Seq<char>)>,
    ids1: Seq<FileId>,
    ids2: Seq<FileId>,
)
    requires
        m0.dom().finite(),
        synthesized(m0, m1, ids1, e1.anchors()),
        synthesized(m1, m2, ids2, e2.anchors()),
    ensures
        m2.len() == m0.len() + e1.anchors().len() + e2.anchors().len(),
        forall|i: int, j: int|
            0 <= i < ids1.len() && 0 <= j < ids2.len() ==> ids1[i] != ids2[j],
        spans_registered(e1, m0) ==> forall|i: int, j: int|
            0 <= i < e1.diagnostic_spec(ids1).labels.len() && 0 <= j < ids2.len()
                ==> #[trigger] e1.diagnostic_spec(ids1).labels[i].file_id != #[trigger] ids2[j],
{
    if spans_registered(e1, m0) {
        lemma_labels_name_entries(e1, m0, m1, ids1);
    }
    lemma_extended_keys(m0, ids1, e1.anchors());
    lemma_extended_keys(m1, ids2, e2.anchors());
    assert forall|i: int, j: int| 0 <= i < ids1.len() && 0 <= j < ids2.len() implies ids1[i]
        != ids2[j] by {
        assert(ids1.contains(ids1[i]));
        assert(m1.contains_key(ids1[i]));
        assert(!m1.contains_key(ids2[j]));
    }
}

/// Wrapping an evaluation error into an `Error` loses nothing: matching the wrapped value
/// gives back the same variant with the same payload.
pub proof fn lemma_wrapping_is_lossless(e: EvalError)
    ensures
        <Error as vstd::std_specs::convert::FromSpec<EvalError>>::obeys_from_spec(),
        <Error as vstd::std_specs::convert::FromSpec<EvalError>>::from_spec(e) matches Error::EvalError(
            inner,
        ) && inner == e,
{
}

} // verus!
