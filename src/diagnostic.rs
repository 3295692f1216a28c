//! The structured diagnostic that an error is rendered into: a message, annotations anchored
//! in registered sources, and notes.

use codespan::FileId;
use vstd::prelude::*;

verus! {

/// Whether an annotation marks the cause of a diagnostic or some context around it.
#[derive(Clone, Copy, Debug, PartialEq, Eq, Structural)]
pub enum LabelStyle {
    Primary,
    Secondary,
}

/// A message attached to the byte range `[start, end)` of the registered source `file_id`.
#[derive(Debug, PartialEq)]
pub struct Annotation {
    pub style: LabelStyle,
    pub file_id: FileId,
    pub start: usize,
    pub end: usize,
    pub message: String,
}

/// What an annotation says, as plain values.
pub struct AnnotationView {
    pub style: LabelStyle,
    pub file_id: FileId,
    pub start: int,
    pub end: int,
    pub message: Seq<char>,
}

/// A diagnostic: its message, its annotations in order, and its notes in order.
#[derive(Debug, PartialEq)]
pub struct Diagnostic {
    pub message: String,
    pub labels: Vec<Annotation>,
    pub notes: Vec<String>,
}

/// What a diagnostic says, as plain values.
pub struct DiagnosticView {
    pub message: Seq<char>,
    pub labels: Seq<AnnotationView>,
    pub notes: Seq<Seq<char>>,
}

impl View for Annotation {
    type V = AnnotationView;

    open spec fn view(&self) -> AnnotationView {
        AnnotationView {
            style: self.style,
            file_id: self.file_id,
            start: self.start as int,
            end: self.end as int,
            message: self.message@,
        }
    }
}

impl View for Diagnostic {
    type V = DiagnosticView;

    open spec fn view(&self) -> DiagnosticView {
        DiagnosticView {
            message: self.message@,
            labels: self.labels@.map_values(|a: Annotation| a@),
            notes: self.notes@.map_values(|s: String| s@),
        }
    }
}

impl Annotation {
    /// An annotation of the given style over `[start, end)` in `file_id`.
    pub fn new(style: LabelStyle, file_id: FileId, start: usize, end: usize, message: String) -> (r:
        Annotation)
        ensures
            r@ == (AnnotationView {
                style,
                file_id,
                start: start as int,
                end: end as int,
                message: message@,
            }),
    {
        Annotation { style, file_id, start, end, message }
    }

    /// The same annotation with its message replaced.
    pub fn with_message(self, message: String) -> (r: Annotation)
        ensures
            r@ == (AnnotationView { message: message@, ..self@ }),
    {
        Annotation { message, ..self }
    }
}

impl Diagnostic {
    /// A diagnostic with the given message and no annotation or note.
    pub fn error(message: String) -> (r: Diagnostic)
        ensures
            r@.message == message@,
            r@.labels.len() == 0,
            r@.notes.len() == 0,
    {
        let r = Diagnostic { message, labels: Vec::new(), notes: Vec::new() };
        assert(r@.labels =~= Seq::empty());
        assert(r@.notes =~= Seq::empty());
        r
    }

    /// The same diagnostic with `labels` appended to its annotations.
    pub fn with_labels(self, labels: Vec<Annotation>) -> (r: Diagnostic)
        ensures
            r@.message == self@.message,
            r@.labels == self@.labels + labels@.map_values(|a: Annotation| a@),
            r@.notes == self@.notes,
    {
        let mut r = self;
        let mut more = labels;
        let ghost added = more@.map_values(|a: Annotation| a@);
        r.labels.append(&mut more);
        assert(r@.labels =~= self@.labels + added);
        r
    }

    /// The same diagnostic with `notes` appended to its notes.
    pub fn with_notes(self, notes: Vec<String>) -> (r: Diagnostic)
        ensures
            r@.message == self@.message,
            r@.labels == self@.labels,
            r@.notes == self@.notes + notes@.map_values(|s: String| s@),
    {
        let mut r = self;
        let mut more = notes;
        let ghost added = more@.map_values(|s: String| s@);
        r.notes.append(&mut more);
        assert(r@.notes =~= self@.notes + added);
        r
    }
}

} // verus!
