//! Annotations over positions that may be missing, and the record of the synthetic entries
//! registered for them.

use crate::diagnostic::{Annotation, AnnotationView, LabelStyle};
use crate::registry::SourceRegistry;
use crate::term::{RawSpan, RichTerm};
use codespan::FileId;
use vstd::prelude::*;
use vstd::utf8::*;

verus! {

/// The name under which the short rendering of a position-less value is registered.
pub open spec fn synthetic_name() -> Seq<char> {
    "<unkown> (generated by evaluation)"@
}

/// The length in bytes of the UTF-8 encoding of `s`, as a machine-sized offset.
pub open spec fn byte_len(s: Seq<char>) -> int {
    encode_utf8(s).len() as usize as int
}

/// The annotation of `style` and `message` over a span of the source.
pub open spec fn span_view(span: RawSpan, style: LabelStyle, message: Seq<char>) -> AnnotationView {
    AnnotationView {
        style,
        file_id: span.src_id,
        start: span.start as int,
        end: span.end as int,
        message,
    }
}

/// Where a synthetic annotation over `alt` starts: at its second byte, or at its end when
/// it is empty.
pub open spec fn synthetic_start(alt: Seq<char>) -> int {
    if byte_len(alt) < 1 {
        byte_len(alt)
    } else {
        1
    }
}

/// The annotation over `pos` where there is one; else over the text `alt`, from
/// `synthetic_start(alt)` to its end, registered under the handle `id`.
pub open spec fn anchored(
    pos: Option<RawSpan>,
    alt: Seq<char>,
    style: LabelStyle,
    id: FileId,
    message: Seq<char>,
) -> AnnotationView {
    match pos {
        Some(span) => span_view(span, style, message),
        None => AnnotationView {
            style,
            file_id: id,
            start: synthetic_start(alt),
            end: byte_len(alt),
            message,
        },
    }
}

/// The texts that annotating over `pos`, with `alt` to fall back on, registers.
pub open spec fn pos_anchors(pos: Option<RawSpan>, alt: Seq<char>) -> Seq<Seq<char>> {
    if pos is None {
        seq![alt]
    } else {
        seq![]
    }
}

/// The texts that annotating a term registers.
pub open spec fn term_anchors(t: RichTerm) -> Seq<Seq<char>> {
    pos_anchors(t.pos, t.repr@)
}

/// The entries `m` holds once each text of `texts` has been registered, in order, under the
/// handle at the same index of `ids`.
pub open spec fn extended(
    m: Map<FileId, (Seq<char>, Seq<char>)>,
    ids: Seq<FileId>,
    texts: Seq<Seq<char>>,
) -> Map<FileId, (Seq<char>, Seq<char>)>
    decreases ids.len(),
{
    if ids.len() == 0 {
        m
    } else {
        extended(m, ids.drop_last(), texts.drop_last()).insert(
            ids.last(),
            (synthetic_name(), texts[ids.len() - 1]),
        )
    }
}

/// `after` is `before` with `texts` registered as synthetic entries under `ids`: new handles,
/// all distinct, one per text.
pub open spec fn synthesized(
    before: Map<FileId, (Seq<char>, Seq<char>)>,
    after: Map<FileId, (Seq<char>, Seq<char>)>,
    ids: Seq<FileId>,
    texts: Seq<Seq<char>>,
) -> bool {
    &&& ids.len() == texts.len()
    &&& ids.no_duplicates()
    &&& forall|i: int| 0 <= i < ids.len() ==> !before.contains_key(#[trigger] ids[i])
    &&& after == extended(before, ids, texts)
}

/// The keys of an extended map are the old keys and the new handles; registering fresh,
/// distinct handles adds one entry per handle.
pub proof fn lemma_extended_keys(
    m: Map<FileId, (Seq<char>, Seq<char>)>,
    ids: Seq<FileId>,
    texts: Seq<Seq<char>>,
)
    requires
        ids.len() == texts.len(),
    ensures
        forall|k: FileId| #[trigger]
            extended(m, ids, texts).contains_key(k) <==> (m.contains_key(k) || ids.contains(k)),
        m.dom().finite() ==> extended(m, ids, texts).dom().finite(),
        m.dom().finite() && ids.no_duplicates() && (forall|i: int|
            0 <= i < ids.len() ==> !m.contains_key(#[trigger] ids[i])) ==> extended(
            m,
            ids,
            texts,
        ).len() == m.len() + ids.len(),
    decreases ids.len(),
{
    if ids.len() > 0 {
        let a = ids.drop_last();
        lemma_extended_keys(m, a, texts.drop_last());
        assert forall|k: FileId| ids.contains(k) <==> (a.contains(k) || k == ids.last()) by {
            if ids.contains(k) {
                let i = choose|i: int| 0 <= i < ids.len() && ids[i] == k;
                if i < ids.len() - 1 {
                    assert(a[i] == k);
                }
            }
            if a.contains(k) {
                let i = choose|i: int| 0 <= i < a.len() && a[i] == k;
                assert(ids[i] == k);
            }
        }
        let prev = extended(m, a, texts.drop_last());
        assert(extended(m, ids, texts) == prev.insert(ids.last(), (synthetic_name(), texts[ids.len() - 1])));
        assert forall|k: FileId| #[trigger]
            extended(m, ids, texts).contains_key(k) <==> (m.contains_key(k) || ids.contains(k)) by {
            assert(prev.contains_key(k) <==> (m.contains_key(k) || a.contains(k)));
        }
        if m.dom().finite() && ids.no_duplicates() && (forall|i: int|
            0 <= i < ids.len() ==> !m.contains_key(#[trigger] ids[i])) {
            assert forall|i: int| 0 <= i < a.len() implies !m.contains_key(#[trigger] a[i]) by {
                assert(a[i] == ids[i]);
            }
            assert(!a.contains(ids.last())) by {
                if a.contains(ids.last()) {
                    let i = choose|i: int| 0 <= i < a.len() && a[i] == ids.last();
                    assert(ids[i] == ids[ids.len() - 1]);
                }
            }
            assert(!m.contains_key(ids[ids.len() - 1]));
        }
    }
}

/// Registering `a` and then `b` is registering `a + b`.
pub proof fn lemma_synthesized_concat(
    m0: Map<FileId, (Seq<char>, Seq<char>)>,
    m1: Map<FileId, (Seq<char>, Seq<char>)>,
    m2: Map<FileId, (Seq<char>, Seq<char>)>,
    a: Seq<FileId>,
    ta: Seq<Seq<char>>,
    b: Seq<FileId>,
    tb: Seq<Seq<char>>,
)
    requires
        synthesized(m0, m1, a, ta),
        synthesized(m1, m2, b, tb),
    ensures
        synthesized(m0, m2, a + b, ta + tb),
    decreases b.len(),
{
    lemma_extended_keys(m0, a, ta);
    if b.len() == 0 {
        assert(a + b =~= a);
        assert(ta + tb =~= ta);
    } else {
        let b1 = b.drop_last();
        let tb1 = tb.drop_last();
        let mid = extended(m1, b1, tb1);
        assert forall|i: int| 0 <= i < b1.len() implies !m1.contains_key(#[trigger] b1[i]) by {
            assert(b1[i] == b[i]);
        }
        assert(b1.no_duplicates()) by {
            assert forall|i: int, j: int| 0 <= i < b1.len() && 0 <= j < b1.len() && i != j
                implies b1[i] != b1[j] by {
                assert(b1[i] == b[i] && b1[j] == b[j]);
            }
        }
        lemma_synthesized_concat(m0, m1, mid, a, ta, b1, tb1);
        assert((a + b).drop_last() =~= a + b1);
        assert((ta + tb).drop_last() =~= ta + tb1);
        assert((a + b).last() == b.last());
        assert((ta + tb)[(a + b).len() - 1] == tb[b.len() - 1]);
        assert forall|i: int| 0 <= i < (a + b).len() implies !m0.contains_key(
            #[trigger] (a + b)[i],
        ) by {
            if i >= a.len() {
                assert((a + b)[i] == b[i - a.len()]);
                assert(!m1.contains_key(b[i - a.len()]));
            }
        }
        assert((a + b).no_duplicates()) by {
            assert forall|i: int, j: int|
                0 <= i < (a + b).len() && 0 <= j < (a + b).len() && i != j implies (a + b)[i]
                != (a + b)[j] by {
                if i < a.len() && j >= a.len() {
                    assert(a.contains((a + b)[i]));
                    assert(!m1.contains_key(b[j - a.len()]));
                } else if i >= a.len() && j < a.len() {
                    assert(a.contains((a + b)[j]));
                    assert(!m1.contains_key(b[i - a.len()]));
                } else if i >= a.len() && j >= a.len() {
                    assert(b[i - a.len()] != b[j - a.len()]);
                }
            }
        }
    }
}

/// Annotates the span `span_opt` if there is one; otherwise registers `alt_term` as a synthetic
/// entry and annotates it from its second byte (or from its end, when it is empty) to its end.
/// The annotation has an empty message.
pub fn label_alt(
    span_opt: &Option<RawSpan>,
    alt_term: String,
    style: LabelStyle,
    files: &mut SourceRegistry,
) -> (r: Annotation)
    requires
        old(files).wf(),
        span_opt is None ==> old(files).entries().len() < u32::MAX,
    ensures
        final(files).wf(),
        r@ == anchored(*span_opt, alt_term@, style, r.file_id, Seq::<char>::empty()),
        synthesized(
            old(files).entries(),
            final(files).entries(),
            if span_opt is None { seq![r.file_id] } else { seq![] },
            pos_anchors(*span_opt, alt_term@),
        ),
        span_opt is Some ==> final(files).entries() == old(files).entries(),
        span_opt is None ==> {
            &&& final(files).entries().len() == old(files).entries().len() + 1
            &&& !old(files).entries().contains_key(r.file_id)
            &&& final(files).entries()[r.file_id] == (synthetic_name(), alt_term@)
            &&& 0 <= r@.start <= r@.end
            &&& r@.end == byte_len(final(files).entries()[r.file_id].1)
        },
{
    match span_opt {
        Some(span) => {
            let r = Annotation::new(
                style,
                span.src_id,
                span.start as usize,
                span.end as usize,
                String::new(),
            );
            assert(extended(old(files).entries(), seq![], seq![]) == old(files).entries());
            r
        },
        None => {
            let end = alt_term.as_str().len();
            let start: usize = if end < 1 {
                end
            } else {
                1
            };
            let ghost alt = alt_term@;
            let id = files.add("<unkown> (generated by evaluation)", alt_term);
            let r = Annotation::new(style, id, start, end, String::new());
            let ghost ids = seq![id];
            assert(ids.drop_last() =~= Seq::<FileId>::empty());
            assert(seq![alt].drop_last() =~= Seq::<Seq<char>>::empty());
            assert(extended(old(files).entries(), Seq::empty(), Seq::empty()) == old(files).entries());
            assert(seq![alt][0] == alt);
            assert(ids.last() == id);
            assert(final(files).entries() == extended(old(files).entries(), ids, seq![alt]));
            r
        },
    }
}

/// A primary annotation via [`label_alt`].
pub fn primary_alt(span_opt: &Option<RawSpan>, alt_term: String, files: &mut SourceRegistry) -> (r:
    Annotation)
    requires
        old(files).wf(),
        span_opt is None ==> old(files).entries().len() < u32::MAX,
    ensures
        final(files).wf(),
        r@ == anchored(*span_opt, alt_term@, LabelStyle::Primary, r.file_id, Seq::<char>::empty()),
        synthesized(
            old(files).entries(),
            final(files).entries(),
            if span_opt is None { seq![r.file_id] } else { seq![] },
            pos_anchors(*span_opt, alt_term@),
        ),
{
    label_alt(span_opt, alt_term, LabelStyle::Primary, files)
}

/// A secondary annotation via [`label_alt`].
pub fn secondary_alt(span_opt: &Option<RawSpan>, alt_term: String, files: &mut SourceRegistry) -> (r:
    Annotation)
    requires
        old(files).wf(),
        span_opt is None ==> old(files).entries().len() < u32::MAX,
    ensures
        final(files).wf(),
        r@ == anchored(*span_opt, alt_term@, LabelStyle::Secondary, r.file_id, Seq::<char>::empty()),
        synthesized(
            old(files).entries(),
            final(files).entries(),
            if span_opt is None { seq![r.file_id] } else { seq![] },
            pos_anchors(*span_opt, alt_term@),
        ),
{
    label_alt(span_opt, alt_term, LabelStyle::Secondary, files)
}

/// A primary annotation of a term: over its position, or over its shallow rendering when it
/// has none.
pub fn primary_term(term: &RichTerm, files: &mut SourceRegistry) -> (r: Annotation)
    requires
        old(files).wf(),
        term.pos is None ==> old(files).entries().len() < u32::MAX,
    ensures
        final(files).wf(),
        r@ == anchored(term.pos, term.repr@, LabelStyle::Primary, r.file_id, Seq::<char>::empty()),
        synthesized(
            old(files).entries(),
            final(files).entries(),
            if term.pos is None { seq![r.file_id] } else { seq![] },
            term_anchors(*term),
        ),
        term.pos matches Some(span) ==> r@.file_id == span.src_id && r@.start == span.start
            && r@.end == span.end,
{
    primary_alt(&term.pos, term.shallow_repr(), files)
}

/// A primary annotation over a span.
pub fn primary(span: &RawSpan) -> (r: Annotation)
    ensures
        r@ == span_view(*span, LabelStyle::Primary, Seq::<char>::empty()),
{
    Annotation::new(LabelStyle::Primary, span.src_id, span.start as usize, span.end as usize, String::new())
}

/// A secondary annotation over a span.
pub fn secondary(span: &RawSpan) -> (r: Annotation)
    ensures
        r@ == span_view(*span, LabelStyle::Secondary, Seq::<char>::empty()),
{
    Annotation::new(LabelStyle::Secondary, span.src_id, span.start as usize, span.end as usize, String::new())
}

} // verus!
