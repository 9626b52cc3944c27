//! Ordered annotation history with undo/redo.
//!
//! The unified list of annotations is the source of truth; the per-kind
//! arrays are rebuilt from the visible prefix (the entries before the undo
//! index). The payload of an annotation (its coordinates, colour, ...) is a
//! type parameter: the history only reads each entry's kind.
use vstd::prelude::*;

verus! {

/// The kind of an annotation.
#[derive(Clone, Copy, Debug, PartialEq, Eq, Structural)]
pub enum AnnotationKind {
    Arrow,
    Circle,
    Rectangle,
    Magnifier,
    Redact,
    Pixelate,
}

impl AnnotationKind {
    /// Shapes are arrows, circles, rectangles and magnifiers.
    pub open spec fn spec_is_shape(self) -> bool {
        self is Arrow || self is Circle || self is Rectangle || self is Magnifier
    }

    /// Redactions are solid redactions and pixelations.
    pub open spec fn spec_is_redaction(self) -> bool {
        self is Redact || self is Pixelate
    }

    /// Check if this is a shape annotation (arrow, circle, rectangle, magnifier).
    pub fn is_shape(&self) -> (b: bool)
        ensures
            b == self.spec_is_shape(),
    {
        match self {
            AnnotationKind::Arrow | AnnotationKind::Circle | AnnotationKind::Rectangle
            | AnnotationKind::Magnifier => true,
            _ => false,
        }
    }

    /// Check if this is a redaction annotation (redact, pixelate).
    pub fn is_redaction(&self) -> (b: bool)
        ensures
            b == self.spec_is_redaction(),
    {
        match self {
            AnnotationKind::Redact | AnnotationKind::Pixelate => true,
            _ => false,
        }
    }
}

/// One annotation of the unified list: its kind and its payload.
#[derive(Clone, Copy, Debug)]
pub struct HistoryEntry<T> {
    pub kind: AnnotationKind,
    pub data: T,
}

/// The payloads of the entries of kind `k`, in order.
pub open spec fn payloads_of_kind<T>(s: Seq<HistoryEntry<T>>, k: AnnotationKind) -> Seq<T>
    decreases s.len(),
{
    if s.len() == 0 {
        Seq::empty()
    } else {
        let rest = payloads_of_kind(s.drop_last(), k);
        if s.last().kind == k {
            rest.push(s.last().data)
        } else {
            rest
        }
    }
}

/// The entries whose kind is a redaction (when `redactions` holds) or a
/// shape (otherwise), in order.
pub open spec fn entries_of_class<T>(s: Seq<HistoryEntry<T>>, redactions: bool) -> Seq<HistoryEntry<T>>
    decreases s.len(),
{
    if s.len() == 0 {
        Seq::empty()
    } else {
        let rest = entries_of_class(s.drop_last(), redactions);
        if s.last().kind.spec_is_redaction() == redactions {
            rest.push(s.last())
        } else {
            rest
        }
    }
}

/// The payloads of kind `k` in a prefix are a prefix of those of the whole sequence.
pub proof fn lemma_payloads_prefix<T>(s: Seq<HistoryEntry<T>>, i: int, k: AnnotationKind)
    requires
        0 <= i <= s.len(),
    ensures
        payloads_of_kind(s.take(i), k).len() <= payloads_of_kind(s, k).len(),
        forall|j: int|
            0 <= j < payloads_of_kind(s.take(i), k).len() ==> #[trigger] payloads_of_kind(s.take(i), k)[j]
                == payloads_of_kind(s, k)[j],
    decreases s.len() - i,
{
    if i < s.len() {
        lemma_payloads_prefix(s, i + 1, k);
        let t1 = s.take(i + 1);
        assert(t1.drop_last() =~= s.take(i));
        assert forall|j: int| 0 <= j < payloads_of_kind(s.take(i), k).len() implies #[trigger] payloads_of_kind(
            s.take(i),
            k,
        )[j] == payloads_of_kind(s, k)[j] by {
            assert(payloads_of_kind(t1, k)[j] == payloads_of_kind(s.take(i), k)[j]);
        }
    } else {
        assert(s.take(i) =~= s);
    }
}

/// Every entry of class `redactions` in `s` is kept in `entries_of_class`, and
/// nothing else is.
pub proof fn lemma_entries_of_class_kinds<T>(s: Seq<HistoryEntry<T>>, redactions: bool)
    ensures
        forall|j: int|
            0 <= j < entries_of_class(s, redactions).len() ==> (#[trigger] entries_of_class(
                s,
                redactions,
            )[j]).kind.spec_is_redaction() == redactions,
    decreases s.len(),
{
    if s.len() > 0 {
        lemma_entries_of_class_kinds(s.drop_last(), redactions);
    }
}

/// The visible prefix of a history whose undo index is `idx`.
pub open spec fn visible_of<T>(entries: Seq<HistoryEntry<T>>, idx: int) -> Seq<HistoryEntry<T>> {
    if idx <= entries.len() {
        entries.take(idx)
    } else {
        entries
    }
}

/// The undo index after an undo.
pub open spec fn index_after_undo(idx: int) -> int {
    if idx > 0 {
        idx - 1
    } else {
        idx
    }
}

/// The undo index after a redo, in a history of `len` entries.
pub open spec fn index_after_redo(idx: int, len: int) -> int {
    if idx < len {
        idx + 1
    } else {
        idx
    }
}

/// The history after adding `e` at undo index `idx`.
pub open spec fn entries_after_add<T>(entries: Seq<HistoryEntry<T>>, idx: int, e: HistoryEntry<T>) -> Seq<HistoryEntry<T>> {
    visible_of(entries, idx).push(e)
}

/// Law: a redo right after an undo returns to the same undo index, whenever
/// there was something to undo.
pub proof fn law_redo_undoes_undo(idx: int, len: int)
    requires
        0 < idx <= len,
    ensures
        index_after_redo(index_after_undo(idx), len) == idx,
{
}

/// Law: an undo right after a redo returns to the same undo index, whenever
/// there was something to redo.
pub proof fn law_undo_undoes_redo(idx: int, len: int)
    requires
        0 <= idx < len,
    ensures
        index_after_undo(index_after_redo(idx, len)) == idx,
{
}

/// Law: undoing an added annotation shows exactly what was visible before
/// it was added (the redo history that the addition dropped stays dropped).
pub proof fn law_undo_after_add<T>(entries: Seq<HistoryEntry<T>>, idx: int, e: HistoryEntry<T>)
    requires
        0 <= idx,
    ensures
        ({
            let after = entries_after_add(entries, idx, e);
            visible_of(after, index_after_undo(after.len() as int)) == visible_of(entries, idx)
        }),
{
    let after = entries_after_add(entries, idx, e);
    assert(visible_of(after, index_after_undo(after.len() as int)) =~= visible_of(entries, idx));
}

/// Law: clearing one class of annotations keeps every annotation of the
/// other class, in order, and none of the cleared class.
pub proof fn law_clear_keeps_other_class<T>(s: Seq<HistoryEntry<T>>, redactions: bool, k: AnnotationKind)
    ensures
        k.spec_is_redaction() == redactions ==> payloads_of_kind(entries_of_class(s, redactions), k)
            == payloads_of_kind(s, k),
        k.spec_is_redaction() != redactions ==> payloads_of_kind(entries_of_class(s, redactions), k)
            =~= Seq::<T>::empty(),
    decreases s.len(),
{
    if s.len() > 0 {
        law_clear_keeps_other_class(s.drop_last(), redactions, k);
        let rest = entries_of_class(s.drop_last(), redactions);
        if s.last().kind.spec_is_redaction() == redactions {
            assert(entries_of_class(s, redactions).drop_last() =~= rest);
        } else {
            assert(entries_of_class(s, redactions) == rest);
        }
    }
}

/// Annotation state of a capture session: the unified history, the undo
/// index, the per-kind arrays rebuilt from the visible history, the drawing
/// modes and the in-progress drawing start points (`P`), and the selected
/// magnifier.
#[derive(Clone, Debug)]
pub struct AnnotationState<T, P> {
    pub annotations: Vec<HistoryEntry<T>>,
    pub annotation_index: usize,
    pub arrows: Vec<T>,
    pub arrow_mode: bool,
    pub arrow_drawing: Option<P>,
    pub redactions: Vec<T>,
    pub redact_mode: bool,
    pub redact_drawing: Option<P>,
    pub pixelations: Vec<T>,
    pub pixelate_mode: bool,
    pub pixelate_drawing: Option<P>,
    pub circles: Vec<T>,
    pub circle_mode: bool,
    pub circle_drawing: Option<P>,
    pub rect_outlines: Vec<T>,
    pub rect_outline_mode: bool,
    pub rect_outline_drawing: Option<P>,
    pub magnifiers: Vec<T>,
    pub magnifier_mode: bool,
    pub magnifier_drawing: Option<P>,
    /// Index (into `magnifiers`) of the currently selected magnifier, if any
    pub selected_magnifier: Option<usize>,
}

impl<T: Copy, P: Copy> AnnotationState<T, P> {
    /// Number of visible entries: those before the undo index.
    pub open spec fn visible_len(self) -> int {
        if self.annotation_index <= self.annotations@.len() {
            self.annotation_index as int
        } else {
            self.annotations@.len() as int
        }
    }

    /// The visible history.
    pub open spec fn visible(self) -> Seq<HistoryEntry<T>> {
        visible_of(self.annotations@, self.annotation_index as int)
    }

    /// The per-kind arrays agree with the visible history, and the
    /// magnifier selection points into the magnifier array.
    pub open spec fn arrays_in_sync(self) -> bool {
        &&& self.arrows@ == payloads_of_kind(self.visible(), AnnotationKind::Arrow)
        &&& self.circles@ == payloads_of_kind(self.visible(), AnnotationKind::Circle)
        &&& self.rect_outlines@ == payloads_of_kind(self.visible(), AnnotationKind::Rectangle)
        &&& self.magnifiers@ == payloads_of_kind(self.visible(), AnnotationKind::Magnifier)
        &&& self.redactions@ == payloads_of_kind(self.visible(), AnnotationKind::Redact)
        &&& self.pixelations@ == payloads_of_kind(self.visible(), AnnotationKind::Pixelate)
        &&& (self.selected_magnifier matches Some(i) ==> i < self.magnifiers@.len())
    }

    /// No drawing mode is on and no drawing is in progress.
    pub open spec fn modes_off(self) -> bool {
        &&& !self.arrow_mode && self.arrow_drawing is None
        &&& !self.redact_mode && self.redact_drawing is None
        &&& !self.pixelate_mode && self.pixelate_drawing is None
        &&& !self.circle_mode && self.circle_drawing is None
        &&& !self.rect_outline_mode && self.rect_outline_drawing is None
        &&& !self.magnifier_mode && self.magnifier_drawing is None
    }

    /// The six drawing modes and their drawings in progress are those of `other`.
    pub open spec fn same_modes(self, other: Self) -> bool {
        &&& self.arrow_mode == other.arrow_mode && self.arrow_drawing == other.arrow_drawing
        &&& self.redact_mode == other.redact_mode && self.redact_drawing == other.redact_drawing
        &&& self.pixelate_mode == other.pixelate_mode && self.pixelate_drawing == other.pixelate_drawing
        &&& self.circle_mode == other.circle_mode && self.circle_drawing == other.circle_drawing
        &&& self.rect_outline_mode == other.rect_outline_mode && self.rect_outline_drawing
            == other.rect_outline_drawing
        &&& self.magnifier_mode == other.magnifier_mode && self.magnifier_drawing
            == other.magnifier_drawing
    }

    /// The per-kind array that holds the visible annotations of kind `k`.
    pub open spec fn payloads(self, k: AnnotationKind) -> Seq<T> {
        match k {
            AnnotationKind::Arrow => self.arrows@,
            AnnotationKind::Circle => self.circles@,
            AnnotationKind::Rectangle => self.rect_outlines@,
            AnnotationKind::Magnifier => self.magnifiers@,
            AnnotationKind::Redact => self.redactions@,
            AnnotationKind::Pixelate => self.pixelations@,
        }
    }

    /// Where the `target`-th visible magnifier stands in the unified list.
    pub open spec fn magnifier_position(self, target: int, u: int) -> bool {
        &&& 0 <= u < self.visible_len()
        &&& self.annotations@[u].kind == AnnotationKind::Magnifier
        &&& payloads_of_kind(self.annotations@.take(u), AnnotationKind::Magnifier).len() == target
    }

    /// An empty state: no annotations, no mode, no selection.
    pub fn new() -> (s: Self)
        ensures
            s.annotations@.len() == 0,
            s.annotation_index == 0,
            s.arrays_in_sync(),
            s.modes_off(),
            s.selected_magnifier is None,
    {
        AnnotationState {
            annotations: Vec::new(),
            annotation_index: 0,
            arrows: Vec::new(),
            arrow_mode: false,
            arrow_drawing: None,
            redactions: Vec::new(),
            redact_mode: false,
            redact_drawing: None,
            pixelations: Vec::new(),
            pixelate_mode: false,
            pixelate_drawing: None,
            circles: Vec::new(),
            circle_mode: false,
            circle_drawing: None,
            rect_outlines: Vec::new(),
            rect_outline_mode: false,
            rect_outline_drawing: None,
            magnifiers: Vec::new(),
            magnifier_mode: false,
            magnifier_drawing: None,
            selected_magnifier: None,
        }
    }

    /// Remove every annotation, turn off every mode and drop the selection.
    pub fn clear_all(&mut self)
        ensures
            final(self).annotations@.len() == 0,
            final(self).annotation_index == 0,
            final(self).arrays_in_sync(),
            final(self).modes_off(),
            final(self).selected_magnifier is None,
    {
        self.annotations.clear();
        self.annotation_index = 0;
        self.arrows.clear();
        self.arrow_mode = false;
        self.arrow_drawing = None;
        self.redactions.clear();
        self.redact_mode = false;
        self.redact_drawing = None;
        self.pixelations.clear();
        self.pixelate_mode = false;
        self.pixelate_drawing = None;
        self.circles.clear();
        self.circle_mode = false;
        self.circle_drawing = None;
        self.rect_outlines.clear();
        self.rect_outline_mode = false;
        self.rect_outline_drawing = None;
        self.magnifiers.clear();
        self.magnifier_mode = false;
        self.magnifier_drawing = None;
        self.selected_magnifier = None;
    }

    /// Keep the entries of one class (redactions when `redactions` holds,
    /// shapes otherwise), in order; the undo index moves to the end.
    fn retain_class(&mut self, redactions: bool)
        ensures
            final(self).annotations@ == entries_of_class(old(self).annotations@, redactions),
            final(self).annotation_index == final(self).annotations@.len(),
            final(self).arrows == old(self).arrows,
            final(self).circles == old(self).circles,
            final(self).rect_outlines == old(self).rect_outlines,
            final(self).magnifiers == old(self).magnifiers,
            final(self).redactions == old(self).redactions,
            final(self).pixelations == old(self).pixelations,
            final(self).arrow_mode == old(self).arrow_mode,
            final(self).arrow_drawing == old(self).arrow_drawing,
            final(self).redact_mode == old(self).redact_mode,
            final(self).redact_drawing == old(self).redact_drawing,
            final(self).pixelate_mode == old(self).pixelate_mode,
            final(self).pixelate_drawing == old(self).pixelate_drawing,
            final(self).circle_mode == old(self).circle_mode,
            final(self).circle_drawing == old(self).circle_drawing,
            final(self).rect_outline_mode == old(self).rect_outline_mode,
            final(self).rect_outline_drawing == old(self).rect_outline_drawing,
            final(self).magnifier_mode == old(self).magnifier_mode,
            final(self).magnifier_drawing == old(self).magnifier_drawing,
            final(self).selected_magnifier == old(self).selected_magnifier,
    {
        let mut kept: Vec<HistoryEntry<T>> = Vec::new();
        let n = self.annotations.len();
        let mut i: usize = 0;
        while i < n
            invariant
                n == self.annotations@.len(),
                0 <= i <= n,
                kept@ == entries_of_class(self.annotations@.take(i as int), redactions),
            decreases n - i,
        {
            let e = self.annotations[i];
            proof {
                assert(self.annotations@.take(i + 1).drop_last() =~= self.annotations@.take(
                    i as int,
                ));
            }
            if e.kind.is_redaction() == redactions {
                kept.push(e);
            }
            i = i + 1;
        }
        proof {
            assert(self.annotations@.take(n as int) =~= self.annotations@);
        }
        self.annotation_index = kept.len();
        self.annotations = kept;
    }

    /// Remove every shape (arrow, circle, rectangle, magnifier): the shape
    /// arrays, modes and drawings, the magnifier selection, and the shapes of
    /// the unified list, whose undo index moves to its end.
    pub fn clear_shapes(&mut self)
        ensures
            final(self).annotations@ == entries_of_class(old(self).annotations@, true),
            final(self).annotation_index == final(self).annotations@.len(),
            final(self).arrows@.len() == 0 && final(self).circles@.len() == 0,
            final(self).rect_outlines@.len() == 0 && final(self).magnifiers@.len() == 0,
            !final(self).arrow_mode && final(self).arrow_drawing is None,
            !final(self).circle_mode && final(self).circle_drawing is None,
            !final(self).rect_outline_mode && final(self).rect_outline_drawing is None,
            !final(self).magnifier_mode && final(self).magnifier_drawing is None,
            final(self).selected_magnifier is None,
            final(self).redactions == old(self).redactions,
            final(self).pixelations == old(self).pixelations,
            final(self).redact_mode == old(self).redact_mode,
            final(self).redact_drawing == old(self).redact_drawing,
            final(self).pixelate_mode == old(self).pixelate_mode,
            final(self).pixelate_drawing == old(self).pixelate_drawing,
    {
        self.arrows.clear();
        self.arrow_drawing = None;
        self.arrow_mode = false;
        self.circles.clear();
        self.circle_drawing = None;
        self.circle_mode = false;
        self.rect_outlines.clear();
        self.rect_outline_drawing = None;
        self.rect_outline_mode = false;
        self.magnifiers.clear();
        self.magnifier_drawing = None;
        self.magnifier_mode = false;
        self.selected_magnifier = None;
        self.retain_class(true);
    }

    /// Remove every redaction (redact, pixelate): the redaction entries of
    /// the unified list (whose undo index moves to its end), the redaction
    /// arrays, and the redaction modes and drawings.
    pub fn clear_redactions(&mut self)
        ensures
            final(self).annotations@ == entries_of_class(old(self).annotations@, false),
            final(self).annotation_index == final(self).annotations@.len(),
            final(self).redactions@.len() == 0 && final(self).pixelations@.len() == 0,
            !final(self).redact_mode && final(self).redact_drawing is None,
            !final(self).pixelate_mode && final(self).pixelate_drawing is None,
            final(self).arrows == old(self).arrows,
            final(self).circles == old(self).circles,
            final(self).rect_outlines == old(self).rect_outlines,
            final(self).magnifiers == old(self).magnifiers,
            final(self).arrow_mode == old(self).arrow_mode,
            final(self).arrow_drawing == old(self).arrow_drawing,
            final(self).circle_mode == old(self).circle_mode,
            final(self).circle_drawing == old(self).circle_drawing,
            final(self).rect_outline_mode == old(self).rect_outline_mode,
            final(self).rect_outline_drawing == old(self).rect_outline_drawing,
            final(self).magnifier_mode == old(self).magnifier_mode,
            final(self).magnifier_drawing == old(self).magnifier_drawing,
            final(self).selected_magnifier == old(self).selected_magnifier,
    {
        self.retain_class(false);
        self.redactions.clear();
        self.pixelations.clear();
        self.redact_mode = false;
        self.redact_drawing = None;
        self.pixelate_mode = false;
        self.pixelate_drawing = None;
    }

    /// Step the undo index back by one (if it is not at the start) and
    /// rebuild the arrays.
    pub fn undo(&mut self)
        ensures
            final(self).annotations == old(self).annotations,
            final(self).annotation_index == index_after_undo(old(self).annotation_index as int),
            old(self).annotation_index > 0 ==> final(self).arrays_in_sync(),
            old(self).annotation_index == 0 ==> *final(self) == *old(self),
            final(self).selected_magnifier is Some ==> final(self).selected_magnifier
                == old(self).selected_magnifier,
            final(self).same_modes(*old(self)),
    {
        if self.annotation_index > 0 {
            self.annotation_index = self.annotation_index - 1;
            self.rebuild_arrays();
        }
    }

    /// Step the undo index forward by one (if there is an undone entry) and
    /// rebuild the arrays.
    pub fn redo(&mut self)
        ensures
            final(self).annotations == old(self).annotations,
            final(self).annotation_index == index_after_redo(
                old(self).annotation_index as int,
                old(self).annotations@.len() as int,
            ),
            old(self).annotation_index < old(self).annotations@.len() ==> final(self).arrays_in_sync(),
            old(self).annotation_index >= old(self).annotations@.len() ==> *final(self) == *old(self),
            final(self).selected_magnifier is Some ==> final(self).selected_magnifier
                == old(self).selected_magnifier,
            final(self).same_modes(*old(self)),
    {
        if self.annotation_index < self.annotations.len() {
            self.annotation_index = self.annotation_index + 1;
            self.rebuild_arrays();
        }
    }

    /// Append an annotation after the visible ones, dropping the undone
    /// (redo) history; the undo index moves to the end.
    pub fn add(&mut self, annotation: HistoryEntry<T>)
        requires
            old(self).annotations@.len() < usize::MAX,
        ensures
            final(self).annotations@ == entries_after_add(
                old(self).annotations@,
                old(self).annotation_index as int,
                annotation,
            ),
            final(self).annotation_index == final(self).annotations@.len(),
            final(self).arrows == old(self).arrows,
            final(self).circles == old(self).circles,
            final(self).rect_outlines == old(self).rect_outlines,
            final(self).magnifiers == old(self).magnifiers,
            final(self).redactions == old(self).redactions,
            final(self).pixelations == old(self).pixelations,
            final(self).selected_magnifier == old(self).selected_magnifier,
            final(self).same_modes(*old(self)),
    {
        self.annotations.truncate(self.annotation_index);
        self.annotations.push(annotation);
        self.annotation_index = self.annotations.len();
    }

    /// Rebuild the per-kind arrays from the visible history, and drop a
    /// magnifier selection that no longer points into the magnifiers.
    pub fn rebuild_arrays(&mut self)
        ensures
            final(self).annotations == old(self).annotations,
            final(self).annotation_index == old(self).annotation_index,
            final(self).arrays_in_sync(),
            final(self).selected_magnifier is Some ==> final(self).selected_magnifier
                == old(self).selected_magnifier,
            (old(self).selected_magnifier matches Some(i) && i < final(self).magnifiers@.len())
                ==> final(self).selected_magnifier == old(self).selected_magnifier,
            final(self).arrow_mode == old(self).arrow_mode,
            final(self).arrow_drawing == old(self).arrow_drawing,
            final(self).redact_mode == old(self).redact_mode,
            final(self).redact_drawing == old(self).redact_drawing,
            final(self).pixelate_mode == old(self).pixelate_mode,
            final(self).pixelate_drawing == old(self).pixelate_drawing,
            final(self).circle_mode == old(self).circle_mode,
            final(self).circle_drawing == old(self).circle_drawing,
            final(self).rect_outline_mode == old(self).rect_outline_mode,
            final(self).rect_outline_drawing == old(self).rect_outline_drawing,
            final(self).magnifier_mode == old(self).magnifier_mode,
            final(self).magnifier_drawing == old(self).magnifier_drawing,
    {
        let mut arrows: Vec<T> = Vec::new();
        let mut circles: Vec<T> = Vec::new();
        let mut rects: Vec<T> = Vec::new();
        let mut magnifiers: Vec<T> = Vec::new();
        let mut redactions: Vec<T> = Vec::new();
        let mut pixelations: Vec<T> = Vec::new();
        let n = if self.annotation_index <= self.annotations.len() {
            self.annotation_index
        } else {
            self.annotations.len()
        };
        let ghost all = self.annotations@;
        let mut i: usize = 0;
        while i < n
            invariant
                all == self.annotations@,
                n <= all.len(),
                0 <= i <= n,
                arrows@ == payloads_of_kind(all.take(i as int), AnnotationKind::Arrow),
                circles@ == payloads_of_kind(all.take(i as int), AnnotationKind::Circle),
                rects@ == payloads_of_kind(all.take(i as int), AnnotationKind::Rectangle),
                magnifiers@ == payloads_of_kind(all.take(i as int), AnnotationKind::Magnifier),
                redactions@ == payloads_of_kind(all.take(i as int), AnnotationKind::Redact),
                pixelations@ == payloads_of_kind(all.take(i as int), AnnotationKind::Pixelate),
            decreases n - i,
        {
            let e = self.annotations[i];
            proof {
                assert(all.take(i + 1).drop_last() =~= all.take(i as int));
                assert(all.take(i + 1).last() == all[i as int]);
            }
            match e.kind {
                AnnotationKind::Arrow => arrows.push(e.data),
                AnnotationKind::Circle => circles.push(e.data),
                AnnotationKind::Rectangle => rects.push(e.data),
                AnnotationKind::Magnifier => magnifiers.push(e.data),
                AnnotationKind::Redact => redactions.push(e.data),
                AnnotationKind::Pixelate => pixelations.push(e.data),
            }
            i = i + 1;
        }
        proof {
            assert(all.take(n as int) =~= visible_of(all, self.annotation_index as int));
        }
        self.arrows = arrows;
        self.circles = circles;
        self.rect_outlines = rects;
        self.magnifiers = magnifiers;
        self.redactions = redactions;
        self.pixelations = pixelations;
        match self.selected_magnifier {
            Some(idx) => {
                if idx >= self.magnifiers.len() {
                    self.selected_magnifier = None;
                }
            },
            None => {},
        }
    }

    /// Map the selected magnifier (index into `magnifiers`) to its position
    /// in the unified list, counting only visible entries.
    pub fn selected_magnifier_unified_index(&self) -> (r: Option<usize>)
        ensures
            self.selected_magnifier is None ==> r is None,
            self.selected_magnifier matches Some(t) ==> (r is Some <==> (t as int) < payloads_of_kind(self.visible(), AnnotationKind::Magnifier).len()),
            r matches Some(u) ==> self.magnifier_position(self.selected_magnifier->0 as int, u as int),
    {
        let target = match self.selected_magnifier {
            Some(t) => t,
            None => { return None; },
        };
        let n = if self.annotation_index <= self.annotations.len() {
            self.annotation_index
        } else {
            self.annotations.len()
        };
        let ghost all = self.annotations@;
        let mut count: usize = 0;
        let mut i: usize = 0;
        while i < n
            invariant
                all == self.annotations@,
                n == self.visible_len(),
                0 <= i <= n,
                count == payloads_of_kind(all.take(i as int), AnnotationKind::Magnifier).len(),
                count <= target,
                self.selected_magnifier == Some(target),
            decreases n - i,
        {
            proof {
                assert(all.take(i + 1).drop_last() =~= all.take(i as int));
            }
            if self.annotations[i].kind == AnnotationKind::Magnifier {
                if count == target {
                    proof {
                        let vis = all.take(n as int);
                        lemma_payloads_prefix(vis, i + 1, AnnotationKind::Magnifier);
                        assert(vis.take(i + 1) =~= all.take(i + 1));
                        assert(vis =~= self.visible());
                    }
                    return Some(i);
                }
                count = count + 1;
            }
            i = i + 1;
        }
        proof {
            assert(all.take(n as int) =~= self.visible());
        }
        None
    }

    /// The payload of the selected magnifier, if the selection points into
    /// the magnifier array.
    pub fn selected_magnifier_data(&self) -> (r: Option<T>)
        ensures
            r == (match self.selected_magnifier {
                Some(i) => if i < self.magnifiers@.len() {
                    Some(self.magnifiers@[i as int])
                } else {
                    None
                },
                None => None,
            }),
    {
        match self.selected_magnifier {
            Some(i) => if i < self.magnifiers.len() {
                Some(self.magnifiers[i])
            } else {
                None
            },
            None => None,
        }
    }

    /// Apply an edit to the selected magnifier in the unified list (the
    /// source of truth), then rebuild the arrays. Nothing changes in the
    /// list when no visible magnifier is selected.
    pub fn edit_selected_magnifier<F: Fn(T) -> T>(&mut self, f: F)
        requires
            forall|t: T| #[trigger] f.requires((t,)),
        ensures
            final(self).annotation_index == old(self).annotation_index,
            final(self).annotations@.len() == old(self).annotations@.len(),
            old(self).selected_magnifier is None ==> *final(self) == *old(self),
            old(self).selected_magnifier matches Some(t) ==> (if (t as int) < payloads_of_kind(old(self).visible(), AnnotationKind::Magnifier).len() {
                exists|u: int|
                    old(self).magnifier_position(t as int, u) && (forall|j: int|
                        0 <= j < old(self).annotations@.len() && j != u ==> final(self).annotations@[j] == old(self).annotations@[j]) && final(self).annotations@[u].kind == AnnotationKind::Magnifier && f.ensures(
                        (old(self).annotations@[u].data,),
                        final(self).annotations@[u].data,
                    ) && final(self).arrays_in_sync()
            } else {
                *final(self) == *old(self)
            }),
    {
        let unified = self.selected_magnifier_unified_index();
        match unified {
            None => {},
            Some(u) => {
                let e = self.annotations[u];
                let edited = f(e.data);
                self.annotations.set(u, HistoryEntry { kind: e.kind, data: edited });
                self.rebuild_arrays();
            },
        }
    }

    /// Turn off every drawing mode and drop any drawing in progress; the
    /// magnifier selection is kept.
    pub fn disable_all_modes(&mut self)
        ensures
            final(self).modes_off(),
            final(self).annotations == old(self).annotations,
            final(self).annotation_index == old(self).annotation_index,
            final(self).arrows == old(self).arrows,
            final(self).circles == old(self).circles,
            final(self).rect_outlines == old(self).rect_outlines,
            final(self).magnifiers == old(self).magnifiers,
            final(self).redactions == old(self).redactions,
            final(self).pixelations == old(self).pixelations,
            final(self).selected_magnifier == old(self).selected_magnifier,
    {
        self.arrow_mode = false;
        self.arrow_drawing = None;
        self.redact_mode = false;
        self.redact_drawing = None;
        self.pixelate_mode = false;
        self.pixelate_drawing = None;
        self.circle_mode = false;
        self.circle_drawing = None;
        self.rect_outline_mode = false;
        self.rect_outline_drawing = None;
        self.magnifier_mode = false;
        self.magnifier_drawing = None;
    }
}

/// The five drawing tools that are switched on and off from the toolbar.
#[derive(Clone, Copy, Debug, PartialEq, Eq, Structural)]
pub enum DrawMode {
    Arrow,
    Circle,
    Rectangle,
    Redact,
    Pixelate,
}

/// The kind of the annotations that tool `m` draws.
pub open spec fn draw_kind(m: DrawMode) -> AnnotationKind {
    match m {
        DrawMode::Arrow => AnnotationKind::Arrow,
        DrawMode::Circle => AnnotationKind::Circle,
        DrawMode::Rectangle => AnnotationKind::Rectangle,
        DrawMode::Redact => AnnotationKind::Redact,
        DrawMode::Pixelate => AnnotationKind::Pixelate,
    }
}

impl DrawMode {
    /// The kind of the annotations this tool draws.
    pub fn kind(&self) -> (k: AnnotationKind)
        ensures
            k == draw_kind(*self),
    {
        match self {
            DrawMode::Arrow => AnnotationKind::Arrow,
            DrawMode::Circle => AnnotationKind::Circle,
            DrawMode::Rectangle => AnnotationKind::Rectangle,
            DrawMode::Redact => AnnotationKind::Redact,
            DrawMode::Pixelate => AnnotationKind::Pixelate,
        }
    }
}

/// What the pointer does with a drawing tool; `P` is a point.
#[derive(Clone, Copy, Debug)]
pub enum DrawAction<P> {
    /// Switch the tool on or off.
    ModeToggle,
    /// Press at a point.
    Start(P),
    /// Release at a point.
    End(P),
}

/// A drawing message: an action of one of the five tools, or an edit of the
/// history.
#[derive(Clone, Copy, Debug)]
pub enum DrawMsg<P> {
    Arrow(DrawAction<P>),
    Circle(DrawAction<P>),
    Rectangle(DrawAction<P>),
    Redact(DrawAction<P>),
    Pixelate(DrawAction<P>),
    /// Remove every shape (keeps the redactions).
    ClearShapes,
    /// Remove every redaction (keeps the shapes).
    ClearRedactions,
    Undo,
    Redo,
}

/// The tool and action of a tool message.
pub open spec fn tool_action<P>(msg: DrawMsg<P>) -> Option<(DrawMode, DrawAction<P>)> {
    match msg {
        DrawMsg::Arrow(a) => Some((DrawMode::Arrow, a)),
        DrawMsg::Circle(a) => Some((DrawMode::Circle, a)),
        DrawMsg::Rectangle(a) => Some((DrawMode::Rectangle, a)),
        DrawMsg::Redact(a) => Some((DrawMode::Redact, a)),
        DrawMsg::Pixelate(a) => Some((DrawMode::Pixelate, a)),
        _ => None,
    }
}

/// The message switches a tool that is off on (after which the OCR and QR
/// results are cleared).
pub open spec fn switches_tool_on<T: Copy, P: Copy>(state: AnnotationState<T, P>, msg: DrawMsg<P>) -> bool {
    tool_action(msg) matches Some((m, a)) && a is ModeToggle && !state.mode_of(m)
}

impl<T: Copy, P: Copy> AnnotationState<T, P> {
    /// Whether drawing mode `m` is on.
    pub open spec fn mode_of(self, m: DrawMode) -> bool {
        match m {
            DrawMode::Arrow => self.arrow_mode,
            DrawMode::Circle => self.circle_mode,
            DrawMode::Rectangle => self.rect_outline_mode,
            DrawMode::Redact => self.redact_mode,
            DrawMode::Pixelate => self.pixelate_mode,
        }
    }

    /// Where the drawing in progress with tool `m` started, if any.
    pub open spec fn drawing_of(self, m: DrawMode) -> Option<P> {
        match m {
            DrawMode::Arrow => self.arrow_drawing,
            DrawMode::Circle => self.circle_drawing,
            DrawMode::Rectangle => self.rect_outline_drawing,
            DrawMode::Redact => self.redact_drawing,
            DrawMode::Pixelate => self.pixelate_drawing,
        }
    }

    /// At most one of the five drawing modes is on.
    pub open spec fn at_most_one_mode(self) -> bool {
        forall|a: DrawMode, b: DrawMode|
            #![trigger self.mode_of(a), self.mode_of(b)]
            self.mode_of(a) && self.mode_of(b) ==> a == b
    }

    /// Everything but the five drawing modes and their drawings is the same.
    pub open spec fn same_apart_from_modes(self, other: Self) -> bool {
        &&& self.annotations == other.annotations
        &&& self.annotation_index == other.annotation_index
        &&& self.arrows == other.arrows
        &&& self.circles == other.circles
        &&& self.rect_outlines == other.rect_outlines
        &&& self.magnifiers == other.magnifiers
        &&& self.redactions == other.redactions
        &&& self.pixelations == other.pixelations
        &&& self.selected_magnifier == other.selected_magnifier
        &&& self.magnifier_mode == other.magnifier_mode
        &&& self.magnifier_drawing == other.magnifier_drawing
    }

    /// Switch tool `m` off and drop its drawing in progress.
    fn switch_off(&mut self, m: DrawMode)
        ensures
            !final(self).mode_of(m),
            final(self).drawing_of(m) is None,
            forall|o: DrawMode|
                o != m ==> #[trigger] final(self).mode_of(o) == old(self).mode_of(o)
                    && final(self).drawing_of(o) == old(self).drawing_of(o),
            final(self).keeps_other_tools(*old(self), m),
            final(self).same_apart_from_modes(*old(self)),
    {
        match m {
            DrawMode::Arrow => {
                self.arrow_mode = false;
                self.arrow_drawing = None;
            },
            DrawMode::Circle => {
                self.circle_mode = false;
                self.circle_drawing = None;
            },
            DrawMode::Rectangle => {
                self.rect_outline_mode = false;
                self.rect_outline_drawing = None;
            },
            DrawMode::Redact => {
                self.redact_mode = false;
                self.redact_drawing = None;
            },
            DrawMode::Pixelate => {
                self.pixelate_mode = false;
                self.pixelate_drawing = None;
            },
        }
    }

    /// Toggle drawing tool `m`. Switching it off drops its drawing in
    /// progress; switching it on switches the other four tools off (with
    /// their drawings). Returns whether the tool is now on (the caller then
    /// clears the OCR/QR results).
    pub fn toggle_mode(&mut self, m: DrawMode) -> (enabled: bool)
        ensures
            enabled == !old(self).mode_of(m),
            final(self).toggled_from(*old(self), m),
            old(self).at_most_one_mode() ==> final(self).at_most_one_mode(),
    {
        if self.mode_on(m) {
            self.switch_off(m);
            false
        } else {
            if m != DrawMode::Arrow {
                self.arrow_mode = false;
                self.arrow_drawing = None;
            }
            if m != DrawMode::Circle {
                self.circle_mode = false;
                self.circle_drawing = None;
            }
            if m != DrawMode::Rectangle {
                self.rect_outline_mode = false;
                self.rect_outline_drawing = None;
            }
            if m != DrawMode::Redact {
                self.redact_mode = false;
                self.redact_drawing = None;
            }
            if m != DrawMode::Pixelate {
                self.pixelate_mode = false;
                self.pixelate_drawing = None;
            }
            match m {
                DrawMode::Arrow => self.arrow_mode = true,
                DrawMode::Circle => self.circle_mode = true,
                DrawMode::Rectangle => self.rect_outline_mode = true,
                DrawMode::Redact => self.redact_mode = true,
                DrawMode::Pixelate => self.pixelate_mode = true,
            }
            assert forall|o: DrawMode| o != m implies !#[trigger] self.mode_of(o) && self.drawing_of(
                o,
            ) is None by {
                match o {
                    DrawMode::Arrow => {},
                    DrawMode::Circle => {},
                    DrawMode::Rectangle => {},
                    DrawMode::Redact => {},
                    DrawMode::Pixelate => {},
                }
            }
            true
        }
    }

    /// Whether drawing tool `m` is on.
    pub fn mode_on(&self, m: DrawMode) -> (b: bool)
        ensures
            b == self.mode_of(m),
    {
        match m {
            DrawMode::Arrow => self.arrow_mode,
            DrawMode::Circle => self.circle_mode,
            DrawMode::Rectangle => self.rect_outline_mode,
            DrawMode::Redact => self.redact_mode,
            DrawMode::Pixelate => self.pixelate_mode,
        }
    }

    /// Pressing the mouse with tool `m` starts a drawing at `p`, when the
    /// tool is on; otherwise nothing changes.
    pub fn start_drawing(&mut self, m: DrawMode, p: P)
        ensures
            final(self).started_from(*old(self), m, p),
    {
        if self.mode_on(m) {
            match m {
                DrawMode::Arrow => self.arrow_drawing = Some(p),
                DrawMode::Circle => self.circle_drawing = Some(p),
                DrawMode::Rectangle => self.rect_outline_drawing = Some(p),
                DrawMode::Redact => self.redact_drawing = Some(p),
                DrawMode::Pixelate => self.pixelate_drawing = Some(p),
            }
        }
    }

    /// Releasing the mouse with tool `m` ends its drawing: hands back where it
    /// started (the caller builds the annotation from it and the release
    /// point, and adds it) and forgets it.
    pub fn finish_drawing(&mut self, m: DrawMode) -> (start: Option<P>)
        ensures
            start == old(self).drawing_of(m),
            final(self).drawing_of(m) is None,
            final(self).same_apart_from_modes(*old(self)),
            final(self).keeps_tool_modes(*old(self)),
            final(self).keeps_other_tools(*old(self), m),
    {
        match m {
            DrawMode::Arrow => self.arrow_drawing.take(),
            DrawMode::Circle => self.circle_drawing.take(),
            DrawMode::Rectangle => self.rect_outline_drawing.take(),
            DrawMode::Redact => self.redact_drawing.take(),
            DrawMode::Pixelate => self.pixelate_drawing.take(),
        }
    }
}

impl<T: Copy, P: Copy> AnnotationState<T, P> {
    /// Tool `o` has the mode and drawing it has in `prev`.
    pub open spec fn keeps_tool(self, prev: Self, o: DrawMode) -> bool {
        self.mode_of(o) == prev.mode_of(o) && self.drawing_of(o) == prev.drawing_of(o)
    }

    /// Every tool but `m` has the mode and drawing it has in `prev`.
    pub open spec fn keeps_other_tools(self, prev: Self, m: DrawMode) -> bool {
        &&& m == DrawMode::Arrow || self.keeps_tool(prev, DrawMode::Arrow)
        &&& m == DrawMode::Circle || self.keeps_tool(prev, DrawMode::Circle)
        &&& m == DrawMode::Rectangle || self.keeps_tool(prev, DrawMode::Rectangle)
        &&& m == DrawMode::Redact || self.keeps_tool(prev, DrawMode::Redact)
        &&& m == DrawMode::Pixelate || self.keeps_tool(prev, DrawMode::Pixelate)
    }

    /// Tool `o` is off, with no drawing in progress.
    pub open spec fn tool_off(self, o: DrawMode) -> bool {
        !self.mode_of(o) && self.drawing_of(o) is None
    }

    /// Every tool but `m` is off, with no drawing in progress.
    pub open spec fn other_tools_off(self, m: DrawMode) -> bool {
        &&& m == DrawMode::Arrow || self.tool_off(DrawMode::Arrow)
        &&& m == DrawMode::Circle || self.tool_off(DrawMode::Circle)
        &&& m == DrawMode::Rectangle || self.tool_off(DrawMode::Rectangle)
        &&& m == DrawMode::Redact || self.tool_off(DrawMode::Redact)
        &&& m == DrawMode::Pixelate || self.tool_off(DrawMode::Pixelate)
    }

    /// Every tool is on or off as in `prev`.
    pub open spec fn keeps_tool_modes(self, prev: Self) -> bool {
        &&& self.mode_of(DrawMode::Arrow) == prev.mode_of(DrawMode::Arrow)
        &&& self.mode_of(DrawMode::Circle) == prev.mode_of(DrawMode::Circle)
        &&& self.mode_of(DrawMode::Rectangle) == prev.mode_of(DrawMode::Rectangle)
        &&& self.mode_of(DrawMode::Redact) == prev.mode_of(DrawMode::Redact)
        &&& self.mode_of(DrawMode::Pixelate) == prev.mode_of(DrawMode::Pixelate)
    }

    /// Every per-kind array but that of kind `k` is as in `prev`.
    pub open spec fn keeps_other_payloads(self, prev: Self, k: AnnotationKind) -> bool {
        &&& k == AnnotationKind::Arrow || self.arrows@ == prev.arrows@
        &&& k == AnnotationKind::Circle || self.circles@ == prev.circles@
        &&& k == AnnotationKind::Rectangle || self.rect_outlines@ == prev.rect_outlines@
        &&& k == AnnotationKind::Magnifier || self.magnifiers@ == prev.magnifiers@
        &&& k == AnnotationKind::Redact || self.redactions@ == prev.redactions@
        &&& k == AnnotationKind::Pixelate || self.pixelations@ == prev.pixelations@
    }

    /// `self` is `prev` after toggling tool `m`: switching it off drops its
    /// drawing and leaves the other tools alone; switching it on keeps its
    /// drawing and switches the other tools off.
    pub open spec fn toggled_from(self, prev: Self, m: DrawMode) -> bool {
        &&& self.mode_of(m) == !prev.mode_of(m)
        &&& self.same_apart_from_modes(prev)
        &&& prev.mode_of(m) ==> self.drawing_of(m) is None && self.keeps_other_tools(prev, m)
        &&& !prev.mode_of(m) ==> self.drawing_of(m) == prev.drawing_of(m) && self.other_tools_off(m)
    }

    /// `self` is `prev` after pressing at `p` with tool `m`: the drawing
    /// starts at `p` when the tool is on.
    pub open spec fn started_from(self, prev: Self, m: DrawMode, p: P) -> bool {
        &&& self.same_apart_from_modes(prev)
        &&& self.keeps_tool_modes(prev)
        &&& self.keeps_other_tools(prev, m)
        &&& self.drawing_of(m) == if prev.mode_of(m) {
            Some(p)
        } else {
            prev.drawing_of(m)
        }
    }

    /// `self` is `prev` after tool `m` finished its drawing as the annotation
    /// `t`: it is added to the history (dropping the redo history) and to the
    /// array of its kind, and the drawing is forgotten.
    pub open spec fn drawn_from(self, prev: Self, m: DrawMode, t: T) -> bool {
        &&& self.annotations@ == entries_after_add(
            prev.annotations@,
            prev.annotation_index as int,
            HistoryEntry { kind: draw_kind(m), data: t },
        )
        &&& self.annotation_index == self.annotations@.len()
        &&& self.payloads(draw_kind(m)) == prev.payloads(draw_kind(m)).push(t)
        &&& self.keeps_other_payloads(prev, draw_kind(m))
        &&& self.selected_magnifier == prev.selected_magnifier
        &&& self.keeps_tool_modes(prev)
        &&& self.drawing_of(m) is None
        &&& self.keeps_other_tools(prev, m)
        &&& self.magnifier_mode == prev.magnifier_mode
        &&& self.magnifier_drawing == prev.magnifier_drawing
    }

    /// `self` is `prev` with its shapes cleared (see `clear_shapes`).
    pub open spec fn shapes_cleared_from(self, prev: Self) -> bool {
        &&& self.annotations@ == entries_of_class(prev.annotations@, true)
        &&& self.annotation_index == self.annotations@.len()
        &&& self.arrows@.len() == 0 && self.circles@.len() == 0
        &&& self.rect_outlines@.len() == 0 && self.magnifiers@.len() == 0
        &&& !self.arrow_mode && self.arrow_drawing is None
        &&& !self.circle_mode && self.circle_drawing is None
        &&& !self.rect_outline_mode && self.rect_outline_drawing is None
        &&& !self.magnifier_mode && self.magnifier_drawing is None
        &&& self.selected_magnifier is None
        &&& self.redactions == prev.redactions && self.pixelations == prev.pixelations
        &&& self.redact_mode == prev.redact_mode && self.redact_drawing == prev.redact_drawing
        &&& self.pixelate_mode == prev.pixelate_mode && self.pixelate_drawing == prev.pixelate_drawing
    }

    /// `self` is `prev` with its redactions cleared (see `clear_redactions`).
    pub open spec fn redactions_cleared_from(self, prev: Self) -> bool {
        &&& self.annotations@ == entries_of_class(prev.annotations@, false)
        &&& self.annotation_index == self.annotations@.len()
        &&& self.redactions@.len() == 0 && self.pixelations@.len() == 0
        &&& !self.redact_mode && self.redact_drawing is None
        &&& !self.pixelate_mode && self.pixelate_drawing is None
        &&& self.arrows == prev.arrows && self.circles == prev.circles
        &&& self.rect_outlines == prev.rect_outlines && self.magnifiers == prev.magnifiers
        &&& self.arrow_mode == prev.arrow_mode && self.arrow_drawing == prev.arrow_drawing
        &&& self.circle_mode == prev.circle_mode && self.circle_drawing == prev.circle_drawing
        &&& self.rect_outline_mode == prev.rect_outline_mode && self.rect_outline_drawing
            == prev.rect_outline_drawing
        &&& self.magnifier_mode == prev.magnifier_mode && self.magnifier_drawing
            == prev.magnifier_drawing
        &&& self.selected_magnifier == prev.selected_magnifier
    }

    /// `self` is `prev` after an undo (see `undo`).
    pub open spec fn undone_from(self, prev: Self) -> bool {
        &&& self.annotations == prev.annotations
        &&& self.annotation_index == index_after_undo(prev.annotation_index as int)
        &&& prev.annotation_index > 0 ==> self.arrays_in_sync()
        &&& prev.annotation_index == 0 ==> self == prev
        &&& self.selected_magnifier is Some ==> self.selected_magnifier == prev.selected_magnifier
        &&& self.same_modes(prev)
    }

    /// `self` is `prev` after a redo (see `redo`).
    pub open spec fn redone_from(self, prev: Self) -> bool {
        &&& self.annotations == prev.annotations
        &&& self.annotation_index == index_after_redo(
            prev.annotation_index as int,
            prev.annotations@.len() as int,
        )
        &&& prev.annotation_index < prev.annotations@.len() ==> self.arrays_in_sync()
        &&& prev.annotation_index >= prev.annotations@.len() ==> self == prev
        &&& self.selected_magnifier is Some ==> self.selected_magnifier == prev.selected_magnifier
        &&& self.same_modes(prev)
    }

    /// Append `t` to the array of the kind that tool `m` draws.
    fn push_payload(&mut self, m: DrawMode, t: T)
        ensures
            final(self).payloads(draw_kind(m)) == old(self).payloads(draw_kind(m)).push(t),
            final(self).keeps_other_payloads(*old(self), draw_kind(m)),
            final(self).annotations == old(self).annotations,
            final(self).annotation_index == old(self).annotation_index,
            final(self).selected_magnifier == old(self).selected_magnifier,
            final(self).same_modes(*old(self)),
    {
        match m {
            DrawMode::Arrow => self.arrows.push(t),
            DrawMode::Circle => self.circles.push(t),
            DrawMode::Rectangle => self.rect_outlines.push(t),
            DrawMode::Redact => self.redactions.push(t),
            DrawMode::Pixelate => self.pixelations.push(t),
        }
    }
}

/// The payloads of kind `k` after `e` is appended to `s`.
proof fn lemma_payloads_push<T>(s: Seq<HistoryEntry<T>>, e: HistoryEntry<T>, k: AnnotationKind)
    ensures
        payloads_of_kind(s.push(e), k) == if e.kind == k {
            payloads_of_kind(s, k).push(e.data)
        } else {
            payloads_of_kind(s, k)
        },
{
    assert(s.push(e).drop_last() =~= s);
}

/// Apply a drawing message to the annotation state. A tool's toggle switches
/// it on or off (see `toggle_mode`); a press starts a drawing when the tool is
/// on; a release finishes the drawing in progress, if any: `build` makes the
/// annotation from the tool, the start point and the release point, which is
/// appended to the array of its kind and added to the history. The history
/// messages clear shapes or redactions, undo or redo. Returns whether a tool
/// was switched on, after which the caller clears the OCR and QR results.
pub fn handle_draw_msg<T: Copy, P: Copy, F: Fn(DrawMode, P, P) -> T>(
    state: &mut AnnotationState<T, P>,
    msg: DrawMsg<P>,
    build: F,
) -> (clear_detection: bool)
    requires
        old(state).annotations@.len() < usize::MAX,
        forall|m: DrawMode, a: P, b: P| #[trigger] build.requires((m, a, b)),
    ensures
        clear_detection == switches_tool_on(*old(state), msg),
        tool_action(msg) matches Some((m, a)) ==> match a {
            DrawAction::ModeToggle => final(state).toggled_from(*old(state), m),
            DrawAction::Start(p) => final(state).started_from(*old(state), m, p),
            DrawAction::End(p) => match old(state).drawing_of(m) {
                Some(start) => exists|t: T|
                    build.ensures((m, start, p), t) && #[trigger] final(state).drawn_from(
                        *old(state),
                        m,
                        t,
                    ),
                None => *final(state) == *old(state),
            },
        },
        msg is ClearShapes ==> final(state).shapes_cleared_from(*old(state)),
        msg is ClearRedactions ==> final(state).redactions_cleared_from(*old(state)),
        msg is Undo ==> final(state).undone_from(*old(state)),
        msg is Redo ==> final(state).redone_from(*old(state)),
        old(state).arrays_in_sync() && !(msg is ClearShapes) && !(msg is ClearRedactions)
            ==> final(state).arrays_in_sync(),
{
    let (m, action) = match msg {
        DrawMsg::Arrow(a) => (DrawMode::Arrow, a),
        DrawMsg::Circle(a) => (DrawMode::Circle, a),
        DrawMsg::Rectangle(a) => (DrawMode::Rectangle, a),
        DrawMsg::Redact(a) => (DrawMode::Redact, a),
        DrawMsg::Pixelate(a) => (DrawMode::Pixelate, a),
        DrawMsg::ClearShapes => {
            state.clear_shapes();
            return false;
        },
        DrawMsg::ClearRedactions => {
            state.clear_redactions();
            return false;
        },
        DrawMsg::Undo => {
            state.undo();
            return false;
        },
        DrawMsg::Redo => {
            state.redo();
            return false;
        },
    };
    match action {
        DrawAction::ModeToggle => state.toggle_mode(m),
        DrawAction::Start(p) => {
            state.start_drawing(m, p);
            false
        },
        DrawAction::End(p) => {
            let ghost before = *state;
            match state.finish_drawing(m) {
                Some(start) => {
                    let t = build(m, start, p);
                    state.push_payload(m, t);
                    let e = HistoryEntry { kind: m.kind(), data: t };
                    state.add(e);
                    proof {
                        assert(state.keeps_other_payloads(before, draw_kind(m)));
                        assert(state.keeps_tool_modes(before));
                        assert(state.keeps_other_tools(before, m));
                        let vis = visible_of(before.annotations@, before.annotation_index as int);
                        assert(state.annotations@.take(state.annotations@.len() as int)
                            =~= state.annotations@);
                        if before.arrays_in_sync() {
                            assert(state.visible() == vis.push(e));
                            assert forall|k: AnnotationKind| #[trigger] state.payloads(k)
                                == payloads_of_kind(state.visible(), k) by {
                                lemma_payloads_push(vis, e, k);
                                assert(before.payloads(k) == payloads_of_kind(vis, k)) by {
                                    match k {
                                        AnnotationKind::Arrow => {},
                                        AnnotationKind::Circle => {},
                                        AnnotationKind::Rectangle => {},
                                        AnnotationKind::Magnifier => {},
                                        AnnotationKind::Redact => {},
                                        AnnotationKind::Pixelate => {},
                                    }
                                }
                            }
                            assert(state.payloads(AnnotationKind::Arrow) == payloads_of_kind(state.visible(), AnnotationKind::Arrow));
                            assert(state.payloads(AnnotationKind::Circle) == payloads_of_kind(state.visible(), AnnotationKind::Circle));
                            assert(state.payloads(AnnotationKind::Rectangle) == payloads_of_kind(state.visible(), AnnotationKind::Rectangle));
                            assert(state.payloads(AnnotationKind::Magnifier) == payloads_of_kind(state.visible(), AnnotationKind::Magnifier));
                            assert(state.payloads(AnnotationKind::Redact) == payloads_of_kind(state.visible(), AnnotationKind::Redact));
                            assert(state.payloads(AnnotationKind::Pixelate) == payloads_of_kind(state.visible(), AnnotationKind::Pixelate));
                        }
                        assert(state.drawn_from(before, m, t));
                        assert(before == *old(state));
                    }
                },
                None => {
                    proof {
                        assert(state.drawing_of(m) == before.drawing_of(m));
                        assert(*state == before);
                    }
                },
            }
            false
        },
    }
}

} // verus!
