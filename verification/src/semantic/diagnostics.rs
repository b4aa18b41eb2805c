//! Diagnostics of the constant calculation.
use vstd::prelude::*;

use crate::semantic::ids::{DiagnosticAdded, SyntaxStablePtrId, TypeId};

verus! {

/// Why a value cannot be a literal of a type.
#[derive(Debug)]
pub enum LiteralError {
    /// The type cannot hold the value.
    OutOfRange(TypeId),
    /// The type has no literals.
    InvalidTypeForLiteral(TypeId),
}

/// A remark that goes with a diagnostic.
#[derive(Debug)]
pub struct DiagnosticNote {
    pub text: String,
    pub location: SyntaxStablePtrId,
}

/// A diagnostic of the constant calculation, and the place that it is about.
#[derive(Debug)]
pub struct SemanticDiagnostic {
    pub stable_ptr: SyntaxStablePtrId,
    pub kind: SemanticDiagnosticKind,
}

#[derive(Debug)]
pub enum SemanticDiagnosticKind {
    /// The expression cannot be part of a constant.
    UnsupportedConstant,
    /// The value does not fit its type.
    LiteralError(LiteralError),
    /// The constant depends on itself.
    ConstCycle,
    /// The calculation panicked.
    FailedConstantCalculation,
    DivisionByZero,
    /// The calls of the calculation are nested too deeply.
    ConstantCalculationDepthExceeded,
    /// A diagnostic of the body of a called function, and the calls that led there.
    InnerFailedConstantCalculation(Box<SemanticDiagnostic>, Vec<DiagnosticNote>),
    /// A diagnostic of the inference, by its number.
    Inference(u64),
}

#[verifier::ext_equal]
pub struct NoteView {
    pub text: Seq<char>,
    pub location: SyntaxStablePtrId,
}

#[verifier::ext_equal]
pub struct DiagnosticView {
    pub stable_ptr: SyntaxStablePtrId,
    pub kind: KindView,
}

#[verifier::ext_equal]
pub enum KindView {
    UnsupportedConstant,
    LiteralError(LiteralError),
    ConstCycle,
    FailedConstantCalculation,
    DivisionByZero,
    ConstantCalculationDepthExceeded,
    InnerFailedConstantCalculation(Box<DiagnosticView>, Seq<NoteView>),
    Inference(u64),
}

impl View for DiagnosticNote {
    type V = NoteView;

    open spec fn view(&self) -> NoteView {
        NoteView { text: self.text@, location: self.location }
    }
}

pub open spec fn diagnostic_view(diagnostic: SemanticDiagnostic) -> DiagnosticView
    decreases diagnostic,
{
    DiagnosticView { stable_ptr: diagnostic.stable_ptr, kind: kind_view(diagnostic.kind) }
}

pub open spec fn kind_view(kind: SemanticDiagnosticKind) -> KindView
    decreases kind,
{
    match kind {
        SemanticDiagnosticKind::UnsupportedConstant => KindView::UnsupportedConstant,
        SemanticDiagnosticKind::LiteralError(err) => KindView::LiteralError(err),
        SemanticDiagnosticKind::ConstCycle => KindView::ConstCycle,
        SemanticDiagnosticKind::FailedConstantCalculation => KindView::FailedConstantCalculation,
        SemanticDiagnosticKind::DivisionByZero => KindView::DivisionByZero,
        SemanticDiagnosticKind::ConstantCalculationDepthExceeded =>
            KindView::ConstantCalculationDepthExceeded,
        SemanticDiagnosticKind::InnerFailedConstantCalculation(inner, notes) =>
            KindView::InnerFailedConstantCalculation(
            Box::new(diagnostic_view(*inner)),
            note_views(notes@),
        ),
        SemanticDiagnosticKind::Inference(number) => KindView::Inference(number),
    }
}

pub open spec fn note_views(notes: Seq<DiagnosticNote>) -> Seq<NoteView> {
    notes.map_values(|note: DiagnosticNote| note@)
}

impl View for SemanticDiagnosticKind {
    type V = KindView;

    open spec fn view(&self) -> KindView {
        kind_view(*self)
    }
}

impl View for SemanticDiagnostic {
    type V = DiagnosticView;

    open spec fn view(&self) -> DiagnosticView {
        diagnostic_view(*self)
    }
}

impl Clone for LiteralError {
    fn clone(&self) -> (r: Self)
        ensures
            r == *self,
    {
        match self {
            LiteralError::OutOfRange(ty) => LiteralError::OutOfRange(ty.clone()),
            LiteralError::InvalidTypeForLiteral(ty) => LiteralError::InvalidTypeForLiteral(
                ty.clone(),
            ),
        }
    }
}

impl Clone for DiagnosticNote {
    fn clone(&self) -> (r: Self)
        ensures
            r@ == self@,
    {
        DiagnosticNote { text: self.text.clone(), location: self.location }
    }
}

impl Clone for SemanticDiagnostic {
    fn clone(&self) -> (r: Self)
        ensures
            r@ == self@,
        decreases *self,
    {
        SemanticDiagnostic { stable_ptr: self.stable_ptr, kind: (&self.kind).clone() }
    }
}

impl Clone for SemanticDiagnosticKind {
    fn clone(&self) -> (r: Self)
        ensures
            r@ == self@,
        decreases *self,
    {
        match self {
            SemanticDiagnosticKind::UnsupportedConstant =>
                SemanticDiagnosticKind::UnsupportedConstant,
            SemanticDiagnosticKind::LiteralError(err) => SemanticDiagnosticKind::LiteralError(
                err.clone(),
            ),
            SemanticDiagnosticKind::ConstCycle => SemanticDiagnosticKind::ConstCycle,
            SemanticDiagnosticKind::FailedConstantCalculation =>
                SemanticDiagnosticKind::FailedConstantCalculation,
            SemanticDiagnosticKind::DivisionByZero => SemanticDiagnosticKind::DivisionByZero,
            SemanticDiagnosticKind::ConstantCalculationDepthExceeded =>
                SemanticDiagnosticKind::ConstantCalculationDepthExceeded,
            SemanticDiagnosticKind::InnerFailedConstantCalculation(inner, notes) => {
                let mut copies: Vec<DiagnosticNote> = Vec::new();
                let mut i: usize = 0;
                while i < notes.len()
                    invariant
                        i <= notes@.len(),
                        copies@.len() == i,
                        forall|j: int| 0 <= j < i ==> (#[trigger] copies@[j])@ == notes@[j]@,
                    decreases notes@.len() - i,
                {
                    copies.push(notes[i].clone());
                    i += 1;
                }
                assert(note_views(copies@) =~= note_views(notes@));
                SemanticDiagnosticKind::InnerFailedConstantCalculation(
                    Box::new((&**inner).clone()),
                    copies,
                )
            },
            SemanticDiagnosticKind::Inference(number) => SemanticDiagnosticKind::Inference(*number),
        }
    }
}

/// The views of a list of diagnostics.
pub open spec fn diagnostic_views(entries: Seq<SemanticDiagnostic>) -> Seq<DiagnosticView> {
    entries.map_values(|entry: SemanticDiagnostic| entry@)
}

/// The errors that were reported, in their order.
#[derive(Debug)]
pub struct SemanticDiagnostics {
    entries: Vec<SemanticDiagnostic>,
}

impl View for SemanticDiagnostics {
    type V = Seq<DiagnosticView>;

    closed spec fn view(&self) -> Seq<DiagnosticView> {
        diagnostic_views(self.entries@)
    }
}

impl SemanticDiagnostics {
    pub fn new() -> (r: Self)
        ensures
            r@ == Seq::<DiagnosticView>::empty(),
    {
        let r = SemanticDiagnostics { entries: Vec::new() };
        assert(r@ =~= Seq::empty());
        r
    }

    /// Adds an error.
    pub fn report(
        &mut self,
        stable_ptr: SyntaxStablePtrId,
        kind: SemanticDiagnosticKind,
    ) -> (r: DiagnosticAdded)
        ensures
            final(self)@ == old(self)@.push(DiagnosticView { stable_ptr, kind: kind@ }),
    {
        self.entries.push(SemanticDiagnostic { stable_ptr, kind });
        assert(self@ =~= old(self)@.push(DiagnosticView { stable_ptr, kind: kind@ }));
        DiagnosticAdded {  }
    }

    /// Adds the errors of a list, in their order.
    pub fn extend(&mut self, entries: Vec<SemanticDiagnostic>)
        ensures
            final(self)@ == old(self)@ + diagnostic_views(entries@),
    {
        let mut added = entries;
        self.entries.append(&mut added);
        assert(self@ =~= old(self)@ + diagnostic_views(entries@));
    }

    /// The number of errors.
    pub fn error_count(&self) -> (r: usize)
        ensures
            r == self@.len(),
    {
        self.entries.len()
    }

    /// The errors, in their order.
    pub fn into_entries(self) -> (r: Vec<SemanticDiagnostic>)
        ensures
            diagnostic_views(r@) == self@,
    {
        self.entries
    }
}

/// Each kind of diagnostic is seen as itself, with all that it says.
pub proof fn diagnostics_are_seen_as_they_are(diagnostic: SemanticDiagnostic)
    ensures
        diagnostic@.stable_ptr == diagnostic.stable_ptr,
        match diagnostic.kind {
            SemanticDiagnosticKind::UnsupportedConstant => diagnostic@.kind is UnsupportedConstant,
            SemanticDiagnosticKind::LiteralError(err) => diagnostic@.kind == KindView::LiteralError(
                err,
            ),
            SemanticDiagnosticKind::ConstCycle => diagnostic@.kind is ConstCycle,
            SemanticDiagnosticKind::FailedConstantCalculation => diagnostic@.kind
                is FailedConstantCalculation,
            SemanticDiagnosticKind::DivisionByZero => diagnostic@.kind is DivisionByZero,
            SemanticDiagnosticKind::ConstantCalculationDepthExceeded => diagnostic@.kind
                is ConstantCalculationDepthExceeded,
            SemanticDiagnosticKind::InnerFailedConstantCalculation(inner, notes) => {
                &&& diagnostic@.kind matches KindView::InnerFailedConstantCalculation(origin, all)
                &&& *origin == inner@
                &&& all.len() == notes@.len()
                &&& forall|i: int|
                    0 <= i < notes@.len() ==> (#[trigger] all[i]).text == notes@[i].text@
                        && all[i].location == notes@[i].location
            },
            SemanticDiagnosticKind::Inference(number) => diagnostic@.kind == KindView::Inference(
                number,
            ),
        },
{
    reveal_with_fuel(diagnostic_view, 2);
    reveal_with_fuel(kind_view, 2);
}

} // verus!
