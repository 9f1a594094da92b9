//! Structured diagnostics.  Every fallible operation of the generator
//! returns one of these records; the kind pins down which rule was
//! broken, the message carries the prose, and the note spans point at
//! related places.
use vstd::prelude::*;

verus! {

use crate::{SourceId, Span};

/// The error taxonomy of the generator.
#[derive(Clone, Copy, PartialEq, Eq, Structural, Debug)]
pub enum DiagKind {
    /// A conversion rule with no content at all.
    EmptyRule,
    /// A rule names a configuration option that is not recognised.
    UnknownOption,
    /// A foreign type with this name is already registered.
    DuplicateForeignType,
    /// A native type already has a foreign image under another name.
    ForeignTypeNameConflict,
    /// A rule's intermediate type itself needs an intermediate.
    TransitiveIntermediate,
    /// A foreign type has no rule for the requested direction.
    NoConversionRule,
    /// A native type has no foreign image in the requested direction.
    NoForeignImage,
    /// A class marked for shared-pointer copying whose storage type is
    /// not a recognised shared-ownership wrapper.
    SmartPtrCopyWrongType,
    /// A class marked for shared-pointer copying that declares its own
    /// `clone` method.
    SmartPtrCopyHasClone,
    /// A piece of text that had to be a Rust identifier is not one.
    InvalidIdent,
    /// A piece of text that had to be a Rust type does not parse.
    InvalidTypeText,
    /// Emitted glue that does not parse as a Rust item.
    GlueParse,
    /// A class whose shape fails validation.
    InvalidClass,
    /// The configured output directory does not exist.
    MissingOutputDir,
    /// An interface item handed to a generator that does not support
    /// interfaces.
    InterfaceNotSupported,
}

/// A note attached to a diagnostic, pointing at a related place.
#[derive(Clone, Debug)]
pub struct DiagNote {
    pub src_id: SourceId,
    pub span: Span,
    pub message: String,
}

/// A structured diagnostic: where, what kind of failure, and prose.
#[derive(Clone, Debug)]
pub struct Diagnostic {
    pub src_id: SourceId,
    pub span: Span,
    pub kind: DiagKind,
    pub message: String,
    pub notes: Vec<DiagNote>,
}

impl Diagnostic {
    /// A diagnostic with no notes.
    pub fn new(src_id: SourceId, span: Span, kind: DiagKind, message: String) -> (r: Diagnostic)
        ensures
            r.src_id == src_id,
            r.span == span,
            r.kind == kind,
            r.message@ == message@,
            r.notes@.len() == 0,
    {
        Diagnostic { src_id, span, kind, message, notes: Vec::new() }
    }

    /// The same diagnostic with one more note attached.
    pub fn add_note(self, src_id: SourceId, span: Span, message: String) -> (r: Diagnostic)
        ensures
            r.src_id == self.src_id,
            r.span == self.span,
            r.kind == self.kind,
            r.message@ == self.message@,
            r.notes@.len() == self.notes@.len() + 1,
    {
        let mut d = self;
        d.notes.push(DiagNote { src_id, span, message });
        d
    }
}

} // verus!
