//! The declarative input records: foreign classes with their methods,
//! foreign enumerations, and the items a generation run expands.
use vstd::prelude::*;

verus! {

use crate::{SourceId, Span};

/// What kind of method a declaration is.
#[derive(Clone, Copy, PartialEq, Eq, Structural, Debug)]
pub enum MethodVariant {
    Constructor,
    StaticMethod,
    Method,
}

/// Declared access of a method.
#[derive(Clone, Copy, PartialEq, Eq, Structural, Debug)]
pub enum MethodAccess {
    Public,
    Protected,
    Private,
}

/// One declared method of a foreign class.
#[derive(Clone)]
pub struct ForeignMethod {
    pub variant: MethodVariant,
    pub access: MethodAccess,
    /// The short name as the author wrote it.
    pub name: String,
    /// The name of the underlying native function.
    pub rust_name: String,
    /// The full call text used in the glue body.
    pub rust_call: String,
    pub arg_names: Vec<String>,
    /// Canonical native type text of each argument, the receiver
    /// included for instance methods.
    pub arg_types: Vec<String>,
    /// Canonical native type text of the return value; `None` is unit.
    pub ret_type: Option<String>,
    pub doc_comments: Vec<String>,
}

impl ForeignMethod {
    /// A placeholder constructor carrying no native function at all.
    pub open spec fn spec_is_dummy_constructor(self) -> bool {
        self.variant == MethodVariant::Constructor && self.rust_name@.len() == 0
    }

    /// Whether this is a placeholder constructor.
    pub fn is_dummy_constructor(&self) -> (r: bool)
        ensures
            r == self.spec_is_dummy_constructor(),
    {
        match self.variant {
            MethodVariant::Constructor => self.rust_name.as_str().unicode_len() == 0,
            _ => false,
        }
    }

    /// The short name.
    pub fn short_name(&self) -> (r: &str)
        ensures
            r@ == self.name@,
    {
        self.name.as_str()
    }
}

/// How instances of a class are stored and returned by constructors.
#[derive(Clone)]
pub struct SelfTypeDesc {
    /// Canonical text of the bare self type.
    pub self_type: String,
    /// Canonical text of the constructor return (storage) type.
    pub constructor_ret_type: String,
}

/// A declared foreign class.
#[derive(Clone)]
pub struct ForeignClassInfo {
    pub name: String,
    pub src_id: SourceId,
    pub span: Span,
    pub doc_comments: Vec<String>,
    pub methods: Vec<ForeignMethod>,
    pub self_desc: Option<SelfTypeDesc>,
    pub clone_derived: bool,
    pub copy_derived: bool,
    pub smart_ptr_copy_derived: bool,
}

impl ForeignClassInfo {
    /// A class without storage cannot declare constructors.
    pub open spec fn spec_valid_class(self) -> bool {
        self.self_desc is None ==> forall|m: int|
            0 <= m < self.methods@.len() ==> (#[trigger] self.methods@[m]).variant
                != MethodVariant::Constructor
    }

    /// Checks the class shape: a class without a storage description
    /// must not declare a constructor.
    pub fn validate_class(&self) -> (r: bool)
        ensures
            r == self.spec_valid_class(),
    {
        match &self.self_desc {
            Some(_) => true,
            None => {
                let mut m: usize = 0;
                while m < self.methods.len()
                    invariant
                        self.self_desc is None,
                        m <= self.methods@.len(),
                        forall|k: int|
                            0 <= k < m ==> (#[trigger] self.methods@[k]).variant
                                != MethodVariant::Constructor,
                    decreases self.methods@.len() - m,
                {
                    if matches!(self.methods[m].variant, MethodVariant::Constructor) {
                        proof {
                            assert(self.self_desc is None);
                            assert(self.methods@[m as int].variant == MethodVariant::Constructor);
                            assert(!self.spec_valid_class());
                        }
                        return false;
                    }
                    m += 1;
                }
                true
            },
        }
    }

    /// The canonical text of the bare self type: the storage
    /// description's self type, or the class name for a static class.
    pub fn self_type_as_ty(&self) -> (r: &str)
        ensures
            match self.self_desc {
                Some(sd) => r@ == sd.self_type@,
                None => r@ == self.name@,
            },
    {
        match &self.self_desc {
            Some(sd) => sd.self_type.as_str(),
            None => self.name.as_str(),
        }
    }

    /// Whether a non-constructor method with this native name exists.
    pub open spec fn spec_has_method_named(self, name: Seq<char>) -> bool {
        exists|m: int|
            0 <= m < self.methods@.len() && (#[trigger] self.methods@[m]).variant
                != MethodVariant::Constructor && self.methods@[m].rust_name@ == name
    }

    /// Looks for a non-constructor method whose native name reads
    /// `name`.
    pub fn has_method_named(&self, name: &str) -> (r: bool)
        ensures
            r == self.spec_has_method_named(name@),
    {
        let mut m: usize = 0;
        while m < self.methods.len()
            invariant
                m <= self.methods@.len(),
                forall|k: int|
                    0 <= k < m ==> !((#[trigger] self.methods@[k]).variant
                        != MethodVariant::Constructor && self.methods@[k].rust_name@ == name@),
            decreases self.methods@.len() - m,
        {
            let mm = &self.methods[m];
            let non_ctor = !matches!(mm.variant, MethodVariant::Constructor);
            if non_ctor && crate::text::str_eq(mm.rust_name.as_str(), name) {
                return true;
            }
            m += 1;
        }
        false
    }
}

/// One variant of a declared foreign enumeration.
#[derive(Clone)]
pub struct EnumItem {
    pub name: String,
    pub rust_name: String,
    pub doc_comments: Vec<String>,
}

/// A declared foreign enumeration.
#[derive(Clone)]
pub struct ForeignEnumInfo {
    pub name: String,
    pub src_id: SourceId,
    pub span: Span,
    pub items: Vec<EnumItem>,
    pub doc_comments: Vec<String>,
}

/// A declared callback interface.
#[derive(Clone)]
pub struct ForeignInterface {
    pub name: String,
    pub src_id: SourceId,
    pub span: Span,
    pub doc_comments: Vec<String>,
    pub methods: Vec<ForeignMethod>,
}

/// One input item of a generation run.
pub enum ItemToExpand {
    Class(ForeignClassInfo),
    Enum(ForeignEnumInfo),
    Interface(ForeignInterface),
}

} // verus!
