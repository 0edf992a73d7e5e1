//! The documentation model: the typed tree of documentable entities and
//! their prose, produced upstream and consumed read-only by the renderer.

use vstd::prelude::*;

verus! {

/// Prose attached to a documented entity: a summary, plus optional details.
pub struct ProseBlock {
    pub summary: String,
    pub details: Option<String>,
}

/// How a parameter is passed at a call site.
pub enum ParamKind {
    Positional,
    PositionalOrKeyword,
    Keyword,
    /// A `*args`-style variadic parameter.
    Args,
    /// A `**kwargs`-style variadic parameter.
    Kwargs,
}

/// An already-resolved type value: its canonical display text, and whether
/// it is the unconstrained ("any") type, which is omitted from signatures.
pub struct TypeRef {
    pub text: String,
    pub unconstrained: bool,
}

/// One parameter of a documented function.
pub struct Param {
    pub name: String,
    pub kind: ParamKind,
    pub docs: Option<ProseBlock>,
    pub typ: TypeRef,
}

/// The return type of a documented function, with its prose.
pub struct ReturnSpec {
    pub typ: TypeRef,
    pub docs: Option<ProseBlock>,
}

/// A documented function: parameters in call-signature order, return spec,
/// and its own prose.
pub struct FunctionDoc {
    pub params: Vec<Param>,
    pub ret: ReturnSpec,
    pub docs: Option<ProseBlock>,
}

/// A documented property: a typed value with optional prose.
pub struct PropertyDoc {
    pub typ: TypeRef,
    pub docs: Option<ProseBlock>,
}

/// A member of a container: either a function or a property.
pub enum Member {
    Function(FunctionDoc),
    Property(PropertyDoc),
}

/// A composite type: optional prose, an optional constructor, and named
/// members. Member names are unique within one composite type.
pub struct CompositeTypeDoc {
    pub docs: Option<ProseBlock>,
    pub constructor: Option<FunctionDoc>,
    pub members: Vec<(String, Member)>,
}

/// A member of a module: a plain member, or a nested composite type.
pub enum ModuleMember {
    Member(Member),
    Type(CompositeTypeDoc),
}

/// A documented module: optional prose and named members.
pub struct ModuleDoc {
    pub docs: Option<ProseBlock>,
    pub members: Vec<(String, ModuleMember)>,
}

/// Any top-level documentable entity.
pub enum DocItem {
    Module(ModuleDoc),
    Type(CompositeTypeDoc),
    Member(Member),
}

} // verus!
