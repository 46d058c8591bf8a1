use crate::types::TypeExpr;
use vstd::prelude::*;

verus! {

/// The kind of a declaration node. Kinds the translator does not handle fall under `Other`.
#[derive(Clone, Copy, Debug, PartialEq, Eq, Structural)]
pub enum DeclKind {
    InterfaceDecl,
    ProtocolDecl,
    RecordDecl,
    InstanceMethod,
    ClassMethod,
    Property,
    Other,
}

/// A formal parameter of a method, with what the AST could resolve of it.
pub struct Param {
    pub name: Option<String>,
    pub ty: Option<TypeExpr>,
}

/// A declaration node. `children` keeps source order; `arguments` and
/// `result_type` are meaningful for methods.
pub struct Decl {
    pub kind: DeclKind,
    pub name: Option<String>,
    pub children: Vec<Decl>,
    pub arguments: Option<Vec<Param>>,
    pub result_type: Option<TypeExpr>,
}

/// Instance and class methods are the members that get a binding.
pub open spec fn is_method(k: DeclKind) -> bool {
    k is InstanceMethod || k is ClassMethod
}

} // verus!
