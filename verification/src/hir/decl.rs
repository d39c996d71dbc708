//! HIR declarations.
use vstd::prelude::*;
use crate::base::{GenericParamId, TypeId};
use crate::hir::expr::HirExpr;
use crate::hir::stmt::HirStmt;

verus! {

#[derive(Debug, PartialEq, Eq, Hash)]
pub struct HirParam {
    pub name: String,
    pub ty: TypeId,
}

#[derive(Debug, PartialEq, Eq, Hash)]
pub struct HirField {
    pub name: String,
    pub ty: TypeId,
}

#[derive(Debug, PartialEq, Eq, Hash)]
pub struct HirEnumVariant {
    pub name: String,
    pub value: Option<HirExpr>,
}

#[derive(Debug, PartialEq, Eq, Hash)]
pub struct HirFunction {
    pub name: String,
    pub params: Vec<HirParam>,
    pub ret: TypeId,
    pub throws: Option<TypeId>,
    pub body: Vec<HirStmt>,
    pub is_async: bool,
    pub is_generator: bool,
    pub is_exported: bool,
    pub type_params: Vec<GenericParamId>,
}

#[derive(Debug, PartialEq, Eq, Hash)]
pub struct HirClass {
    pub name: String,
    pub ty: TypeId,
    pub fields: Vec<HirField>,
    pub methods: Vec<HirFunction>,
    pub extends: Option<String>,
    pub type_params: Vec<GenericParamId>,
}

#[derive(Debug, PartialEq, Eq, Hash)]
pub enum HirDecl {
    Function(HirFunction),
    Class(HirClass),
    TypeAlias { name: String, target: TypeId },
    Enum { name: String, variants: Vec<HirEnumVariant> },
    Global { name: String, ty: TypeId, init: Option<HirExpr> },
    Interface { name: String },
    Namespace { name: String, members: Vec<HirDecl> },
}

} // verus!
