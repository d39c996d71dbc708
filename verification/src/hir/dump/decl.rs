//! The dumper's dispatch over declarations.
use vstd::prelude::*;
use crate::hir::decl::HirDecl;
use crate::hir::dump::Dumper;
use crate::hir::dump::expr::{dump_class, dump_enum, dump_function_inner, dump_global, dump_interface, dump_namespace, dump_type_alias};
use crate::hir::dump::render::decl_text;
use crate::hir::view::DeclV;

verus! {

/// Writes one declaration at the current indentation.
pub fn dump_decl(decl: &HirDecl, d: &mut Dumper)
    ensures
        final(d).pad@ == old(d).pad@,
        final(d).buf@ == old(d).buf@ + decl_text(decl@, old(d).pad@),
    decreases decl, 0nat,
{
    match decl {
        HirDecl::Function(f) => {
            proof {
                assert(decl@ == DeclV::Function(f@));
            }
            let prefix = if f.is_async { "async fn" } else { "fn" };
            dump_function_inner(f, prefix, d);
        },
        HirDecl::Class(c) => {
            proof {
                assert(decl@ == DeclV::Class(c@));
            }
            dump_class(c, d);
        },
        HirDecl::TypeAlias { name, target } => dump_type_alias(name, *target, d),
        HirDecl::Enum { name, variants } => dump_enum(name, variants, d),
        HirDecl::Global { name, ty, init } => dump_global(name, *ty, init, d),
        HirDecl::Interface { name } => dump_interface(name, d),
        HirDecl::Namespace { name, members } => dump_namespace(name, members, d),
    }
}

} // verus!
