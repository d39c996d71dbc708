//! How the builder's state may change while a module is lowered.
use vstd::prelude::*;
use crate::frontend::lower::SkeletonBuilder;

verus! {

/// What lowering keeps between any two moments: the type table and the
/// diagnostics and declarations made so far are only extended, and the
/// stack of enclosing function kinds is as it was.
pub open spec fn grew(a: SkeletonBuilder, b: SkeletonBuilder) -> bool {
    &&& a.types@.is_prefix_of(b.types@)
    &&& a.diagnostics@.is_prefix_of(b.diagnostics@)
    &&& a.program.declarations@.is_prefix_of(b.program.declarations@)
    &&& b.is_generator_stack@ == a.is_generator_stack@
    &&& b.program.module == a.program.module
}

pub broadcast proof fn lemma_grew_trans(a: SkeletonBuilder, b: SkeletonBuilder, c: SkeletonBuilder)
    requires
        grew(a, b),
        grew(b, c),
    ensures
        #![trigger grew(a, b), grew(b, c)]
        grew(a, c),
{
    assert forall|i: int| 0 <= i < a.types@.len() implies a.types@[i] == c.types@[i] by {
        assert(a.types@[i] == b.types@[i]);
    }
    assert forall|i: int| 0 <= i < a.diagnostics@.len() implies a.diagnostics@[i] == c.diagnostics@[i] by {
        assert(a.diagnostics@[i] == b.diagnostics@[i]);
    }
    assert forall|i: int| 0 <= i < a.program.declarations@.len() implies a.program.declarations@[i]
        == c.program.declarations@[i] by {
        assert(a.program.declarations@[i] == b.program.declarations@[i]);
    }
}

pub proof fn lemma_grew_same_decls(a: SkeletonBuilder, b: SkeletonBuilder)
    requires
        a.types@.is_prefix_of(b.types@),
        a.diagnostics@.is_prefix_of(b.diagnostics@),
        a.program.declarations@ == b.program.declarations@,
        a.is_generator_stack@ == b.is_generator_stack@,
        a.program.module == b.program.module,
    ensures
        grew(a, b),
{
    assert(a.program.declarations@.is_prefix_of(b.program.declarations@)) by {
        assert(b.program.declarations@.subrange(0, a.program.declarations@.len() as int) =~= a.program.declarations@);
    }
}

pub proof fn lemma_grew_same(a: SkeletonBuilder, b: SkeletonBuilder)
    requires
        a.types@ == b.types@,
        a.diagnostics@.is_prefix_of(b.diagnostics@),
        a.program.declarations@ == b.program.declarations@,
        a.is_generator_stack@ == b.is_generator_stack@,
        a.program.module == b.program.module,
    ensures
        grew(a, b),
{
    assert(a.types@.is_prefix_of(b.types@)) by {
        assert(b.types@.subrange(0, a.types@.len() as int) =~= a.types@);
    }
    assert(a.program.declarations@.is_prefix_of(b.program.declarations@)) by {
        assert(b.program.declarations@.subrange(0, a.program.declarations@.len() as int) =~= a.program.declarations@);
    }
}

/// Everything but the type table and the diagnostics is as it was.
pub open spec fn rest_unchanged(a: SkeletonBuilder, b: SkeletonBuilder) -> bool {
    &&& b.program == a.program
    &&& b.source_len == a.source_len
    &&& b.next_generic_param == a.next_generic_param
    &&& b.next_anon_class_id == a.next_anon_class_id
    &&& b.next_closure_id == a.next_closure_id
    &&& b.resolved_aliases == a.resolved_aliases
    &&& b.is_generator_stack == a.is_generator_stack
    &&& b.type_param_stack == a.type_param_stack
    &&& b.module == a.module
    &&& b.tla_main_body == a.tla_main_body
    &&& b.tla_main_name == a.tla_main_name
    &&& b.tla_top_level_scope == a.tla_top_level_scope
    &&& b.top_level_function_spans == a.top_level_function_spans
    &&& b.tla_only_bindings == a.tla_only_bindings
}

} // verus!
