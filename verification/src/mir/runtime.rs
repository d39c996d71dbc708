//! Which parts of the runtime library a lowered program needs.
use vstd::prelude::*;
use crate::mir::body::RuntimeOp;

verus! {

/// A part of the runtime library that can be linked in on its own.
#[derive(Debug, Clone, Copy, PartialEq, Eq, Structural, Hash)]
pub enum RuntimeFeature {
    String,
    Array,
    Maps,
    Result,
    Promise,
    Scheduler,
    HostIo,
    Console,
    Math,
}

/// The name under which a feature is known to the build.
pub open spec fn feature_label(f: RuntimeFeature) -> Seq<char> {
    match f {
        RuntimeFeature::String => "string"@,
        RuntimeFeature::Array => "array"@,
        RuntimeFeature::Maps => "map"@,
        RuntimeFeature::Result => "result"@,
        RuntimeFeature::Promise => "promise"@,
        RuntimeFeature::Scheduler => "scheduler"@,
        RuntimeFeature::HostIo => "host_io"@,
        RuntimeFeature::Console => "console"@,
        RuntimeFeature::Math => "math"@,
    }
}

impl RuntimeFeature {
    pub fn label(self) -> (r: &'static str)
        ensures
            r@ == feature_label(self),
    {
        match self {
            RuntimeFeature::String => "string",
            RuntimeFeature::Array => "array",
            RuntimeFeature::Maps => "map",
            RuntimeFeature::Result => "result",
            RuntimeFeature::Promise => "promise",
            RuntimeFeature::Scheduler => "scheduler",
            RuntimeFeature::HostIo => "host_io",
            RuntimeFeature::Console => "console",
            RuntimeFeature::Math => "math",
        }
    }
}

/// The features that a runtime operation pulls in, in the order they are
/// recorded. `TypeOf` is lowered without the runtime and has none.
pub open spec fn op_feature_list(op: RuntimeOp) -> Seq<RuntimeFeature> {
    match op {
        RuntimeOp::StringConcat | RuntimeOp::StringEquals | RuntimeOp::StringLen => seq![RuntimeFeature::String],
        RuntimeOp::ArrayCreate | RuntimeOp::ArrayGet | RuntimeOp::ArraySet | RuntimeOp::ArrayLen =>
            seq![RuntimeFeature::Array],
        RuntimeOp::MapGet | RuntimeOp::MapSet => seq![RuntimeFeature::Maps],
        RuntimeOp::ResultOk | RuntimeOp::ResultErr | RuntimeOp::ResultUnwrapOk => seq![RuntimeFeature::Result],
        RuntimeOp::PromiseCreate | RuntimeOp::PromiseResolve => seq![RuntimeFeature::Promise, RuntimeFeature::Scheduler],
        RuntimeOp::HostConsoleLog => seq![RuntimeFeature::HostIo, RuntimeFeature::Console],
        RuntimeOp::MathSqrt => seq![RuntimeFeature::Math],
        _ => Seq::empty(),
    }
}

/// The set of features that a runtime operation pulls in.
pub open spec fn op_features(op: RuntimeOp) -> Set<RuntimeFeature> {
    op_feature_list(op).to_set()
}

/// The features of `op`, in order.
fn features_for(op: RuntimeOp) -> (v: Vec<RuntimeFeature>)
    requires
        op != RuntimeOp::TypeOf,
    ensures
        v@ == op_feature_list(op),
{
    match op {
        RuntimeOp::StringConcat | RuntimeOp::StringEquals | RuntimeOp::StringLen => vec![RuntimeFeature::String],
        RuntimeOp::ArrayCreate | RuntimeOp::ArrayGet | RuntimeOp::ArraySet | RuntimeOp::ArrayLen =>
            vec![RuntimeFeature::Array],
        RuntimeOp::MapGet | RuntimeOp::MapSet => vec![RuntimeFeature::Maps],
        RuntimeOp::ResultOk | RuntimeOp::ResultErr | RuntimeOp::ResultUnwrapOk => vec![RuntimeFeature::Result],
        RuntimeOp::PromiseCreate | RuntimeOp::PromiseResolve => vec![RuntimeFeature::Promise, RuntimeFeature::Scheduler],
        RuntimeOp::HostConsoleLog => vec![RuntimeFeature::HostIo, RuntimeFeature::Console],
        RuntimeOp::MathSqrt => vec![RuntimeFeature::Math],
        _ => Vec::new(),
    }
}

/// The model of a set of requirements: whether the runtime is needed at
/// all, and which of its features.
pub struct RequirementsV {
    pub needs_runtime: bool,
    pub features: Set<RuntimeFeature>,
}

/// No requirements.
pub open spec fn req_empty() -> RequirementsV {
    RequirementsV { needs_runtime: false, features: Set::empty() }
}

/// The requirements after recording a use of `op`.
pub open spec fn req_require(r: RequirementsV, op: RuntimeOp) -> RequirementsV {
    RequirementsV { needs_runtime: true, features: r.features + op_features(op) }
}

/// The requirements of two parts taken together.
pub open spec fn req_merge(a: RequirementsV, b: RequirementsV) -> RequirementsV {
    RequirementsV { needs_runtime: a.needs_runtime || b.needs_runtime, features: a.features + b.features }
}

/// Recording a runtime operation always needs the runtime, and links in
/// the part of the runtime that the operation works on: string operations
/// the strings, array operations the arrays, map operations the maps,
/// result operations the results, promise operations the promises with
/// the scheduler that settles them, console output the console with host
/// I/O, and the square root the math library. Nothing else is added.
pub proof fn law_require_links_its_structure(r: RequirementsV, op: RuntimeOp)
    ensures
        req_require(r, op).needs_runtime,
        r.features.subset_of(req_require(r, op).features),
        op == RuntimeOp::StringConcat || op == RuntimeOp::StringEquals || op == RuntimeOp::StringLen
            ==> req_require(r, op).features == r.features.insert(RuntimeFeature::String),
        op == RuntimeOp::ArrayCreate || op == RuntimeOp::ArrayGet || op == RuntimeOp::ArraySet || op == RuntimeOp::ArrayLen
            ==> req_require(r, op).features == r.features.insert(RuntimeFeature::Array),
        op == RuntimeOp::MapGet || op == RuntimeOp::MapSet
            ==> req_require(r, op).features == r.features.insert(RuntimeFeature::Maps),
        op == RuntimeOp::ResultOk || op == RuntimeOp::ResultErr || op == RuntimeOp::ResultUnwrapOk
            ==> req_require(r, op).features == r.features.insert(RuntimeFeature::Result),
        op == RuntimeOp::PromiseCreate || op == RuntimeOp::PromiseResolve
            ==> req_require(r, op).features == r.features.insert(RuntimeFeature::Promise).insert(RuntimeFeature::Scheduler),
        op == RuntimeOp::HostConsoleLog
            ==> req_require(r, op).features == r.features.insert(RuntimeFeature::HostIo).insert(RuntimeFeature::Console),
        op == RuntimeOp::MathSqrt ==> req_require(r, op).features == r.features.insert(RuntimeFeature::Math),
        !(op == RuntimeOp::StringConcat || op == RuntimeOp::StringEquals || op == RuntimeOp::StringLen
            || op == RuntimeOp::ArrayCreate || op == RuntimeOp::ArrayGet || op == RuntimeOp::ArraySet
            || op == RuntimeOp::ArrayLen || op == RuntimeOp::MapGet || op == RuntimeOp::MapSet || op == RuntimeOp::ResultOk
            || op == RuntimeOp::ResultErr || op == RuntimeOp::ResultUnwrapOk || op == RuntimeOp::PromiseCreate
            || op == RuntimeOp::PromiseResolve || op == RuntimeOp::HostConsoleLog || op == RuntimeOp::MathSqrt)
            ==> req_require(r, op).features == r.features,
{
    let f = req_require(r, op).features;
    if op == RuntimeOp::StringConcat || op == RuntimeOp::StringEquals || op == RuntimeOp::StringLen {
        assert(op_feature_list(op) == seq![RuntimeFeature::String]);
        assert(op_feature_list(op)[0] == RuntimeFeature::String);
        assert(op_features(op) =~= set![RuntimeFeature::String]);
        assert(f =~= r.features.insert(RuntimeFeature::String));
    } else if op == RuntimeOp::ArrayCreate || op == RuntimeOp::ArrayGet || op == RuntimeOp::ArraySet || op == RuntimeOp::ArrayLen {
        assert(op_feature_list(op) == seq![RuntimeFeature::Array]);
        assert(op_feature_list(op)[0] == RuntimeFeature::Array);
        assert(op_features(op) =~= set![RuntimeFeature::Array]);
        assert(f =~= r.features.insert(RuntimeFeature::Array));
    } else if op == RuntimeOp::MapGet || op == RuntimeOp::MapSet {
        assert(op_feature_list(op) == seq![RuntimeFeature::Maps]);
        assert(f =~= r.features.insert(RuntimeFeature::Maps));
    } else if op == RuntimeOp::ResultOk || op == RuntimeOp::ResultErr || op == RuntimeOp::ResultUnwrapOk {
        assert(op_feature_list(op) == seq![RuntimeFeature::Result]);
        assert(f =~= r.features.insert(RuntimeFeature::Result));
    } else if op == RuntimeOp::PromiseCreate || op == RuntimeOp::PromiseResolve {
        assert(op_feature_list(op) == seq![RuntimeFeature::Promise, RuntimeFeature::Scheduler]);
        assert(f =~= r.features.insert(RuntimeFeature::Promise).insert(RuntimeFeature::Scheduler));
    } else if op == RuntimeOp::HostConsoleLog {
        assert(op_feature_list(op) == seq![RuntimeFeature::HostIo, RuntimeFeature::Console]);
        assert(f =~= r.features.insert(RuntimeFeature::HostIo).insert(RuntimeFeature::Console));
    } else if op == RuntimeOp::MathSqrt {
        assert(op_feature_list(op) == seq![RuntimeFeature::Math]);
        assert(f =~= r.features.insert(RuntimeFeature::Math));
    } else {
        assert(op_feature_list(op) =~= Seq::<RuntimeFeature>::empty());
        assert(f =~= r.features);
    }
    assert(r.features.subset_of(f));
}

/// What a lowered program needs from the runtime library.
#[derive(Debug)]
pub struct RuntimeRequirements {
    needs_runtime: bool,
    features: Vec<RuntimeFeature>,
}

impl View for RuntimeRequirements {
    type V = RequirementsV;

    closed spec fn view(&self) -> RequirementsV {
        RequirementsV { needs_runtime: self.needs_runtime, features: self.features@.to_set() }
    }
}

impl RuntimeRequirements {
    /// Each feature is recorded once.
    #[verifier::type_invariant]
    spec fn features_distinct(self) -> bool {
        self.features@.no_duplicates()
    }

    /// Whether `f` is recorded, and where.
    fn position(&self, f: RuntimeFeature) -> (r: Option<usize>)
        ensures
            match r {
                Some(i) => i < self.features@.len() && self.features@[i as int] == f,
                None => !self.features@.contains(f),
            },
    {
        let mut i: usize = 0;
        while i < self.features.len()
            invariant
                0 <= i <= self.features@.len(),
                forall|j: int| 0 <= j < i ==> self.features@[j] != f,
            decreases self.features@.len() - i,
        {
            if self.features[i] == f {
                return Some(i);
            }
            i += 1;
        }
        None
    }

    /// Records `f` unless it is recorded already.
    fn insert(&mut self, f: RuntimeFeature)
        ensures
            final(self)@ == (RequirementsV { needs_runtime: old(self)@.needs_runtime, features: old(self)@.features.insert(f) }),
    {
        proof {
            use_type_invariant(&*self);
        }
        match self.position(f) {
            Some(_) => {
                proof {
                    assert(self@.features.insert(f) =~= self@.features);
                }
            },
            None => {
                let ghost before = self.features@;
                let mut fs = Vec::new();
                std::mem::swap(&mut fs, &mut self.features);
                fs.push(f);
                proof {
                    assert(fs@ == before.push(f));
                    assert forall|i: int, j: int| 0 <= i < j < fs@.len() implies fs@[i] != fs@[j] by {
                        if j == before.len() {
                            assert(before.contains(before[i]));
                        }
                    }
                    before.lemma_push_to_set_commute(f);
                }
                self.features = fs;
            },
        }
    }

    pub fn needs_runtime(&self) -> (b: bool)
        ensures
            b == self@.needs_runtime,
    {
        self.needs_runtime
    }

    /// Whether feature `f` is needed.
    pub fn needs(&self, f: RuntimeFeature) -> (b: bool)
        ensures
            b == self@.features.contains(f),
    {
        match self.position(f) {
            Some(i) => {
                proof {
                    assert(self.features@.contains(f));
                }
                true
            },
            None => false,
        }
    }

    /// Whether nothing at all is needed.
    pub fn is_empty(&self) -> (b: bool)
        ensures
            b == (self@ == req_empty()),
    {
        proof {
            if self.features@.len() > 0 {
                assert(self@.features.contains(self.features@[0]));
            } else {
                assert(self@.features =~= Set::<RuntimeFeature>::empty());
            }
        }
        !self.needs_runtime && self.features.len() == 0
    }

    /// The needed features, each once.
    pub fn features(&self) -> (v: Vec<RuntimeFeature>)
        ensures
            v@.to_set() == self@.features,
            v@.no_duplicates(),
    {
        proof {
            use_type_invariant(self);
        }
        let mut v: Vec<RuntimeFeature> = Vec::new();
        let mut i: usize = 0;
        while i < self.features.len()
            invariant
                0 <= i <= self.features@.len(),
                v@ == self.features@.subrange(0, i as int),
            decreases self.features@.len() - i,
        {
            v.push(self.features[i]);
            i += 1;
        }
        proof {
            assert(v@ == self.features@);
        }
        v
    }

    /// Records a use of `op`: the runtime is needed, with the features of `op`.
    pub fn require(&mut self, op: RuntimeOp)
        requires
            op != RuntimeOp::TypeOf,
        ensures
            final(self)@ == req_require(old(self)@, op),
    {
        proof {
            use_type_invariant(&*self);
        }
        self.needs_runtime = true;
        let fs = features_for(op);
        let mut i: usize = 0;
        proof {
            assert(fs@.subrange(0, 0).to_set() =~= Set::<RuntimeFeature>::empty());
            assert(old(self)@.features + fs@.subrange(0, 0).to_set() =~= old(self)@.features);
        }
        while i < fs.len()
            invariant
                0 <= i <= fs@.len(),
                fs@ == op_feature_list(op),
                self@ == (RequirementsV {
                    needs_runtime: true,
                    features: old(self)@.features + fs@.subrange(0, i as int).to_set(),
                }),
            decreases fs@.len() - i,
        {
            let f = fs[i];
            self.insert(f);
            proof {
                assert(fs@.subrange(0, i + 1) == fs@.subrange(0, i as int).push(f));
                fs@.subrange(0, i as int).lemma_push_to_set_commute(f);
                assert(old(self)@.features + fs@.subrange(0, i + 1).to_set() =~= (old(self)@.features
                    + fs@.subrange(0, i as int).to_set()).insert(f));
            }
            i += 1;
        }
        proof {
            assert(fs@.subrange(0, fs@.len() as int) == fs@);
        }
    }

    /// Adds everything that `other` needs.
    pub fn merge(&mut self, other: &RuntimeRequirements)
        ensures
            final(self)@ == req_merge(old(self)@, other@),
    {
        proof {
            use_type_invariant(&*self);
        }
        self.needs_runtime = self.needs_runtime || other.needs_runtime;
        let fs = other.features();
        let mut i: usize = 0;
        proof {
            assert(fs@.subrange(0, 0).to_set() =~= Set::<RuntimeFeature>::empty());
            assert(old(self)@.features + fs@.subrange(0, 0).to_set() =~= old(self)@.features);
        }
        while i < fs.len()
            invariant
                0 <= i <= fs@.len(),
                fs@.to_set() == other@.features,
                self@ == (RequirementsV {
                    needs_runtime: old(self)@.needs_runtime || other@.needs_runtime,
                    features: old(self)@.features + fs@.subrange(0, i as int).to_set(),
                }),
            decreases fs@.len() - i,
        {
            let f = fs[i];
            self.insert(f);
            proof {
                assert(fs@.subrange(0, i + 1) == fs@.subrange(0, i as int).push(f));
                fs@.subrange(0, i as int).lemma_push_to_set_commute(f);
                assert(old(self)@.features + fs@.subrange(0, i + 1).to_set() =~= (old(self)@.features
                    + fs@.subrange(0, i as int).to_set()).insert(f));
            }
            i += 1;
        }
        proof {
            assert(fs@.subrange(0, fs@.len() as int) == fs@);
        }
    }
}

impl RuntimeRequirements {
    /// Whether every feature recorded in `self` is recorded in `other`.
    fn features_within(&self, other: &RuntimeRequirements) -> (b: bool)
        ensures
            b == self@.features.subset_of(other@.features),
    {
        let mut i: usize = 0;
        while i < self.features.len()
            invariant
                0 <= i <= self.features@.len(),
                forall|j: int| 0 <= j < i ==> other@.features.contains(#[trigger] self.features@[j]),
            decreases self.features@.len() - i,
        {
            if !other.needs(self.features[i]) {
                proof {
                    assert(self@.features.contains(self.features@[i as int]));
                }
                return false;
            }
            i += 1;
        }
        proof {
            assert forall|f: RuntimeFeature| self@.features.contains(f) implies other@.features.contains(f) by {
                let j = choose|j: int| 0 <= j < self.features@.len() && self.features@[j] == f;
            }
        }
        true
    }
}

impl PartialEq for RuntimeRequirements {
    fn eq(&self, other: &Self) -> (r: bool) {
        let same = self.needs_runtime == other.needs_runtime && self.features_within(other)
            && other.features_within(self);
        proof {
            if same {
                assert(self@.features =~= other@.features);
            }
        }
        same
    }
}

impl vstd::std_specs::cmp::PartialEqSpecImpl for RuntimeRequirements {
    open spec fn obeys_eq_spec() -> bool {
        true
    }

    open spec fn eq_spec(&self, other: &Self) -> bool {
        self@ == other@
    }
}

impl Eq for RuntimeRequirements {
}

impl Default for RuntimeRequirements {
    fn default() -> (r: Self)
        ensures
            r@ == req_empty(),
    {
        let r = RuntimeRequirements { needs_runtime: false, features: Vec::new() };
        proof {
            assert(r@.features =~= Set::<RuntimeFeature>::empty());
        }
        r
    }
}

impl Clone for RuntimeRequirements {
    fn clone(&self) -> (r: Self)
        ensures
            r@ == self@,
    {
        proof {
            use_type_invariant(self);
        }
        let fs = self.features();
        proof {
            assert(fs@.no_duplicates());
        }
        RuntimeRequirements { needs_runtime: self.needs_runtime, features: fs }
    }
}

/// Recording the same operation twice needs no more than recording it once.
pub proof fn law_require_idempotent(r: RequirementsV, op: RuntimeOp)
    ensures
        req_require(req_require(r, op), op) == req_require(r, op),
{
    assert(req_require(req_require(r, op), op).features =~= req_require(r, op).features);
}

/// The order in which operations are recorded does not matter.
pub proof fn law_require_commutes(r: RequirementsV, a: RuntimeOp, b: RuntimeOp)
    ensures
        req_require(req_require(r, a), b) == req_require(req_require(r, b), a),
{
    assert(req_require(req_require(r, a), b).features =~= req_require(req_require(r, b), a).features);
}

/// Recording an operation never drops a need that was there, and always
/// needs the runtime and every feature of the operation.
pub proof fn law_require_grows(r: RequirementsV, op: RuntimeOp, f: RuntimeFeature)
    ensures
        req_require(r, op).needs_runtime,
        r.features.contains(f) ==> req_require(r, op).features.contains(f),
        op_features(op).contains(f) ==> req_require(r, op).features.contains(f),
        req_require(r, op).features.contains(f) ==> r.features.contains(f) || op_features(op).contains(f),
{
}

/// Merging is commutative.
pub proof fn law_merge_commutative(a: RequirementsV, b: RequirementsV)
    ensures
        req_merge(a, b) == req_merge(b, a),
{
    assert(req_merge(a, b).features =~= req_merge(b, a).features);
}

/// Merging is associative.
pub proof fn law_merge_associative(a: RequirementsV, b: RequirementsV, c: RequirementsV)
    ensures
        req_merge(req_merge(a, b), c) == req_merge(a, req_merge(b, c)),
{
    assert(req_merge(req_merge(a, b), c).features =~= req_merge(a, req_merge(b, c)).features);
}

/// Merging a set of requirements into itself changes nothing.
pub proof fn law_merge_idempotent(a: RequirementsV)
    ensures
        req_merge(a, a) == a,
{
    assert(req_merge(a, a).features =~= a.features);
}

/// The empty requirements are the identity of merging.
pub proof fn law_merge_empty(a: RequirementsV)
    ensures
        req_merge(a, req_empty()) == a,
        req_merge(req_empty(), a) == a,
{
    assert(req_merge(a, req_empty()).features =~= a.features);
    assert(req_merge(req_empty(), a).features =~= a.features);
}

/// Recording an operation on one side of a merge is the same as recording
/// it after the merge.
pub proof fn law_require_distributes_over_merge(a: RequirementsV, b: RequirementsV, op: RuntimeOp)
    ensures
        req_merge(req_require(a, op), b) == req_require(req_merge(a, b), op),
{
    assert(req_merge(req_require(a, op), b).features =~= req_require(req_merge(a, b), op).features);
}

} // verus!
