use ts_aot::mir::body::RuntimeOp;
use ts_aot::mir::runtime::{RuntimeFeature, RuntimeRequirements};

#[test]
fn default_has_no_requirements() {
    let r = RuntimeRequirements::default();
    assert!(!r.needs_runtime());
    assert!(r.is_empty());
    for f in [
        RuntimeFeature::String,
        RuntimeFeature::Array,
        RuntimeFeature::Maps,
        RuntimeFeature::Result,
        RuntimeFeature::Promise,
        RuntimeFeature::Scheduler,
        RuntimeFeature::HostIo,
        RuntimeFeature::Console,
        RuntimeFeature::Math,
    ] {
        assert!(!r.needs(f));
    }
    assert!(r.features().is_empty());
}

#[test]
fn require_promise_op_sets_promise_and_scheduler() {
    let mut r = RuntimeRequirements::default();
    r.require(RuntimeOp::PromiseCreate);
    assert!(r.needs_runtime());
    assert!(r.needs(RuntimeFeature::Promise));
    assert!(r.needs(RuntimeFeature::Scheduler));
    assert!(!r.needs(RuntimeFeature::String));
}

#[test]
fn require_host_console_log_sets_host_io_and_console() {
    let mut r = RuntimeRequirements::default();
    r.require(RuntimeOp::HostConsoleLog);
    assert!(r.needs(RuntimeFeature::HostIo));
    assert!(r.needs(RuntimeFeature::Console));
    assert!(!r.needs(RuntimeFeature::Math));
}

#[test]
fn require_is_idempotent_on_values() {
    let mut once = RuntimeRequirements::default();
    once.require(RuntimeOp::StringConcat);
    let mut twice = RuntimeRequirements::default();
    twice.require(RuntimeOp::StringConcat);
    twice.require(RuntimeOp::StringConcat);
    assert!(once == twice);
    assert_eq!(twice.features(), vec![RuntimeFeature::String]);
}

#[test]
fn require_order_does_not_matter_on_values() {
    let mut a = RuntimeRequirements::default();
    a.require(RuntimeOp::ArrayGet);
    a.require(RuntimeOp::MathSqrt);
    let mut b = RuntimeRequirements::default();
    b.require(RuntimeOp::MathSqrt);
    b.require(RuntimeOp::ArrayGet);
    assert!(a == b);
}

#[test]
fn merge_combines_two_requirements() {
    let mut a = RuntimeRequirements::default();
    a.require(RuntimeOp::StringConcat);
    let mut b = RuntimeRequirements::default();
    b.require(RuntimeOp::ArrayCreate);
    a.merge(&b);
    assert!(a.needs(RuntimeFeature::String));
    assert!(a.needs(RuntimeFeature::Array));
    let mut c = RuntimeRequirements::default();
    c.merge(&a);
    assert!(c == a);
}

#[test]
fn type_of_needs_no_runtime() {
    let mut r = RuntimeRequirements::default();
    r.require(RuntimeOp::MathSqrt);
    assert_eq!(r.features(), vec![RuntimeFeature::Math]);
}

#[test]
fn feature_labels() {
    assert_eq!(RuntimeFeature::Maps.label(), "map");
    assert_eq!(RuntimeFeature::HostIo.label(), "host_io");
    assert_eq!(RuntimeFeature::String.label(), "string");
}

#[test]
fn only_mutating_ops_borrow_their_first_argument() {
    assert_eq!(RuntimeOp::ArrayPush.mutably_borrowed_arg_index(), Some(0));
    assert_eq!(RuntimeOp::MapSet.mutably_borrowed_arg_index(), Some(0));
    assert_eq!(RuntimeOp::ArrayGet.mutably_borrowed_arg_index(), None);
}

#[test]
fn require_string_op_sets_string_and_runtime() {
    let mut r = RuntimeRequirements::default();
    r.require(RuntimeOp::StringConcat);
    assert!(r.needs_runtime());
    assert!(r.needs(RuntimeFeature::String));
    assert!(!r.needs(RuntimeFeature::Array));
    assert!(!r.needs(RuntimeFeature::Math));
}

#[test]
fn require_array_op_sets_array_and_runtime() {
    let mut r = RuntimeRequirements::default();
    r.require(RuntimeOp::ArrayCreate);
    assert!(r.needs_runtime());
    assert!(r.needs(RuntimeFeature::Array));
    assert!(!r.needs(RuntimeFeature::String));
}

#[test]
fn require_math_sqrt_sets_math_only() {
    let mut r = RuntimeRequirements::default();
    r.require(RuntimeOp::MathSqrt);
    assert!(r.needs_runtime());
    assert!(r.needs(RuntimeFeature::Math));
    assert!(!r.needs(RuntimeFeature::String));
    assert!(!r.needs(RuntimeFeature::Console));
}

#[test]
fn multiple_requires_accumulate() {
    let mut r = RuntimeRequirements::default();
    r.require(RuntimeOp::StringConcat);
    r.require(RuntimeOp::ArrayGet);
    r.require(RuntimeOp::MathSqrt);
    assert!(r.needs_runtime());
    assert!(r.needs(RuntimeFeature::String));
    assert!(r.needs(RuntimeFeature::Array));
    assert!(r.needs(RuntimeFeature::Math));
}
