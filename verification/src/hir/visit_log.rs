//! The log of a traversal of HIR bodies: hook calls as nested events,
//! and the facts that let a traversal's steps be put together.
use vstd::prelude::*;
use crate::hir::view::{CaseV, ExprV, StmtV};

verus! {

/// A node that a hook is called on: a statement, an expression, the
/// statements of a block, or a `switch` case.
pub enum VisitV {
    Stmt(StmtV),
    Expr(ExprV),
    Block(Seq<StmtV>),
    Case(CaseV),
}

/// An event of a traversal: a hook call on a node begins, or ends.
pub enum VisitEv {
    Enter(VisitV),
    Leave(VisitV),
}


/// How far an event moves the nesting depth.
pub open spec fn ev_step(e: VisitEv) -> int {
    match e {
        VisitEv::Enter(_) => 1,
        VisitEv::Leave(_) => -1,
    }
}

/// The nesting depth after the first `n` events of `d`.
pub open spec fn depth(d: Seq<VisitEv>, n: int) -> int
    decreases n,
{
    if n <= 0 {
        0
    } else {
        depth(d, n - 1) + ev_step(d[n - 1])
    }
}

/// Whether every call that `d` begins it also ends, in nested order.
pub open spec fn balanced(d: Seq<VisitEv>) -> bool {
    &&& depth(d, d.len() as int) == 0
    &&& forall|n: int| 0 <= n <= d.len() ==> #[trigger] depth(d, n) >= 0
}

/// Whether `d` is one hook call: it begins on `before`, ends on `after`,
/// and what happens in between is well nested.
pub open spec fn is_call(d: Seq<VisitEv>, before: VisitV, after: VisitV) -> bool {
    &&& d.len() >= 2
    &&& d[0] == VisitEv::Enter(before)
    &&& d[d.len() - 1] == VisitEv::Leave(after)
    &&& balanced(d.subrange(1, d.len() - 1))
}

/// Whether `d` splits at `cuts` into one hook call per node of `bs`, in
/// order, the `i`-th beginning on `bs[i]` and ending on `afs[i]`.
pub open spec fn calls_with(bs: Seq<VisitV>, afs: Seq<VisitV>, d: Seq<VisitEv>, cuts: Seq<int>) -> bool {
    &&& afs.len() == bs.len()
    &&& cuts.len() == bs.len() + 1
    &&& cuts[0] == 0
    &&& cuts[bs.len() as int] == d.len()
    &&& forall|i: int| 0 <= i < bs.len() ==> #[trigger] trans_piece(d, cuts, bs, afs, i)
}

/// Whether `d` is one hook call per node of `bs`, in order, each ending on
/// the matching node of `afs`.
pub open spec fn calls(bs: Seq<VisitV>, afs: Seq<VisitV>, d: Seq<VisitEv>) -> bool {
    exists|cuts: Seq<int>| #[trigger] calls_with(bs, afs, d, cuts)
}

/// Whether the log went from `a` to `b` by one hook call per node of `bs`,
/// in order, each ending on the matching node of `afs`.
pub open spec fn logged(a: Seq<VisitEv>, b: Seq<VisitEv>, bs: Seq<VisitV>, afs: Seq<VisitV>) -> bool {
    &&& a.is_prefix_of(b)
    &&& calls(bs, afs, b.subrange(a.len() as int, b.len() as int))
}

/// Whether the log went from `a` to `b` by well nested events only.
pub open spec fn nested(a: Seq<VisitEv>, b: Seq<VisitEv>) -> bool {
    &&& a.is_prefix_of(b)
    &&& balanced(b.subrange(a.len() as int, b.len() as int))
}

/// The depth over two pieces of a log.
pub proof fn lemma_depth_concat(a: Seq<VisitEv>, b: Seq<VisitEv>, n: int)
    requires
        0 <= n <= a.len() + b.len(),
    ensures
        depth(a + b, n) == if n <= a.len() {
            depth(a, n)
        } else {
            depth(a, a.len() as int) + depth(b, n - a.len())
        },
    decreases n,
{
    if n > 0 {
        lemma_depth_concat(a, b, n - 1);
        assert(depth(a + b, n) == depth(a + b, n - 1) + ev_step((a + b)[n - 1]));
        if n <= a.len() {
            assert((a + b)[n - 1] == a[n - 1]);
            assert(depth(a, n) == depth(a, n - 1) + ev_step(a[n - 1]));
        } else {
            assert((a + b)[n - 1] == b[n - 1 - a.len()]);
            assert(depth(b, n - a.len()) == depth(b, n - a.len() - 1) + ev_step(b[n - a.len() - 1]));
            if n - 1 == a.len() {
                assert(depth(b, 0) == 0);
            }
        }
    }
}

/// Two well nested pieces make a well nested log.
pub proof fn lemma_balanced_concat(a: Seq<VisitEv>, b: Seq<VisitEv>)
    requires
        balanced(a),
        balanced(b),
    ensures
        balanced(a + b),
{
    assert forall|n: int| 0 <= n <= (a + b).len() implies #[trigger] depth(a + b, n) >= 0 by {
        lemma_depth_concat(a, b, n);
        if n > a.len() {
            assert(depth(b, n - a.len()) >= 0);
        } else {
            assert(depth(a, n) >= 0);
        }
    }
    lemma_depth_concat(a, b, (a + b).len() as int);
}

/// One hook call is well nested.
pub proof fn lemma_call_balanced(d: Seq<VisitEv>, x: VisitV, y: VisitV)
    requires
        is_call(d, x, y),
    ensures
        balanced(d),
{
    let m = d.subrange(1, d.len() - 1);
    let p = seq![VisitEv::Enter(x)];
    let q = seq![VisitEv::Leave(y)];
    assert(d =~= (p + m) + q);
    assert(depth(p, 1) == 1) by {
        assert(depth(p, 0) == 0);
    }
    assert(depth(q, 1) == -1) by {
        assert(depth(q, 0) == 0);
    }
    assert forall|n: int| 0 <= n <= (p + m).len() implies #[trigger] depth(p + m, n) >= 0 by {
        lemma_depth_concat(p, m, n);
        if n > 1 {
            assert(depth(m, n - 1) >= 0);
        } else if n == 1 {
        } else {
        }
    }
    lemma_depth_concat(p, m, (p + m).len() as int);
    assert forall|n: int| 0 <= n <= d.len() implies #[trigger] depth(d, n) >= 0 by {
        lemma_depth_concat(p + m, q, n);
        if n > (p + m).len() {
            assert(depth(q, n - (p + m).len()) == -1);
        } else {
            assert(depth(p + m, n) >= 0);
        }
    }
    lemma_depth_concat(p + m, q, d.len() as int);
}

/// A hook call made of its entry, a well nested stretch, and its leave.
pub proof fn lemma_call_logged(a: Seq<VisitEv>, b: Seq<VisitEv>, c: Seq<VisitEv>, x: VisitV, y: VisitV)
    requires
        nested(a.push(VisitEv::Enter(x)), b),
        c == b.push(VisitEv::Leave(y)),
    ensures
        logged(a, c, seq![x], seq![y]),
{
    let d = c.subrange(a.len() as int, c.len() as int);
    let a1 = a.push(VisitEv::Enter(x));
    assert(a.is_prefix_of(c)) by {
        assert forall|i: int| 0 <= i < a.len() implies a[i] == c[i] by {
            assert(a[i] == a1[i]);
            assert(a1[i] == b[i]);
        }
        assert(a =~= c.subrange(0, a.len() as int));
    }
    assert(d.subrange(1, d.len() - 1) =~= b.subrange(a1.len() as int, b.len() as int));
    assert(d[0] == VisitEv::Enter(x)) by {
        assert(a1[a.len() as int] == b[a.len() as int]);
    }
    assert(is_call(d.subrange(0, d.len() as int), x, y)) by {
        assert(d.subrange(0, d.len() as int) =~= d);
    }
    let cuts = seq![0int, d.len() as int];
    assert(calls_with(seq![x], seq![y], d, cuts));
}

/// Nothing happened: no hook call.
pub proof fn lemma_logged_refl(a: Seq<VisitEv>)
    ensures
        logged(a, a, Seq::empty(), Seq::empty()),
{
    assert(a.subrange(0, a.len() as int) =~= a);
    assert(calls_with(Seq::empty(), Seq::empty(), a.subrange(a.len() as int, a.len() as int), seq![0int]));
}

/// One piece of a log split at `cuts`: the `i`-th hook call.
pub open spec fn trans_piece(d: Seq<VisitEv>, cuts: Seq<int>, bs: Seq<VisitV>, afs: Seq<VisitV>, i: int) -> bool {
    &&& 0 <= cuts[i]
    &&& cuts[i] <= cuts[i + 1]
    &&& cuts[i + 1] <= d.len()
    &&& is_call(d.subrange(cuts[i], cuts[i + 1]), bs[i], afs[i])
}

/// Hook calls one after the other add up.
pub broadcast proof fn lemma_logged_trans(
    a: Seq<VisitEv>,
    b: Seq<VisitEv>,
    c: Seq<VisitEv>,
    bs1: Seq<VisitV>,
    as1: Seq<VisitV>,
    bs2: Seq<VisitV>,
    as2: Seq<VisitV>,
)
    requires
        #[trigger] logged(a, b, bs1, as1),
        #[trigger] logged(b, c, bs2, as2),
    ensures
        logged(a, c, bs1 + bs2, as1 + as2),
{
    let d1 = b.subrange(a.len() as int, b.len() as int);
    let d2 = c.subrange(b.len() as int, c.len() as int);
    let d = c.subrange(a.len() as int, c.len() as int);
    assert(a.is_prefix_of(c)) by {
        assert forall|i: int| 0 <= i < a.len() implies a[i] == c[i] by {
            assert(a[i] == b.subrange(0, a.len() as int)[i]);
            assert(b[i] == c.subrange(0, b.len() as int)[i]);
        }
        assert(a =~= c.subrange(0, a.len() as int));
    }
    assert(d =~= d1 + d2) by {
        assert forall|i: int| 0 <= i < d1.len() implies d1[i] == c[a.len() + i] by {
            assert(b[a.len() + i] == c.subrange(0, b.len() as int)[a.len() + i]);
        }
    }
    let c1 = choose|cuts: Seq<int>| calls_with(bs1, as1, d1, cuts);
    let c2 = choose|cuts: Seq<int>| calls_with(bs2, as2, d2, cuts);
    let n1 = bs1.len() as int;
    let cuts = c1 + c2.drop_first().map_values(|j: int| j + d1.len());
    let bs = bs1 + bs2;
    let afs = as1 + as2;
    assert forall|i: int| 0 <= i < bs.len() implies #[trigger] trans_piece(d, cuts, bs, afs, i) by {
        if i < n1 {
            assert(trans_piece(d1, c1, bs1, as1, i));
            if i + 1 == n1 {
                assert(cuts[i + 1] == c2[0] + d1.len());
            }
            assert(d.subrange(cuts[i], cuts[i + 1]) =~= d1.subrange(c1[i], c1[i + 1]));
        } else {
            let j = i - n1;
            assert(trans_piece(d2, c2, bs2, as2, j));
            if j == 0 {
                assert(cuts[i] == c1[n1]);
            } else {
                assert(cuts[i] == c2[j] + d1.len());
            }
            assert(cuts[i + 1] == c2[j + 1] + d1.len());
            assert(d.subrange(cuts[i], cuts[i + 1]) =~= d2.subrange(c2[j], c2[j + 1]));
        }
    }
    if bs2.len() == 0 {
        assert(cuts[bs.len() as int] == c1[n1]);
    } else {
        assert(cuts[bs.len() as int] == c2[bs2.len() as int] + d1.len());
    }
    assert(afs.len() == bs.len());
    assert(cuts.len() == bs.len() + 1);
    assert(cuts[0] == 0);
    assert(cuts[bs.len() as int] == d.len());
    assert(calls_with(bs, afs, d, cuts));
}

/// Hook calls one after the other are well nested.
pub proof fn lemma_logged_nested(a: Seq<VisitEv>, b: Seq<VisitEv>, bs: Seq<VisitV>, afs: Seq<VisitV>)
    requires
        logged(a, b, bs, afs),
    ensures
        nested(a, b),
{
    let d = b.subrange(a.len() as int, b.len() as int);
    let cuts = choose|cuts: Seq<int>| calls_with(bs, afs, d, cuts);
    lemma_calls_prefix_balanced(bs, afs, d, cuts, bs.len() as int);
    assert(d.subrange(0, cuts[bs.len() as int]) =~= d);
}

proof fn lemma_calls_prefix_balanced(bs: Seq<VisitV>, afs: Seq<VisitV>, d: Seq<VisitEv>, cuts: Seq<int>, i: int)
    requires
        calls_with(bs, afs, d, cuts),
        0 <= i <= bs.len(),
    ensures
        0 <= cuts[i] <= d.len(),
        balanced(d.subrange(0, cuts[i])),
    decreases i,
{
    if i == 0 {
        assert(depth(d.subrange(0, 0), 0) == 0);
    } else {
        lemma_calls_prefix_balanced(bs, afs, d, cuts, i - 1);
        let j = i - 1;
        assert(trans_piece(d, cuts, bs, afs, j));
        lemma_call_balanced(d.subrange(cuts[i - 1], cuts[i]), bs[i - 1], afs[i - 1]);
        lemma_balanced_concat(d.subrange(0, cuts[i - 1]), d.subrange(cuts[i - 1], cuts[i]));
        assert(d.subrange(0, cuts[i]) =~= d.subrange(0, cuts[i - 1]) + d.subrange(cuts[i - 1], cuts[i]));
    }
}

/// Well nested stretches one after the other are well nested.
pub proof fn lemma_nested_trans(a: Seq<VisitEv>, b: Seq<VisitEv>, c: Seq<VisitEv>)
    requires
        nested(a, b),
        nested(b, c),
    ensures
        nested(a, c),
{
    assert(a.is_prefix_of(c)) by {
        assert forall|i: int| 0 <= i < a.len() implies a[i] == c[i] by {
            assert(a[i] == b.subrange(0, a.len() as int)[i]);
            assert(b[i] == c.subrange(0, b.len() as int)[i]);
        }
        assert(a =~= c.subrange(0, a.len() as int));
    }
    assert(c.subrange(a.len() as int, c.len() as int) =~= b.subrange(a.len() as int, b.len() as int) + c.subrange(
        b.len() as int,
        c.len() as int,
    )) by {
        assert forall|i: int| a.len() <= i < b.len() implies b[i] == c[i] by {
            assert(b[i] == c.subrange(0, b.len() as int)[i]);
        }
    }
    lemma_balanced_concat(b.subrange(a.len() as int, b.len() as int), c.subrange(b.len() as int, c.len() as int));
}

} // verus!
