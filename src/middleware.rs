//! The middleware pipeline around a handler: `before` hooks in declaration
//! order, the handler, then `after` hooks in reverse order; the first failure
//! ends the run.
use vstd::prelude::*;
use crate::context::Context;
use crate::error::KoralResult;

verus! {

/// Hooks that run before and after a command's handler.
pub trait Middleware {
    /// Runs before the handler; an error aborts the invocation.
    fn before(&self, ctx: &mut Context) -> KoralResult<()>;

    /// Runs after a successful handler.
    fn after(&self, ctx: &mut Context) -> KoralResult<()>;
}

/// One call the pipeline makes next, or its end.
#[derive(Debug, Clone, Copy, PartialEq, Eq, Structural)]
pub enum Stage {
    /// The `before` hook of middleware `i`.
    Before(usize),
    /// The handler.
    Handler,
    /// The `after` hook of middleware `i`.
    After(usize),
    /// Nothing more runs.
    Finish,
}

/// The first call with `n` middlewares.
pub open spec fn spec_first(n: nat) -> Stage {
    if n > 0 {
        Stage::Before(0)
    } else {
        Stage::Handler
    }
}

/// The call after `a` returned, successfully (`ok`) or not.
pub open spec fn spec_next(n: nat, a: Stage, ok: bool) -> Stage {
    if !ok {
        Stage::Finish
    } else {
        match a {
            Stage::Before(i) => if i + 1 < n {
                Stage::Before((i + 1) as usize)
            } else {
                Stage::Handler
            },
            Stage::Handler => if n > 0 {
                Stage::After((n - 1) as usize)
            } else {
                Stage::Finish
            },
            Stage::After(i) => if i > 0 {
                Stage::After((i - 1) as usize)
            } else {
                Stage::Finish
            },
            Stage::Finish => Stage::Finish,
        }
    }
}

/// The call made after `k` successful calls, starting with `a`.
pub open spec fn nth_ok(n: nat, a: Stage, k: nat) -> Stage
    decreases k,
{
    if k == 0 {
        a
    } else {
        nth_ok(n, spec_next(n, a, true), (k - 1) as nat)
    }
}

/// `before` hooks from `from` in declaration order.
pub open spec fn befores(n: nat, from: nat) -> Seq<Stage> {
    Seq::new((n - from) as nat, |x: int| Stage::Before((from + x) as usize))
}

/// `after` hooks from `i` down to 0.
pub open spec fn afters(i: nat) -> Seq<Stage> {
    Seq::new(i, |x: int| Stage::After((i - 1 - x) as usize))
}

/// The order of calls of a successful run with `n` middlewares.
pub open spec fn expected_order(n: nat) -> Seq<Stage> {
    befores(n, 0) + seq![Stage::Handler] + afters(n)
}

proof fn lemma_nth_step(n: nat, a: Stage, k: nat)
    ensures
        nth_ok(n, a, k + 1) == spec_next(n, nth_ok(n, a, k), true),
    decreases k,
{
    if k > 0 {
        lemma_nth_step(n, spec_next(n, a, true), (k - 1) as nat);
        assert(nth_ok(n, a, k + 1) == nth_ok(n, spec_next(n, a, true), k));
        assert(nth_ok(n, a, k) == nth_ok(n, spec_next(n, a, true), (k - 1) as nat));
    } else {
        assert(nth_ok(n, a, 1) == nth_ok(n, spec_next(n, a, true), 0));
    }
}

proof fn lemma_nth_expected(n: nat, j: nat)
    requires
        j <= 2 * n + 1,
        n <= usize::MAX,
    ensures
        j < 2 * n + 1 ==> nth_ok(n, spec_first(n), j) == expected_order(n)[j as int],
        j == 2 * n + 1 ==> nth_ok(n, spec_first(n), j) == Stage::Finish,
    decreases j,
{
    let e = expected_order(n);
    let bs = befores(n, 0);
    let as_ = afters(n);
    assert(e.len() == 2 * n + 1);
    assert forall|x: int| 0 <= x < n implies #[trigger] e[x] == Stage::Before(x as usize) by {
        assert(e[x] == bs[x]);
    }
    assert(e[n as int] == Stage::Handler);
    assert forall|x: int| n < x < 2 * n + 1 implies #[trigger] e[x] == Stage::After((2 * n - x) as usize) by {
        assert(e[x] == as_[x - n - 1]);
    }
    if j > 0 {
        lemma_nth_expected(n, (j - 1) as nat);
        lemma_nth_step(n, spec_first(n), (j - 1) as nat);
        if j - 1 < n {
            assert(e[j - 1] == Stage::Before((j - 1) as usize));
        } else if j - 1 == n {
            assert(e[j - 1] == Stage::Handler);
        } else {
            assert(e[j - 1] == Stage::After((2 * n - (j - 1)) as usize));
        }
        if j < n {
            assert(e[j as int] == Stage::Before(j as usize));
        } else if j == n {
            assert(e[j as int] == Stage::Handler);
        } else if j < 2 * n + 1 {
            assert(e[j as int] == Stage::After((2 * n - j) as usize));
        }
    } else {
        if n > 0 {
            assert(e[0] == Stage::Before(0));
        } else {
            assert(e[0] == Stage::Handler);
        }
    }
}

/// With `n` middlewares and every call succeeding, the calls are the
/// `before` hooks in declaration order, the handler, the `after` hooks in
/// reverse declaration order, and then nothing more.
pub proof fn lemma_middleware_order(n: nat)
    requires
        n <= usize::MAX,
    ensures
        forall|j: nat| j < 2 * n + 1 ==> #[trigger] nth_ok(n, spec_first(n), j) == expected_order(n)[j as int],
        nth_ok(n, spec_first(n), 2 * n + 1) == Stage::Finish,
        expected_order(n).len() == 2 * n + 1,
{
    assert forall|j: nat| j < 2 * n + 1 implies #[trigger] nth_ok(n, spec_first(n), j) == expected_order(n)[j as int] by {
        lemma_nth_expected(n, j);
    }
    lemma_nth_expected(n, 2 * n + 1);
}

/// A failing `before` hook ends the run: neither the handler nor any other
/// hook runs after it.
pub proof fn lemma_before_failure_stops(n: nat, i: usize)
    ensures
        spec_next(n, Stage::Before(i), false) == Stage::Finish,
        spec_next(n, Stage::Finish, true) == Stage::Finish,
{
}

/// An action that names an existing middleware, if it names one.
pub open spec fn in_range(n: nat, a: Stage) -> bool {
    match a {
        Stage::Before(i) => i < n,
        Stage::After(i) => i < n,
        _ => true,
    }
}

/// The first call with `n` middlewares.
pub fn first_action(n: usize) -> (r: Stage)
    ensures
        r == spec_first(n as nat),
{
    if n > 0 {
        Stage::Before(0)
    } else {
        Stage::Handler
    }
}

/// The call after `a` returned, successfully (`ok`) or not.
pub fn next_action(n: usize, a: Stage, ok: bool) -> (r: Stage)
    requires
        in_range(n as nat, a),
    ensures
        r == spec_next(n as nat, a, ok),
        in_range(n as nat, r),
{
    if !ok {
        return Stage::Finish;
    }
    match a {
        Stage::Before(i) => if i + 1 < n {
            Stage::Before(i + 1)
        } else {
            Stage::Handler
        },
        Stage::Handler => if n > 0 {
            Stage::After(n - 1)
        } else {
            Stage::Finish
        },
        Stage::After(i) => if i > 0 {
            Stage::After(i - 1)
        } else {
            Stage::Finish
        },
        Stage::Finish => Stage::Finish,
    }
}

/// The application's side of a pipeline run: its middlewares' hooks and the
/// handler.
pub trait Hooks {
    /// The calls made so far, in order.
    spec fn calls(&self) -> Vec<Stage>;

    /// Calls the `before` hook of middleware `i`.
    fn before(&mut self, i: usize, ctx: &mut Context) -> (r: KoralResult<()>)
        ensures
            final(self).calls()@ == old(self).calls()@.push(Stage::Before(i)),
    ;

    /// Calls the handler.
    fn handle(&mut self, ctx: &mut Context) -> (r: KoralResult<()>)
        ensures
            final(self).calls()@ == old(self).calls()@.push(Stage::Handler),
    ;

    /// Calls the `after` hook of middleware `i`.
    fn after(&mut self, i: usize, ctx: &mut Context) -> (r: KoralResult<()>)
        ensures
            final(self).calls()@ == old(self).calls()@.push(Stage::After(i)),
    ;
}

/// Runs the pipeline of `n` middlewares around the handler. Returns the
/// outcome, the first error if any, and the calls made, in order: when all
/// succeed the calls are exactly [`expected_order`], and a failure ends the
/// run right after the failing call.
pub fn run_pipeline<H: Hooks>(hooks: &mut H, n: usize, ctx: &mut Context) -> (r: (KoralResult<()>, Vec<Stage>))
    requires
        2 * n + 1 <= usize::MAX,
    ensures
        final(hooks).calls()@ == old(hooks).calls()@ + r.1@,
        r.0 is Ok ==> r.1@ == expected_order(n as nat),
        r.0 is Err ==> 0 < r.1@.len() <= expected_order(n as nat).len() && r.1@ == expected_order(n as nat).take(r.1@.len() as int),
{
    let mut log: Vec<Stage> = Vec::new();
    let mut a = first_action(n);
    proof {
        lemma_middleware_order(n as nat);
    }
    loop
        invariant
            in_range(n as nat, a),
            log@.len() <= 2 * n + 1,
            a == nth_ok(n as nat, spec_first(n as nat), log@.len() as nat),
            forall|j: int| 0 <= j < log@.len() ==> #[trigger] log@[j] == expected_order(n as nat)[j],
            forall|j: nat| j < 2 * n + 1 ==> #[trigger] nth_ok(n as nat, spec_first(n as nat), j) == expected_order(n as nat)[j as int],
            nth_ok(n as nat, spec_first(n as nat), (2 * n + 1) as nat) == Stage::Finish,
            expected_order(n as nat).len() == 2 * n + 1,
            hooks.calls()@ == old(hooks).calls()@ + log@,
        decreases 2 * n + 1 - log@.len(),
    {
        if a == Stage::Finish {
            proof {
                if log@.len() < 2 * n + 1 {
                    assert(nth_ok(n as nat, spec_first(n as nat), log@.len() as nat) == expected_order(n as nat)[log@.len() as int]);
                    let e = expected_order(n as nat);
                    let l = log@.len() as int;
                    if l < n {
                        assert(e[l] == Stage::Before(l as usize));
                    } else if l == n {
                        assert(e[l] == Stage::Handler);
                    } else {
                        assert(e[l] == Stage::After((2 * n - l) as usize));
                    }
                }
                assert(log@ =~= expected_order(n as nat));
            }
            return (Ok(()), log);
        }
        proof {
            if log@.len() == 2 * n + 1 {
                assert(false);
            }
        }
        let outcome = match a {
            Stage::Before(i) => hooks.before(i, ctx),
            Stage::Handler => hooks.handle(ctx),
            Stage::After(i) => hooks.after(i, ctx),
            Stage::Finish => Ok(()),
        };
        let ghost l = log@.len();
        let ghost before_log = log@;
        log.push(a);
        proof {
            assert(old(hooks).calls()@ + log@ =~= (old(hooks).calls()@ + before_log).push(a));
        }
        match outcome {
            Ok(()) => {
                proof {
                    lemma_nth_step(n as nat, spec_first(n as nat), l as nat);
                }
                a = next_action(n, a, true);
            },
            Err(e) => {
                proof {
                    assert(log@ =~= expected_order(n as nat).take(log@.len() as int));
                }
                return (Err(e), log);
            },
        }
    }
}

} // verus!
