//! How many workers there are: how many the pool starts with, and which of them
//! it lets go.

use crate::plumber::{Plumber, Probe};
use vstd::prelude::*;

verus! {

/// The nanoseconds in a second.
pub const NANOS_PER_SEC: u128 = 1_000_000_000;

/// How many workers are started before the first request is taken: `n_min`, but
/// no more than the pool can hold, and at least one.
pub open spec fn warm_size(n_min: nat, n_max: nat) -> nat {
    let held = if n_min <= n_max {
        n_min
    } else {
        n_max
    };
    if held >= 1 {
        held
    } else {
        1
    }
}

/// How many workers to start before the first request is taken.
pub fn warm_target(n_min: usize, n_max: usize) -> (target: usize)
    ensures
        target == warm_size(n_min as nat, n_max as nat),
{
    let held: usize = if n_min <= n_max {
        n_min
    } else {
        n_max
    };
    if held >= 1 {
        held
    } else {
        1
    }
}

/// What came of starting one of the first workers.
#[derive(Clone, Copy, Debug, PartialEq, Eq, Structural)]
pub enum WarmOutcome {
    /// The pool gave a worker.
    Worker,
    /// The pool gave an error.
    PoolError,
    /// The task that asked the pool did not come back.
    TaskPanicked,
}

/// How many of the first workers there are.
pub open spec fn warm_count(outcomes: Seq<WarmOutcome>) -> nat {
    outcomes.filter(|o: WarmOutcome| o == WarmOutcome::Worker).len()
}

/// Counts the workers that were started. Without any there is nothing to serve
/// with.
pub fn warm_workers(outcomes: &Vec<WarmOutcome>) -> (count: usize)
    ensures
        count == warm_count(outcomes@),
        count == 0 <==> forall|i: int|
            0 <= i < outcomes@.len() ==> #[trigger] outcomes@[i] != WarmOutcome::Worker,
{
    let mut count: usize = 0;
    let mut i: usize = 0;
    while i < outcomes.len()
        invariant
            i <= outcomes.len(),
            count <= i,
            count == warm_count(outcomes@.take(i as int)),
            count == 0 <==> forall|k: int|
                0 <= k < i ==> #[trigger] outcomes@[k] != WarmOutcome::Worker,
        decreases outcomes.len() - i,
    {
        proof {
            reveal(Seq::filter);
            assert(outcomes@.take(i + 1).drop_last() =~= outcomes@.take(i as int));
        }
        if outcomes[i] == WarmOutcome::Worker {
            count = count + 1;
        }
        i = i + 1;
    }
    assert(outcomes@.take(i as int) =~= outcomes@);
    count
}

/// Where every worker that was asked for came, the pool starts with `n_min`
/// workers, as far as it can hold them, and never with none.
pub proof fn law_pool_starts_warm(n_min: nat, n_max: nat, outcomes: Seq<WarmOutcome>)
    requires
        outcomes.len() == warm_size(n_min, n_max),
        forall|i: int|
            0 <= i < outcomes.len() ==> #[trigger] outcomes[i] == WarmOutcome::Worker,
    ensures
        warm_count(outcomes) >= 1,
        n_min <= n_max ==> warm_count(outcomes) >= n_min,
        1 <= n_max ==> warm_count(outcomes) <= n_max,
        1 <= n_min <= n_max ==> warm_count(outcomes) == n_min,
{
    lemma_all_warm(outcomes);
}

proof fn lemma_all_warm(outcomes: Seq<WarmOutcome>)
    requires
        forall|i: int|
            0 <= i < outcomes.len() ==> #[trigger] outcomes[i] == WarmOutcome::Worker,
    ensures
        warm_count(outcomes) == outcomes.len(),
    decreases outcomes.len(),
{
    reveal(Seq::filter);
    if outcomes.len() > 0 {
        lemma_all_warm(outcomes.drop_last());
    }
}

/// Whether a worker that was last used `last_used_nanos` ago has been idle for
/// `max_age_secs`.
pub open spec fn expired(last_used_nanos: u128, max_age_secs: u64) -> bool {
    last_used_nanos >= max_age_secs * NANOS_PER_SEC
}

/// One pass over the idle workers, in which those that have not been used for
/// long are let go.
#[derive(Clone, Copy, Debug)]
pub struct PrunePass {
    /// How long a worker may be idle.
    pub max_age_secs: u64,
    /// How many workers this pass may let go.
    pub removable: usize,
    /// How many it has let go.
    pub removed: usize,
}

impl PrunePass {
    /// No more workers have been let go than may be.
    pub open spec fn well_formed(self) -> bool {
        self.removed <= self.removable
    }

    /// Whether the pass keeps a worker that was last used `last_used_nanos` ago.
    pub open spec fn keeps(self, last_used_nanos: u128) -> bool {
        !(expired(last_used_nanos, self.max_age_secs) && self.removed < self.removable)
    }

    /// The pass after it has come across such a worker.
    pub open spec fn next(self, last_used_nanos: u128) -> PrunePass {
        if self.keeps(last_used_nanos) {
            self
        } else {
            PrunePass { removed: (self.removed + 1) as usize, ..self }
        }
    }

    /// A pass over a pool of `size` workers that is to keep `n_min`. There is
    /// none where the pool is not larger than that.
    pub fn begin(size: usize, n_min: usize, max_age_secs: u64) -> (pass: Option<Self>)
        ensures
            size <= n_min ==> pass is None,
            size > n_min ==> pass == Some(
                PrunePass { max_age_secs, removable: (size - n_min) as usize, removed: 0 },
            ),
            pass matches Some(p) ==> p.well_formed(),
    {
        let removable: usize = size.saturating_sub(n_min);
        if removable == 0 {
            None
        } else {
            Some(PrunePass { max_age_secs, removable, removed: 0 })
        }
    }

    /// Comes across a worker that was last used `last_used_nanos` ago, and says
    /// whether to keep it.
    pub fn retain(&mut self, last_used_nanos: u128) -> (keep: bool)
        ensures
            keep == old(self).keeps(last_used_nanos),
            keep == !(last_used_nanos >= old(self).max_age_secs * 1_000_000_000
                && old(self).removed < old(self).removable),
            *final(self) == old(self).next(last_used_nanos),
            old(self).well_formed() ==> final(self).well_formed(),
    {
        proof {
            assert(0 <= self.max_age_secs * NANOS_PER_SEC <= u64::MAX * NANOS_PER_SEC)
                by (nonlinear_arith);
        }
        let is_expired = last_used_nanos >= self.max_age_secs as u128 * NANOS_PER_SEC;
        if is_expired && self.removed < self.removable {
            self.removed = self.removed + 1;
            false
        } else {
            true
        }
    }
}

/// The pass after it has come across all of `idle`, in order.
pub open spec fn swept(pass: PrunePass, idle: Seq<u128>) -> PrunePass
    decreases idle.len(),
{
    if idle.len() == 0 {
        pass
    } else {
        swept(pass, idle.drop_last()).next(idle.last())
    }
}

/// How many of `idle` have expired.
pub open spec fn expired_count(idle: Seq<u128>, max_age_secs: u64) -> nat {
    idle.filter(|nanos: u128| expired(nanos, max_age_secs)).len()
}

/// A pass lets go every expired worker it comes across until it may let go no
/// more: as many as have expired, or as many as it may, whichever is less.
pub proof fn law_pass_lets_go_what_it_may(pass: PrunePass, idle: Seq<u128>)
    requires
        pass.well_formed(),
    ensures
        ({
            let end = swept(pass, idle);
            let count = expired_count(idle, pass.max_age_secs);
            let may = pass.removable - pass.removed;
            &&& end.removed - pass.removed == (if count <= may {
                count as int
            } else {
                may
            })
            &&& end.removable == pass.removable
            &&& end.max_age_secs == pass.max_age_secs
        }),
    decreases idle.len(),
{
    reveal(Seq::filter);
    if idle.len() > 0 {
        law_pass_lets_go_what_it_may(pass, idle.drop_last());
    }
}

/// The worker that a pass comes across at place `i` is let go exactly where it
/// has expired and fewer expired ones than may be let go stand before it.
pub proof fn law_first_expired_go_first(pass: PrunePass, idle: Seq<u128>, i: int)
    requires
        pass.well_formed(),
        0 <= i < idle.len(),
    ensures
        !swept(pass, idle.take(i)).keeps(idle[i]) <==> expired(idle[i], pass.max_age_secs)
            && expired_count(idle.take(i), pass.max_age_secs) < pass.removable - pass.removed,
{
    law_pass_lets_go_what_it_may(pass, idle.take(i));
}

/// The size of a pool of `size` workers after a pass over it came across `idle`.
pub open spec fn pruned_size(size: nat, n_min: nat, max_age_secs: u64, idle: Seq<u128>) -> int {
    let count = expired_count(idle, max_age_secs);
    if size <= n_min {
        size as int
    } else if count <= size - n_min {
        size - count
    } else {
        n_min as int
    }
}

/// What a pass over a pool leaves of it is `pruned_size`.
pub proof fn law_pass_leaves_pruned_size(
    size: usize,
    n_min: usize,
    max_age_secs: u64,
    idle: Seq<u128>,
)
    ensures
        size > n_min ==> ({
            let pass = PrunePass {
                max_age_secs,
                removable: (size - n_min) as usize,
                removed: 0,
            };
            size - swept(pass, idle).removed == pruned_size(
                size as nat,
                n_min as nat,
                max_age_secs,
                idle,
            )
        }),
        size <= n_min ==> pruned_size(size as nat, n_min as nat, max_age_secs, idle) == size,
{
    if size > n_min {
        law_pass_lets_go_what_it_may(
            PrunePass { max_age_secs, removable: (size - n_min) as usize, removed: 0 },
            idle,
        );
    }
}

/// Which of `idle` a pass keeps, in order.
pub open spec fn kept(pass: PrunePass, idle: Seq<u128>) -> Seq<u128>
    decreases idle.len(),
{
    if idle.len() == 0 {
        Seq::empty()
    } else {
        let before = kept(pass, idle.drop_last());
        if swept(pass, idle.drop_last()).keeps(idle.last()) {
            before.push(idle.last())
        } else {
            before
        }
    }
}

proof fn lemma_kept(pass: PrunePass, idle: Seq<u128>)
    requires
        pass.well_formed(),
    ensures
        kept(pass, idle).len() == idle.len() - (swept(pass, idle).removed - pass.removed),
        expired_count(kept(pass, idle), pass.max_age_secs) == expired_count(
            idle,
            pass.max_age_secs,
        ) - (swept(pass, idle).removed - pass.removed),
    decreases idle.len(),
{
    reveal(Seq::filter);
    if idle.len() > 0 {
        lemma_kept(pass, idle.drop_last());
        law_pass_lets_go_what_it_may(pass, idle.drop_last());
        let before = kept(pass, idle.drop_last());
        assert(before.push(idle.last()).drop_last() =~= before);
    }
}

/// A pass leaves nothing for the next one: where nothing has changed, a second
/// pass over the workers that the first one kept lets none of them go.
pub proof fn law_second_pass_lets_none_go(
    size: usize,
    n_min: usize,
    max_age_secs: u64,
    idle: Seq<u128>,
)
    requires
        size > n_min,
    ensures
        ({
            let pass = PrunePass {
                max_age_secs,
                removable: (size - n_min) as usize,
                removed: 0,
            };
            let left = size - swept(pass, idle).removed;
            pruned_size(left as nat, n_min as nat, max_age_secs, kept(pass, idle)) == left
        }),
{
    let pass = PrunePass { max_age_secs, removable: (size - n_min) as usize, removed: 0 };
    lemma_kept(pass, idle);
    law_pass_lets_go_what_it_may(pass, idle);
}

/// What happens to a pool of workers.
pub ghost enum PoolEvent {
    /// A worker is asked for: the pool offers those in `idle`, which are probed,
    /// and makes the `new` one, if it can, where none of them stays.
    CheckedOut { idle: Seq<(Plumber, Probe)>, new: Option<Plumber> },
    /// A pass goes over it, and comes across `idle`.
    Pruned { idle: Seq<u128> },
}

/// The size of a pool of `size` workers after a checkout: those that were evicted
/// are gone, and the new worker, where it was handed out, is there.
pub open spec fn checked_out_size(size: int, out: crate::plumber::Checkout) -> int {
    size - out.evicted.len() + (if out.made {
        1int
    } else {
        0
    })
}

impl PoolEvent {
    /// The size of a pool of `size` workers after `self`.
    pub open spec fn size_after(self, size: int, n_min: nat, max_age_secs: u64) -> int {
        match self {
            PoolEvent::CheckedOut { idle, new } => checked_out_size(
                size,
                crate::plumber::checkout(idle, new),
            ),
            PoolEvent::Pruned { idle } => pruned_size(size as nat, n_min, max_age_secs, idle),
        }
    }

    /// Whether `self` can happen to a pool of `size` workers with room for
    /// `n_max`: it has the workers that it offers, and it makes one only where
    /// there is room for it.
    pub open spec fn can_happen(self, size: int, n_max: nat) -> bool {
        match self {
            PoolEvent::CheckedOut { idle, new } => {
                &&& idle.len() <= size
                &&& crate::plumber::checkout(idle, new).made ==> size - crate::plumber::checkout(
                    idle,
                    new,
                ).evicted.len() < n_max
            },
            PoolEvent::Pruned { idle } => idle.len() <= size,
        }
    }

    /// How many of the workers that `self` evicts it does not replace.
    pub open spec fn unreplaced(self) -> nat {
        match self {
            PoolEvent::CheckedOut { idle, new } => {
                let out = crate::plumber::checkout(idle, new);
                if out.made && out.evicted.len() > 0 {
                    (out.evicted.len() - 1) as nat
                } else {
                    out.evicted.len()
                }
            },
            PoolEvent::Pruned { .. } => 0,
        }
    }
}

/// The size of a pool after `history`, in order.
pub open spec fn size_after(
    size: nat,
    n_min: nat,
    max_age_secs: u64,
    history: Seq<PoolEvent>,
) -> int
    decreases history.len(),
{
    if history.len() == 0 {
        size as int
    } else {
        history.last().size_after(
            size_after(size, n_min, max_age_secs, history.drop_last()),
            n_min,
            max_age_secs,
        )
    }
}

/// Whether a pool with room for `n_max` workers can have the `history`.
pub open spec fn is_history(
    size: nat,
    n_min: nat,
    n_max: nat,
    max_age_secs: u64,
    history: Seq<PoolEvent>,
) -> bool
    decreases history.len(),
{
    history.len() > 0 ==> {
        &&& is_history(size, n_min, n_max, max_age_secs, history.drop_last())
        &&& history.last().can_happen(
            size_after(size, n_min, max_age_secs, history.drop_last()),
            n_max,
        )
    }
}

/// How many workers were evicted in the course of `history` and not replaced by
/// the checkout that evicted them.
pub open spec fn unreplaced(history: Seq<PoolEvent>) -> nat
    decreases history.len(),
{
    if history.len() == 0 {
        0
    } else {
        unreplaced(history.drop_last()) + history.last().unreplaced()
    }
}

/// What a checkout does to a pool: it loses the workers that did not accept a
/// connection, and gains one exactly where none of those it offered did and a new
/// one could be made.
pub proof fn law_checkout_changes_size(
    size: int,
    idle: Seq<(Plumber, Probe)>,
    new: Option<Plumber>,
)
    ensures
        ({
            let out = crate::plumber::checkout(idle, new);
            let after = checked_out_size(size, out);
            &&& out.evicted.len() <= idle.len()
            &&& out.evicted.len() < idle.len() || new is None ==> after == size
                - out.evicted.len()
            &&& out.evicted.len() == idle.len() && new is Some ==> after == size - idle.len() + 1
        }),
{
    crate::plumber::law_checkout_passes_over_dead_workers(idle, new);
}

/// `n_min` is a floor: a pool that has reached it never has fewer workers, no
/// matter how many expire, nor how often it is pruned, but for those that a
/// checkout evicted and did not replace. Where every checkout replaces what it
/// evicts, it has `n_min` at all times.
pub proof fn law_n_min_is_a_floor(
    size: nat,
    n_min: nat,
    n_max: nat,
    max_age_secs: u64,
    history: Seq<PoolEvent>,
)
    requires
        size >= n_min,
        is_history(size, n_min, n_max, max_age_secs, history),
    ensures
        size_after(size, n_min, max_age_secs, history) >= 0,
        size_after(size, n_min, max_age_secs, history) + unreplaced(history) >= n_min,
        unreplaced(history) == 0 ==> size_after(size, n_min, max_age_secs, history) >= n_min,
    decreases history.len(),
{
    if history.len() > 0 {
        law_n_min_is_a_floor(size, n_min, n_max, max_age_secs, history.drop_last());
        if let PoolEvent::CheckedOut { idle, new } = history.last() {
            crate::plumber::law_checkout_passes_over_dead_workers(idle, new);
        }
    }
}

/// A checkout that comes across one dead worker at most and can make another
/// keeps the floor: what it evicts, it replaces.
pub proof fn law_one_dead_worker_is_replaced(idle: Seq<(Plumber, Probe)>, new: Option<Plumber>)
    requires
        idle.len() <= 1,
        new is Some,
    ensures
        (PoolEvent::CheckedOut { idle, new }).unreplaced() == 0,
{
    crate::plumber::law_checkout_passes_over_dead_workers(idle, new);
}

/// `n_max` is a ceiling: a pool that begins within it never exceeds it.
pub proof fn law_n_max_is_a_ceiling(
    size: nat,
    n_min: nat,
    n_max: nat,
    max_age_secs: u64,
    history: Seq<PoolEvent>,
)
    requires
        size <= n_max,
        is_history(size, n_min, n_max, max_age_secs, history),
    ensures
        0 <= size_after(size, n_min, max_age_secs, history) <= n_max,
    decreases history.len(),
{
    if history.len() > 0 {
        law_n_max_is_a_ceiling(size, n_min, n_max, max_age_secs, history.drop_last());
        if let PoolEvent::CheckedOut { idle, new } = history.last() {
            crate::plumber::law_checkout_passes_over_dead_workers(idle, new);
        }
    }
}

/// How many workers are started lies between bounds that leave one number: at
/// least one, at least as many as are asked for unless the pool is full, and no
/// more than are asked for or than the pool can hold, except for the one.
pub proof fn law_warm_target_is_within_bounds(n_min: usize, n_max: usize, target: usize)
    requires
        call_ensures(warm_target, (n_min, n_max), target),
    ensures
        target >= 1,
        target >= n_min || target >= n_max,
        target > 1 ==> target <= n_min && target <= n_max,
{
}

/// The count of the first workers goes by one with each worker that came, and
/// stays with anything else, and without an outcome it is zero.
pub proof fn law_each_worker_counts_once(
    outcomes: Vec<WarmOutcome>,
    count: usize,
    longer: Vec<WarmOutcome>,
    outcome: WarmOutcome,
    longer_count: usize,
)
    requires
        call_ensures(warm_workers, (&outcomes,), count),
        call_ensures(warm_workers, (&longer,), longer_count),
        longer@ == outcomes@.push(outcome),
    ensures
        outcomes@.len() == 0 ==> count == 0,
        outcome == WarmOutcome::Worker ==> longer_count == count + 1,
        outcome != WarmOutcome::Worker ==> longer_count == count,
{
    reveal(Seq::filter);
    assert(longer@.drop_last() =~= outcomes@);
}

/// A pass is made exactly over a pool that is larger than what is to be kept, with
/// the idle time that was given, and what it may let go is what the pool has over
/// that.
pub proof fn law_pass_may_let_go_the_surplus(
    size: usize,
    n_min: usize,
    max_age_secs: u64,
    pass: Option<PrunePass>,
)
    requires
        call_ensures(PrunePass::begin, (size, n_min, max_age_secs), pass),
    ensures
        pass is Some <==> size > n_min,
        pass matches Some(p) ==> {
            &&& p.removable + n_min == size
            &&& p.removed == 0
            &&& p.max_age_secs == max_age_secs
        },
{
}

/// A worker is let go exactly where it has been idle for the whole of the time
/// that was given, to the nanosecond, and the pass may let go another. It is then
/// counted, and nothing else changes.
pub proof fn law_worker_is_kept_until_its_time_is_up(
    pass: &mut PrunePass,
    last_used_nanos: u128,
    keep: bool,
)
    requires
        call_ensures(PrunePass::retain, (pass, last_used_nanos), keep),
    ensures
        last_used_nanos < old(pass).max_age_secs * 1_000_000_000 ==> keep,
        old(pass).removed >= old(pass).removable ==> keep,
        keep ==> last_used_nanos < old(pass).max_age_secs * 1_000_000_000 || old(pass).removed
            >= old(pass).removable,
        keep ==> *final(pass) == *old(pass),
        !keep ==> final(pass).removed == old(pass).removed + 1,
        final(pass).removable == old(pass).removable,
        final(pass).max_age_secs == old(pass).max_age_secs,
{
}

/// Patience only keeps: a worker that is let go after some idle time is let go
/// after any longer one, and would be under any shorter `max_age`.
pub proof fn law_longer_idle_is_no_reason_to_stay(
    pass: &mut PrunePass,
    last_used_nanos: u128,
    keep: bool,
    other: &mut PrunePass,
    other_nanos: u128,
    other_keep: bool,
)
    requires
        call_ensures(PrunePass::retain, (pass, last_used_nanos), keep),
        call_ensures(PrunePass::retain, (other, other_nanos), other_keep),
        other_nanos >= last_used_nanos,
        old(other).max_age_secs <= old(pass).max_age_secs,
        old(other).removable == old(pass).removable,
        old(other).removed == old(pass).removed,
    ensures
        !keep ==> !other_keep,
{
}

} // verus!
