//! Oldest-first eviction that keeps a folder under a size budget.
//!
//! The folder itself is the index: the caller lists it into a sequence of
//! [`StoredEntry`] values, asks [`eviction_plan`] which of them to remove, and
//! removes them in the order given.
use vstd::prelude::*;

verus! {

/// One file found in the storage folder.
///
/// `len` is `None` when the file's metadata could not be read; such a file
/// counts for nothing and is never removed. `created` is the creation time in
/// nanoseconds after the Unix epoch, `None` when it could not be read, in which
/// case the file is taken to be as old as the epoch itself.
#[derive(Debug, Clone, PartialEq, Eq)]
pub struct StoredEntry {
    pub name: String,
    pub len: Option<u64>,
    pub created: Option<u64>,
}

/// Whether the entry's size is known.
pub open spec fn readable(e: StoredEntry) -> bool {
    e.len is Some
}

/// The bytes an entry counts for.
pub open spec fn size_of(e: StoredEntry) -> int {
    match e.len {
        Some(n) => n as int,
        None => 0,
    }
}

/// The age key of an entry: its creation time, or the epoch when unknown.
pub open spec fn age_of(e: StoredEntry) -> int {
    match e.created {
        Some(t) => t as int,
        None => 0,
    }
}

/// Whether entry `i` goes before entry `j` in eviction order: it is older, or
/// as old and listed first.
pub open spec fn evicted_before(entries: Seq<StoredEntry>, i: int, j: int) -> bool {
    ||| age_of(entries[i]) < age_of(entries[j])
    ||| (age_of(entries[i]) == age_of(entries[j]) && i < j)
}

/// The bytes occupied by a sequence of entries.
pub open spec fn total_size(entries: Seq<StoredEntry>) -> int
    decreases entries.len(),
{
    if entries.len() == 0 {
        0
    } else {
        total_size(entries.drop_last()) + size_of(entries.last())
    }
}

/// The bytes freed by removing the entries at the indices of `plan`.
pub open spec fn plan_size(entries: Seq<StoredEntry>, plan: Seq<usize>) -> int
    decreases plan.len(),
{
    if plan.len() == 0 {
        0
    } else {
        plan_size(entries, plan.drop_last()) + size_of(entries[plan.last() as int])
    }
}

/// Whether index `i` is listed in `plan`.
pub open spec fn in_plan(plan: Seq<usize>, i: int) -> bool {
    exists|w: int| 0 <= w < plan.len() && plan[w] as int == i
}

/// The entries among the first `k` whose index is not in `plan`, in order.
pub open spec fn survivors_upto(entries: Seq<StoredEntry>, plan: Seq<usize>, k: int) -> Seq<
    StoredEntry,
>
    decreases k,
{
    if k <= 0 {
        Seq::empty()
    } else if in_plan(plan, k - 1) {
        survivors_upto(entries, plan, k - 1)
    } else {
        survivors_upto(entries, plan, k - 1).push(entries[k - 1])
    }
}

/// What the folder holds once the entries at the indices of `plan` are removed.
pub open spec fn survivors(entries: Seq<StoredEntry>, plan: Seq<usize>) -> Seq<StoredEntry> {
    survivors_upto(entries, plan, entries.len() as int)
}

/// `plan` lists the entries to remove, in removal order, so that the folder
/// fits in `budget` bytes:
/// - only readable entries are removed, each at most once, oldest first;
/// - every readable entry that stays is younger than every removed one;
/// - what stays fits in the budget;
/// - removal stops as soon as it fits: without the last removal it would not.
pub open spec fn is_eviction_plan(entries: Seq<StoredEntry>, budget: int, plan: Seq<usize>) -> bool {
    &&& forall|k: int|
        0 <= k < plan.len() ==> #[trigger] plan[k] < entries.len() && readable(
            entries[plan[k] as int],
        )
    &&& forall|k1: int, k2: int|
        0 <= k1 < k2 < plan.len() ==> evicted_before(
            entries,
            #[trigger] plan[k1] as int,
            #[trigger] plan[k2] as int,
        )
    &&& forall|k: int, j: int|
        0 <= k < plan.len() && 0 <= j < entries.len() && readable(entries[j]) && !in_plan(plan, j) ==> #[trigger] evicted_before(entries, plan[k] as int, j)
    &&& total_size(entries) - plan_size(entries, plan) <= budget
    &&& plan.len() > 0 ==> total_size(entries) - plan_size(entries, plan.drop_last()) > budget
}

/// The bytes of the first `k` entries whose index is not in `plan`.
spec fn kept_size(entries: Seq<StoredEntry>, plan: Seq<usize>, k: int) -> int
    decreases k,
{
    if k <= 0 {
        0
    } else {
        kept_size(entries, plan, k - 1) + if in_plan(plan, k - 1) {
            0
        } else {
            size_of(entries[k - 1])
        }
    }
}

/// The number of readable entries among the first `k` whose index is not in `plan`.
spec fn pending(entries: Seq<StoredEntry>, plan: Seq<usize>, k: int) -> nat
    decreases k,
{
    if k <= 0 {
        0
    } else {
        pending(entries, plan, k - 1) + if readable(entries[k - 1]) && !in_plan(plan, k - 1) {
            1nat
        } else {
            0nat
        }
    }
}

proof fn lemma_size_nonneg(e: StoredEntry)
    ensures
        size_of(e) >= 0,
{
}

proof fn lemma_plan_size_nonneg(entries: Seq<StoredEntry>, plan: Seq<usize>)
    ensures
        plan_size(entries, plan) >= 0,
    decreases plan.len(),
{
    if plan.len() > 0 {
        lemma_plan_size_nonneg(entries, plan.drop_last());
    }
}

/// Taking one more index into the plan lowers the kept bytes by that entry's size
/// and the pending count by one when that entry is readable.
proof fn lemma_take_one(entries: Seq<StoredEntry>, plan: Seq<usize>, b: usize, k: int)
    requires
        !in_plan(plan, b as int),
        0 <= k,
    ensures
        kept_size(entries, plan.push(b), k) == kept_size(entries, plan, k) - if (b as int) < k {
            size_of(entries[b as int])
        } else {
            0
        },
        pending(entries, plan.push(b), k) == pending(entries, plan, k) - if (b as int) < k
            && readable(entries[b as int]) {
            1int
        } else {
            0
        },
    decreases k,
{
    if k > 0 {
        lemma_take_one(entries, plan, b, k - 1);
        lemma_push_contains(plan, b, k - 1);
    }
}

proof fn lemma_kept_nonneg(entries: Seq<StoredEntry>, plan: Seq<usize>, k: int)
    ensures
        kept_size(entries, plan, k) >= 0,
    decreases k,
{
    if k > 0 {
        lemma_kept_nonneg(entries, plan, k - 1);
    }
}

/// With nothing in the plan, the kept bytes are all the bytes.
proof fn lemma_kept_all(entries: Seq<StoredEntry>, k: int)
    requires
        0 <= k <= entries.len(),
    ensures
        kept_size(entries, Seq::empty(), k) == total_size(entries.take(k)),
    decreases k,
{
    if k > 0 {
        lemma_kept_all(entries, k - 1);
        assert(entries.take(k).drop_last() =~= entries.take(k - 1));
    }
}

/// The kept bytes are what remains after the plan's bytes are taken away.
proof fn lemma_kept_plan(entries: Seq<StoredEntry>, plan: Seq<usize>)
    requires
        plan.no_duplicates(),
        forall|k: int| 0 <= k < plan.len() ==> #[trigger] plan[k] < entries.len(),
    ensures
        kept_size(entries, plan, entries.len() as int) == total_size(entries) - plan_size(
            entries,
            plan,
        ),
    decreases plan.len(),
{
    if plan.len() == 0 {
        assert(plan =~= Seq::empty());
        lemma_kept_all(entries, entries.len() as int);
        assert(entries.take(entries.len() as int) =~= entries);
    } else {
        let rest = plan.drop_last();
        assert(rest.push(plan.last()) =~= plan);
        assert(!in_plan(rest, plan.last() as int)) by {
            if in_plan(rest, plan.last() as int) {
                let w = choose|w: int| 0 <= w < rest.len() && rest[w] as int == plan.last() as int;
                assert(plan[w] == plan[plan.len() - 1]);
            }
        }
        assert forall|k: int| 0 <= k < rest.len() implies #[trigger] rest[k] < entries.len() by {
            assert(rest[k] == plan[k]);
        }
        assert(rest.no_duplicates()) by {
            assert forall|i: int, j: int|
                0 <= i < rest.len() && 0 <= j < rest.len() && i != j implies rest[i]
                != rest[j] by {
                assert(rest[i] == plan[i] && rest[j] == plan[j]);
            }
        }
        lemma_kept_plan(entries, rest);
        lemma_take_one(entries, rest, plan.last(), entries.len() as int);
    }
}

/// The survivors occupy exactly the kept bytes.
proof fn lemma_survivors_size(entries: Seq<StoredEntry>, plan: Seq<usize>, k: int)
    requires
        0 <= k <= entries.len(),
    ensures
        total_size(survivors_upto(entries, plan, k)) == kept_size(entries, plan, k),
    decreases k,
{
    if k > 0 {
        lemma_survivors_size(entries, plan, k - 1);
        let s = survivors_upto(entries, plan, k - 1);
        assert(s.push(entries[k - 1]).drop_last() =~= s);
    }
}

/// With no readable entry pending, nothing is kept.
proof fn lemma_nothing_pending(entries: Seq<StoredEntry>, plan: Seq<usize>, k: int)
    requires
        0 <= k <= entries.len(),
        pending(entries, plan, k) == 0,
    ensures
        kept_size(entries, plan, k) == 0,
    decreases k,
{
    if k > 0 {
        lemma_nothing_pending(entries, plan, k - 1);
    }
}

/// A plan never removes the same entry twice.
proof fn lemma_plan_distinct(entries: Seq<StoredEntry>, budget: int, plan: Seq<usize>)
    requires
        is_eviction_plan(entries, budget, plan),
    ensures
        plan.no_duplicates(),
{
    assert forall|i: int, j: int| 0 <= i < plan.len() && 0 <= j < plan.len() && i != j implies plan[i]
        != plan[j] by {
        if i < j {
            assert(evicted_before(entries, plan[i] as int, plan[j] as int));
        } else {
            assert(evicted_before(entries, plan[j] as int, plan[i] as int));
        }
    }
}

/// After the removals of an eviction plan the folder fits in the budget.
pub proof fn lemma_eviction_fits(entries: Seq<StoredEntry>, budget: int, plan: Seq<usize>)
    requires
        is_eviction_plan(entries, budget, plan),
    ensures
        total_size(survivors(entries, plan)) <= budget,
{
    lemma_plan_distinct(entries, budget, plan);
    lemma_kept_plan(entries, plan);
    lemma_survivors_size(entries, plan, entries.len() as int);
}

/// Enforcing the budget a second time, with nothing written in between, removes
/// nothing: the first pass already made the folder fit.
pub proof fn lemma_eviction_idempotent(
    entries: Seq<StoredEntry>,
    budget: int,
    first: Seq<usize>,
    second: Seq<usize>,
)
    requires
        is_eviction_plan(entries, budget, first),
        is_eviction_plan(survivors(entries, first), budget, second),
    ensures
        second.len() == 0,
{
    lemma_eviction_fits(entries, budget, first);
    if second.len() > 0 {
        lemma_plan_size_nonneg(survivors(entries, first), second.drop_last());
    }
}

/// A folder that already fits loses nothing.
pub proof fn lemma_eviction_noop(entries: Seq<StoredEntry>, budget: int, plan: Seq<usize>)
    requires
        is_eviction_plan(entries, budget, plan),
        total_size(entries) <= budget,
    ensures
        plan.len() == 0,
{
    if plan.len() > 0 {
        lemma_plan_size_nonneg(entries, plan.drop_last());
    }
}

/// The bytes occupied by all readable entries.
fn occupied(entries: &Vec<StoredEntry>) -> (total: u128)
    ensures
        total == total_size(entries@),
{
    let mut total: u128 = 0;
    let mut i: usize = 0;
    while i < entries.len()
        invariant
            i <= entries.len(),
            total == total_size(entries@.take(i as int)),
            total <= i * 0xFFFF_FFFF_FFFF_FFFFu128,
        decreases entries.len() - i,
    {
        assert(entries@.take(i + 1).drop_last() =~= entries@.take(i as int));
        proof {
            lemma_size_nonneg(entries@[i as int]);
            assert((i + 1) * 0xFFFF_FFFF_FFFF_FFFFu128 <= 0x1_0000_0000_0000_0000 * 0xFFFF_FFFF_FFFF_FFFFu128)
                by (nonlinear_arith)
                requires
                    i < 0x1_0000_0000_0000_0000,
            ;
            assert((i + 1) * 0xFFFF_FFFF_FFFF_FFFFu128 == i * 0xFFFF_FFFF_FFFF_FFFFu128
                + 0xFFFF_FFFF_FFFF_FFFFu128) by (nonlinear_arith);
        }
        match entries[i].len {
            Some(n) => {
                total = total + n as u128;
            },
            None => {},
        }
        i = i + 1;
    }
    assert(entries@.take(i as int) =~= entries@);
    total
}

/// Which entries to remove, in removal order, so that the folder fits in
/// `budget` bytes: the oldest readable entry first, then the next oldest, until
/// what remains fits. A folder that already fits loses nothing.
pub fn eviction_plan(entries: &Vec<StoredEntry>, budget: u64) -> (plan: Vec<usize>)
    ensures
        is_eviction_plan(entries@, budget as int, plan@),
{
    let n = entries.len();
    let total = occupied(entries);
    let mut remaining = total;
    let mut plan: Vec<usize> = Vec::new();
    let mut taken: Vec<bool> = Vec::new();
    let mut i: usize = 0;
    while i < n
        invariant
            n == entries.len(),
            i <= n,
            taken.len() == i,
            forall|j: int| 0 <= j < i ==> !#[trigger] taken@[j],
        decreases n - i,
    {
        taken.push(false);
        i = i + 1;
    }
    proof {
        lemma_kept_all(entries@, n as int);
        assert(entries@.take(n as int) =~= entries@);
    }
    while remaining > budget as u128
        invariant
            n == entries.len(),
            taken.len() == n,
            forall|j: int| 0 <= j < n ==> #[trigger] taken@[j] == in_plan(plan@, j),
            forall|k: int|
                0 <= k < plan.len() ==> #[trigger] plan@[k] < n && readable(
                    entries@[plan@[k] as int],
                ),
            forall|k1: int, k2: int|
                0 <= k1 < k2 < plan.len() ==> evicted_before(
                    entries@,
                    #[trigger] plan@[k1] as int,
                    #[trigger] plan@[k2] as int,
                ),
            forall|k: int, j: int|
                0 <= k < plan.len() && 0 <= j < n && readable(entries@[j]) && !in_plan(plan@, j) ==> #[trigger] evicted_before(entries@, plan@[k] as int, j),
            total == total_size(entries@),
            remaining == kept_size(entries@, plan@, n as int),
            plan.len() > 0 ==> total_size(entries@) - plan_size(entries@, plan@.drop_last())
                > budget,
            remaining == total_size(entries@) - plan_size(entries@, plan@),
        ensures
            remaining <= budget,
        decreases pending(entries@, plan@, n as int),
    {
        let mut best: Option<usize> = None;
        let mut j: usize = 0;
        while j < n
            invariant
                n == entries.len(),
                taken.len() == n,
                j <= n,
                forall|q: int| 0 <= q < n ==> #[trigger] taken@[q] == in_plan(plan@, q),
                match best {
                    Some(b) => {
                        &&& b < j
                        &&& readable(entries@[b as int])
                        &&& !in_plan(plan@, b as int)
                        &&& forall|q: int|
                            0 <= q < j && q != b && readable(entries@[q]) && !in_plan(plan@, q) ==> evicted_before(entries@, b as int, q)
                    },
                    None => forall|q: int|
                        0 <= q < j ==> !(readable(#[trigger] entries@[q]) && !in_plan(plan@, q)),
                },
            decreases n - j,
        {
            if !taken[j] {
                if let Some(l) = entries[j].len {
                    best = match best {
                        None => Some(j),
                        Some(b) => {
                            let age_b = match entries[b].created {
                                Some(t) => t,
                                None => 0,
                            };
                            let age_j = match entries[j].created {
                                Some(t) => t,
                                None => 0,
                            };
                            if age_j < age_b {
                                Some(j)
                            } else {
                                Some(b)
                            }
                        },
                    };
                }
            }
            j = j + 1;
        }
        match best {
            None => {
                proof {
                    assert(pending(entries@, plan@, n as int) == 0) by {
                        lemma_no_pending(entries@, plan@, n as int);
                    }
                    lemma_nothing_pending(entries@, plan@, n as int);
                }
                break ;
            },
            Some(b) => {
                let ghost old_plan = plan@;
                proof {
                    lemma_take_one(entries@, old_plan, b, n as int);
                    lemma_size_nonneg(entries@[b as int]);
                    lemma_kept_nonneg(entries@, old_plan.push(b), n as int);
                }
                let size = match entries[b].len {
                    Some(s) => s,
                    None => 0,
                };
                plan.push(b);
                taken.set(b, true);
                remaining = remaining - size as u128;
                proof {
                    assert(plan@.drop_last() =~= old_plan);
                    assert forall|q: int| 0 <= q < n implies #[trigger] taken@[q] == in_plan(plan@, q) by {
                        if q as usize == b {
                            assert(plan@[old_plan.len() as int] == b);
                        } else {
                            lemma_push_contains(old_plan, b, q);
                        }
                    }
                    assert forall|k: int, q: int|
                        0 <= k < plan.len() && 0 <= q < n && readable(entries@[q])
                            && !in_plan(plan@, q) implies #[trigger] evicted_before(
                        entries@,
                        plan@[k] as int,
                        q,
                    ) by {
                        lemma_push_contains(old_plan, b, q);
                        if q as usize == b {
                            assert(plan@[old_plan.len() as int] == b);
                        }
                        if k < old_plan.len() {
                            assert(plan@[k] == old_plan[k]);
                        }
                    }
                    assert forall|k1: int, k2: int|
                        0 <= k1 < k2 < plan.len() implies evicted_before(
                        entries@,
                        #[trigger] plan@[k1] as int,
                        #[trigger] plan@[k2] as int,
                    ) by {
                        assert(plan@[k1] == old_plan[k1]);
                        if k2 < old_plan.len() {
                            assert(plan@[k2] == old_plan[k2]);
                        }
                    }
                }
            },
        }
    }
    plan
}

proof fn lemma_push_contains(plan: Seq<usize>, b: usize, q: int)
    ensures
        in_plan(plan.push(b), q) <==> in_plan(plan, q) || q == b as int,
{
    if in_plan(plan.push(b), q) {
        let w = choose|w: int| 0 <= w < plan.push(b).len() && plan.push(b)[w] as int == q;
        if w < plan.len() {
            assert(plan[w] == plan.push(b)[w]);
        }
    }
    if in_plan(plan, q) {
        let w = choose|w: int| 0 <= w < plan.len() && plan[w] as int == q;
        assert(plan.push(b)[w] == plan[w]);
    }
    if q == b as int {
        assert(plan.push(b)[plan.len() as int] == b);
    }
}

/// With no readable entry outside the plan among the first `k`, none is pending.
proof fn lemma_no_pending(entries: Seq<StoredEntry>, plan: Seq<usize>, k: int)
    requires
        0 <= k <= entries.len(),
        forall|q: int|
            0 <= q < k ==> !(readable(#[trigger] entries[q]) && !in_plan(plan, q)),
    ensures
        pending(entries, plan, k) == 0,
    decreases k,
{
    if k > 0 {
        lemma_no_pending(entries, plan, k - 1);
    }
}

} // verus!
