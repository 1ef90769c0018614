//! Vesting schedules: the `Vest` entry, its ordering by unlock date, and the
//! sums the escrow keeps track of.

use vstd::prelude::*;
use crate::errors::ErrorCode;

verus! {

/// One scheduled unlock: `amount` becomes claimable once `unlock_date`
/// (seconds) has been reached.
#[derive(Clone, Copy, Debug, PartialEq, Eq, Structural)]
pub struct Vest {
    /// The amount that unlocks at the date.
    pub amount: u64,
    /// The current unlock date.
    pub unlock_date: i64,
    /// Whether the amount has been released to the destination.
    pub claimed: bool,
}

/// Dates never decrease along the schedule.
pub open spec fn sorted_by_date(s: Seq<Vest>) -> bool {
    forall|i: int, j: int| 0 <= i <= j < s.len() ==> s[i].unlock_date <= s[j].unlock_date
}

/// `s` with `v` placed after every entry whose date is not later than its own.
pub open spec fn insert_by_date(s: Seq<Vest>, v: Vest) -> Seq<Vest>
    decreases s.len(),
{
    if s.len() == 0 {
        seq![v]
    } else if s.last().unlock_date <= v.unlock_date {
        s.push(v)
    } else {
        insert_by_date(s.drop_last(), v).push(s.last())
    }
}

/// The canonical order of a schedule: a stable sort by unlock date, so that
/// entries with equal dates keep their submission order.
pub open spec fn canonical(s: Seq<Vest>) -> Seq<Vest>
    decreases s.len(),
{
    if s.len() == 0 {
        s
    } else {
        insert_by_date(canonical(s.drop_last()), s.last())
    }
}

/// Sum of all amounts.
pub open spec fn total_amount(s: Seq<Vest>) -> int
    decreases s.len(),
{
    if s.len() == 0 {
        0
    } else {
        total_amount(s.drop_last()) + s.last().amount
    }
}

/// Sum of the amounts not yet released: what the vault holds.
pub open spec fn unclaimed_amount(s: Seq<Vest>) -> int
    decreases s.len(),
{
    if s.len() == 0 {
        0
    } else {
        unclaimed_amount(s.drop_last()) + if s.last().claimed {
            0
        } else {
            s.last().amount as int
        }
    }
}

/// Whether `v` is released by a claim at time `now`.
pub open spec fn is_due(v: Vest, now: i64) -> bool {
    !v.claimed && v.unlock_date <= now
}

/// Sum of the amounts that a claim at time `now` releases.
pub open spec fn due_amount(s: Seq<Vest>, now: i64) -> int
    decreases s.len(),
{
    if s.len() == 0 {
        0
    } else {
        due_amount(s.drop_last(), now) + if is_due(s.last(), now) {
            s.last().amount as int
        } else {
            0
        }
    }
}

/// `v` after a claim at time `now`.
pub open spec fn claim_vest(v: Vest, now: i64) -> Vest {
    if is_due(v, now) {
        Vest { claimed: true, ..v }
    } else {
        v
    }
}

/// The schedule after a claim at time `now`: every due entry is marked claimed.
pub open spec fn claimed_at(s: Seq<Vest>, now: i64) -> Seq<Vest> {
    s.map_values(|v: Vest| claim_vest(v, now))
}

/// The amounts, entry by entry.
pub open spec fn amounts(s: Seq<Vest>) -> Seq<u64> {
    s.map_values(|v: Vest| v.amount)
}

/// `v` as a freshly created entry: nothing claimed yet.
pub open spec fn unclaimed_vest(v: Vest) -> Vest {
    Vest { claimed: false, ..v }
}

/// The schedule as submitted at creation, with every claimed flag cleared.
pub open spec fn fresh(s: Seq<Vest>) -> Seq<Vest> {
    s.map_values(|v: Vest| unclaimed_vest(v))
}

/// Why replacing `o` by `n` at time `now` is refused, if it is.
pub open spec fn vest_update_error(o: Vest, n: Vest, now: i64) -> Option<ErrorCode> {
    if n.amount != o.amount {
        Some(ErrorCode::CannotChangeAmount)
    } else if n.unlock_date <= now {
        Some(ErrorCode::NewDateMustBeInTheFuture)
    } else if n.unlock_date < o.unlock_date {
        Some(ErrorCode::NewDateMustBeLaterThanCurrent)
    } else {
        None
    }
}

/// The first refusal among the entries from index `i` on.
pub open spec fn first_update_error(old: Seq<Vest>, new: Seq<Vest>, now: i64, i: int) -> Option<
    ErrorCode,
>
    decreases old.len() - i,
{
    if i < 0 || i >= old.len() {
        None
    } else {
        match vest_update_error(old[i], new[i], now) {
            Some(e) => Some(e),
            None => first_update_error(old, new, now, i + 1),
        }
    }
}

/// Why the canonical schedule `new` cannot replace `old` at time `now`, if it
/// cannot: the lengths differ, or the first entry that changes an amount,
/// is not in the future, or moves earlier.
pub open spec fn update_error(old: Seq<Vest>, new: Seq<Vest>, now: i64) -> Option<ErrorCode> {
    if old.len() != new.len() {
        Some(ErrorCode::LengthMismatch)
    } else {
        first_update_error(old, new, now, 0)
    }
}

/// The schedule after an update: dates and amounts of `new`, claimed flags
/// of `old`, index by index.
pub open spec fn rescheduled(old: Seq<Vest>, new: Seq<Vest>) -> Seq<Vest> {
    Seq::new(
        new.len(),
        |i: int| Vest { amount: new[i].amount, unlock_date: new[i].unlock_date, claimed: old[i].claimed },
    )
}

// ---------------------------------------------------------------- lemmas

/// Inserting walks back over the entries that are later than `v`.
proof fn lemma_insert_at(s: Seq<Vest>, v: Vest, j: int)
    requires
        0 <= j <= s.len(),
        forall|k: int| j <= k < s.len() ==> s[k].unlock_date > v.unlock_date,
        j == 0 || s[j - 1].unlock_date <= v.unlock_date,
    ensures
        insert_by_date(s, v) == s.insert(j, v),
    decreases s.len(),
{
    if s.len() == 0 {
        assert(s.insert(j, v) =~= seq![v]);
    } else if s.last().unlock_date <= v.unlock_date {
        assert(j == s.len());
        assert(s.insert(j, v) =~= s.push(v));
    } else {
        lemma_insert_at(s.drop_last(), v, j);
        assert(s.insert(j, v) =~= s.drop_last().insert(j, v).push(s.last()));
    }
}

proof fn lemma_insert_len(s: Seq<Vest>, v: Vest)
    ensures
        insert_by_date(s, v).len() == s.len() + 1,
    decreases s.len(),
{
    if s.len() > 0 && s.last().unlock_date > v.unlock_date {
        lemma_insert_len(s.drop_last(), v);
    }
}

/// Every entry of the insertion is `v` or an entry of `s`.
proof fn lemma_insert_elems(s: Seq<Vest>, v: Vest)
    ensures
        forall|i: int|
            0 <= i < insert_by_date(s, v).len() ==> #[trigger] insert_by_date(s, v)[i] == v
                || s.contains(insert_by_date(s, v)[i]),
    decreases s.len(),
{
    lemma_insert_len(s, v);
    if s.len() > 0 && s.last().unlock_date > v.unlock_date {
        let t = s.drop_last();
        lemma_insert_elems(t, v);
        assert forall|i: int| 0 <= i < insert_by_date(s, v).len() implies #[trigger] insert_by_date(
            s,
            v,
        )[i] == v || s.contains(insert_by_date(s, v)[i]) by {
            lemma_insert_len(t, v);
            if i < insert_by_date(t, v).len() {
                let x = insert_by_date(t, v)[i];
                if x != v {
                    let k = choose|k: int| 0 <= k < t.len() && t[k] == x;
                    assert(s[k] == x);
                }
            } else {
                assert(s[s.len() - 1] == s.last());
            }
        }
    }
}

proof fn lemma_insert_sorted(s: Seq<Vest>, v: Vest)
    requires
        sorted_by_date(s),
    ensures
        sorted_by_date(insert_by_date(s, v)),
    decreases s.len(),
{
    if s.len() > 0 && s.last().unlock_date > v.unlock_date {
        let t = s.drop_last();
        lemma_insert_sorted(t, v);
        lemma_insert_elems(t, v);
        lemma_insert_len(t, v);
        let r = insert_by_date(t, v);
        assert forall|i: int| 0 <= i < r.len() implies #[trigger] r[i].unlock_date
            <= s.last().unlock_date by {
            if r[i] != v {
                let k = choose|k: int| 0 <= k < t.len() && t[k] == r[i];
                assert(s[k] == t[k]);
            }
        }
    }
}

/// The canonical order is sorted by date.
pub proof fn lemma_canonical_sorted(s: Seq<Vest>)
    ensures
        sorted_by_date(canonical(s)),
        canonical(s).len() == s.len(),
    decreases s.len(),
{
    if s.len() > 0 {
        lemma_canonical_sorted(s.drop_last());
        lemma_insert_sorted(canonical(s.drop_last()), s.last());
        lemma_insert_len(canonical(s.drop_last()), s.last());
    }
}

/// A schedule already sorted by date is its own canonical order.
pub proof fn lemma_canonical_of_sorted(s: Seq<Vest>)
    requires
        sorted_by_date(s),
    ensures
        canonical(s) == s,
    decreases s.len(),
{
    if s.len() > 0 {
        let t = s.drop_last();
        assert(sorted_by_date(t));
        lemma_canonical_of_sorted(t);
        assert(s.last() == s[s.len() - 1]);
        if t.len() > 0 {
            assert(t.last() == s[t.len() - 1]);
        }
        assert(t.push(s.last()) =~= s);
    }
}

/// Canonicalizing twice gives what canonicalizing once gives.
pub proof fn lemma_canonical_idempotent(s: Seq<Vest>)
    ensures
        canonical(canonical(s)) == canonical(s),
{
    lemma_canonical_sorted(s);
    lemma_canonical_of_sorted(canonical(s));
}

proof fn lemma_insert_total(s: Seq<Vest>, v: Vest)
    ensures
        total_amount(insert_by_date(s, v)) == total_amount(s) + v.amount,
    decreases s.len(),
{
    if s.len() == 0 {
        assert(seq![v].drop_last() =~= Seq::<Vest>::empty());
        assert(seq![v].last() == v);
        assert(total_amount(Seq::<Vest>::empty()) == 0);
    } else if s.last().unlock_date <= v.unlock_date {
        assert(s.push(v).drop_last() =~= s);
    } else {
        lemma_insert_total(s.drop_last(), v);
        assert(total_amount(s) == total_amount(s.drop_last()) + s.last().amount);
        assert(insert_by_date(s.drop_last(), v).push(s.last()).drop_last() =~= insert_by_date(
            s.drop_last(),
            v,
        ));
    }
}

/// Reordering into the canonical order keeps the total.
pub proof fn lemma_canonical_total(s: Seq<Vest>)
    ensures
        total_amount(canonical(s)) == total_amount(s),
    decreases s.len(),
{
    if s.len() > 0 {
        lemma_canonical_total(s.drop_last());
        lemma_insert_total(canonical(s.drop_last()), s.last());
    }
}

/// Clearing the claimed flags keeps the total.
pub proof fn lemma_fresh_total(s: Seq<Vest>)
    ensures
        total_amount(fresh(s)) == total_amount(s),
        unclaimed_amount(fresh(s)) == total_amount(s),
    decreases s.len(),
{
    if s.len() > 0 {
        lemma_fresh_total(s.drop_last());
        assert(fresh(s).drop_last() =~= fresh(s.drop_last()));
    }
}

proof fn lemma_insert_unclaimed(s: Seq<Vest>, v: Vest)
    ensures
        unclaimed_amount(insert_by_date(s, v)) == unclaimed_amount(s) + if v.claimed {
            0
        } else {
            v.amount as int
        },
    decreases s.len(),
{
    if s.len() == 0 {
        assert(seq![v].drop_last() =~= Seq::<Vest>::empty());
        assert(seq![v].last() == v);
        assert(unclaimed_amount(Seq::<Vest>::empty()) == 0);
    } else if s.last().unlock_date <= v.unlock_date {
        assert(s.push(v).drop_last() =~= s);
    } else {
        lemma_insert_unclaimed(s.drop_last(), v);
        assert(insert_by_date(s.drop_last(), v).push(s.last()).drop_last() =~= insert_by_date(
            s.drop_last(),
            v,
        ));
    }
}

/// Reordering into the canonical order keeps the unclaimed sum.
pub proof fn lemma_canonical_unclaimed(s: Seq<Vest>)
    ensures
        unclaimed_amount(canonical(s)) == unclaimed_amount(s),
    decreases s.len(),
{
    if s.len() > 0 {
        lemma_canonical_unclaimed(s.drop_last());
        lemma_insert_unclaimed(canonical(s.drop_last()), s.last());
    }
}

/// A freshly created schedule holds its whole total unclaimed.
pub proof fn lemma_canonical_fresh_unclaimed(s: Seq<Vest>)
    ensures
        unclaimed_amount(canonical(fresh(s))) == total_amount(s),
        total_amount(canonical(fresh(s))) == total_amount(s),
{
    lemma_fresh_total(s);
    lemma_canonical_unclaimed(fresh(s));
    lemma_canonical_total(fresh(s));
}

/// With no refusal from index `i` on, every entry from there passes.
pub proof fn lemma_no_update_error(old: Seq<Vest>, new: Seq<Vest>, now: i64, i: int)
    requires
        0 <= i,
        first_update_error(old, new, now, i) is None,
    ensures
        forall|k: int| i <= k < old.len() ==> vest_update_error(old[k], new[k], now) is None,
    decreases old.len() - i,
{
    if i < old.len() {
        lemma_no_update_error(old, new, now, i + 1);
    }
}

/// Two schedules with the same amounts, index by index, have the same total;
/// with the same claimed flags too, the same unclaimed sum.
pub proof fn lemma_same_amounts(a: Seq<Vest>, b: Seq<Vest>)
    requires
        a.len() == b.len(),
        forall|i: int| 0 <= i < a.len() ==> a[i].amount == b[i].amount,
    ensures
        total_amount(a) == total_amount(b),
        (forall|i: int| 0 <= i < a.len() ==> a[i].claimed == b[i].claimed) ==> unclaimed_amount(a)
            == unclaimed_amount(b),
    decreases a.len(),
{
    if a.len() > 0 {
        lemma_same_amounts(a.drop_last(), b.drop_last());
        assert(a.last() == a[a.len() - 1]);
        assert(b.last() == b[b.len() - 1]);
    }
}

/// A prefix totals no more than the whole schedule.
pub proof fn lemma_total_prefix(s: Seq<Vest>, i: int)
    requires
        0 <= i <= s.len(),
    ensures
        total_amount(s.subrange(0, i)) <= total_amount(s),
    decreases s.len() - i,
{
    if i < s.len() {
        lemma_total_prefix(s, i + 1);
        let p = s.subrange(0, i + 1);
        assert(p.drop_last() =~= s.subrange(0, i));
    } else {
        assert(s.subrange(0, i) =~= s);
    }
}

proof fn lemma_due_le_total(s: Seq<Vest>, now: i64)
    ensures
        0 <= due_amount(s, now) <= total_amount(s),
    decreases s.len(),
{
    if s.len() > 0 {
        lemma_due_le_total(s.drop_last(), now);
    }
}

/// A claim releases from the vault exactly what it marks claimed, and keeps
/// the dates, the amounts and the total.
pub proof fn lemma_claim_releases(s: Seq<Vest>, now: i64)
    ensures
        unclaimed_amount(s) == unclaimed_amount(claimed_at(s, now)) + due_amount(s, now),
        total_amount(claimed_at(s, now)) == total_amount(s),
        claimed_at(s, now).len() == s.len(),
        forall|i: int|
            0 <= i < s.len() ==> (#[trigger] claimed_at(s, now)[i]).unlock_date == s[i].unlock_date
                && claimed_at(s, now)[i].amount == s[i].amount,
        sorted_by_date(s) ==> sorted_by_date(claimed_at(s, now)),
    decreases s.len(),
{
    if s.len() > 0 {
        lemma_claim_releases(s.drop_last(), now);
        assert(claimed_at(s, now).drop_last() =~= claimed_at(s.drop_last(), now));
        assert(claimed_at(s, now).last() == claim_vest(s.last(), now));
    }
}

/// A second claim at the same time releases nothing and changes nothing.
pub proof fn lemma_claim_twice(s: Seq<Vest>, now: i64)
    ensures
        claimed_at(claimed_at(s, now), now) == claimed_at(s, now),
        due_amount(claimed_at(s, now), now) == 0,
    decreases s.len(),
{
    assert(claimed_at(claimed_at(s, now), now) =~= claimed_at(s, now));
    if s.len() > 0 {
        lemma_claim_twice(s.drop_last(), now);
        assert(claimed_at(s, now).drop_last() =~= claimed_at(s.drop_last(), now));
    }
}

// ---------------------------------------------------------------- code

/// Places `v` into the sorted position of `out`, after entries of equal date.
fn insert_vest(out: &mut Vec<Vest>, v: Vest)
    ensures
        final(out)@ == insert_by_date(old(out)@, v),
{
    let mut j: usize = out.len();
    while j > 0 && out[j - 1].unlock_date > v.unlock_date
        invariant
            j <= out.len(),
            forall|k: int| j <= k < out.len() ==> out@[k].unlock_date > v.unlock_date,
        decreases j,
    {
        j -= 1;
    }
    proof {
        lemma_insert_at(out@, v, j as int);
    }
    out.insert(j, v);
}

/// Returns the schedule stable-sorted ascending by unlock date: entries with
/// equal dates stay in the order in which they were submitted.
pub fn canonicalize(schedule: &Vec<Vest>) -> (r: Vec<Vest>)
    ensures
        r@ == canonical(schedule@),
        sorted_by_date(r@),
        total_amount(r@) == total_amount(schedule@),
{
    let mut out: Vec<Vest> = Vec::new();
    let mut i: usize = 0;
    while i < schedule.len()
        invariant
            i <= schedule.len(),
            out@ == canonical(schedule@.subrange(0, i as int)),
        decreases schedule.len() - i,
    {
        let ghost before = schedule@.subrange(0, i as int);
        insert_vest(&mut out, schedule[i]);
        proof {
            let after = schedule@.subrange(0, i + 1);
            assert(after.drop_last() =~= before);
            assert(after.last() == schedule@[i as int]);
        }
        i += 1;
    }
    proof {
        assert(schedule@.subrange(0, schedule@.len() as int) =~= schedule@);
        lemma_canonical_sorted(schedule@);
        lemma_canonical_total(schedule@);
    }
    out
}

/// Sums the amounts, or `None` when the sum does not fit in a `u64`.
pub fn checked_total(s: &Vec<Vest>) -> (r: Option<u64>)
    ensures
        r matches Some(t) ==> t == total_amount(s@),
        r is None ==> total_amount(s@) > u64::MAX,
{
    let mut total: u64 = 0;
    let mut i: usize = 0;
    while i < s.len()
        invariant
            i <= s.len(),
            total == total_amount(s@.subrange(0, i as int)),
        decreases s.len() - i,
    {
        proof {
            let p = s@.subrange(0, i + 1);
            assert(p.drop_last() =~= s@.subrange(0, i as int));
            assert(p.last() == s@[i as int]);
        }
        match total.checked_add(s[i].amount) {
            Some(t) => total = t,
            None => {
                proof {
                    lemma_total_prefix(s@, i + 1);
                }
                return None;
            },
        }
        i += 1;
    }
    proof {
        assert(s@.subrange(0, s@.len() as int) =~= s@);
    }
    Some(total)
}

/// Checks a schedule to create: it must not be empty, and its total must fit
/// in a `u64`. Returns the total.
pub fn validate_creation(schedule: &Vec<Vest>) -> (r: Result<u64, ErrorCode>)
    ensures
        schedule@.len() == 0 ==> r == Err::<u64, _>(ErrorCode::EmptySchedule),
        schedule@.len() > 0 && total_amount(schedule@) > u64::MAX ==> r == Err::<u64, _>(
            ErrorCode::AmountOverflow,
        ),
        r is Ok <==> schedule@.len() > 0 && total_amount(schedule@) <= u64::MAX,
        r matches Ok(t) ==> t == total_amount(schedule@),
{
    if schedule.len() == 0 {
        return Err(ErrorCode::EmptySchedule);
    }
    match checked_total(schedule) {
        Some(t) => Ok(t),
        None => Err(ErrorCode::AmountOverflow),
    }
}

/// Checks a canonical schedule `new` against the current one at time `now`.
pub fn validate_update(old: &Vec<Vest>, new: &Vec<Vest>, now: i64) -> (r: Result<(), ErrorCode>)
    ensures
        r == (match update_error(old@, new@, now) {
            Some(e) => Err(e),
            None => Ok(()),
        }),
{
    if old.len() != new.len() {
        return Err(ErrorCode::LengthMismatch);
    }
    let mut i: usize = 0;
    while i < new.len()
        invariant
            i <= new.len(),
            old@.len() == new@.len(),
            first_update_error(old@, new@, now, 0) == first_update_error(old@, new@, now, i as int),
        decreases new.len() - i,
    {
        let o = old[i];
        let n = new[i];
        if n.amount != o.amount {
            return Err(ErrorCode::CannotChangeAmount);
        }
        if n.unlock_date <= now {
            return Err(ErrorCode::NewDateMustBeInTheFuture);
        }
        if n.unlock_date < o.unlock_date {
            return Err(ErrorCode::NewDateMustBeLaterThanCurrent);
        }
        i += 1;
    }
    Ok(())
}

/// Marks every entry due at `now` claimed and sums what that releases.
pub fn claim_due(schedule: &Vec<Vest>, now: i64) -> (r: (Vec<Vest>, u64))
    requires
        total_amount(schedule@) <= u64::MAX,
    ensures
        r.0@ == claimed_at(schedule@, now),
        r.1 == due_amount(schedule@, now),
{
    let mut out: Vec<Vest> = Vec::new();
    let mut total_vested: u64 = 0;
    let mut i: usize = 0;
    while i < schedule.len()
        invariant
            i <= schedule.len(),
            total_amount(schedule@) <= u64::MAX,
            out@ == claimed_at(schedule@.subrange(0, i as int), now),
            total_vested == due_amount(schedule@.subrange(0, i as int), now),
        decreases schedule.len() - i,
    {
        let v = schedule[i];
        let ghost p = schedule@.subrange(0, i + 1);
        proof {
            assert(p.drop_last() =~= schedule@.subrange(0, i as int));
            assert(p.last() == v);
            lemma_due_le_total(p, now);
            lemma_total_prefix(schedule@, i + 1);
        }
        if !v.claimed && v.unlock_date <= now {
            total_vested = total_vested + v.amount;
            out.push(Vest { amount: v.amount, unlock_date: v.unlock_date, claimed: true });
        } else {
            out.push(v);
        }
        proof {
            assert(out@ =~= claimed_at(p, now));
        }
        i += 1;
    }
    proof {
        assert(schedule@.subrange(0, schedule@.len() as int) =~= schedule@);
    }
    (out, total_vested)
}

/// Takes dates and amounts from `new` and claimed flags from `old`.
pub fn reschedule(old: &Vec<Vest>, new: &Vec<Vest>) -> (r: Vec<Vest>)
    requires
        old@.len() == new@.len(),
    ensures
        r@ == rescheduled(old@, new@),
{
    let mut out: Vec<Vest> = Vec::new();
    let mut i: usize = 0;
    while i < new.len()
        invariant
            i <= new.len(),
            old@.len() == new@.len(),
            out@ =~= rescheduled(old@, new@).subrange(0, i as int),
        decreases new.len() - i,
    {
        out.push(Vest { amount: new[i].amount, unlock_date: new[i].unlock_date, claimed: old[i].claimed });
        i += 1;
    }
    out
}

} // verus!
