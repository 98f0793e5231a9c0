//! How a finished run is checked and ranked before it is saved.
use vstd::prelude::*;

verus! {

/// The run of a finish: its time, respawns, flags, and the time at each checkpoint (the
/// finish line included).
pub struct InsertRecordParams {
    pub time: i32,
    pub respawn_count: i32,
    pub flags: Option<u32>,
    pub cps: Vec<i32>,
}

/// A finish on the map with the given UID.
pub struct HasFinishedBody {
    pub map_uid: String,
    pub rest: InsertRecordParams,
}

/// The sum of the checkpoint times.
pub open spec fn sum_of(s: Seq<i32>) -> int
    decreases s.len(),
{
    if s.len() == 0 {
        0
    } else {
        sum_of(s.drop_last()) + s.last()
    }
}

/// Every partial sum of the checkpoint times fits in an `i32`.
pub open spec fn sums_fit(s: Seq<i32>) -> bool {
    forall|k: int| 0 <= k <= s.len() ==> i32::MIN <= #[trigger] sum_of(s.take(k)) <= i32::MAX
}

/// The checkpoint times agree with the run: one time per checkpoint of the map plus the
/// finish (when the map's number of checkpoints is known), and they add up to the run's time.
pub open spec fn spec_times_coherent(cps_number: Option<u32>, cps: Seq<i32>, time: i32) -> bool {
    &&& !(cps_number matches Some(num) && num + 1 != (cps.len() as u32) as int)
    &&& sum_of(cps) == time
}

/// Whether the checkpoint times agree with the run.
pub fn times_coherent(cps_number: Option<u32>, cps: &[i32], time: i32) -> (r: bool)
    requires
        cps_number != Some(u32::MAX),
        (cps_number matches Some(num) ==> num + 1 == (cps@.len() as u32) as int) ==> sums_fit(cps@),
    ensures
        r == spec_times_coherent(cps_number, cps@, time),
{
    if let Some(num) = cps_number {
        if num + 1 != cps.len() as u32 {
            return false;
        }
    }
    let mut sum: i32 = 0;
    let mut i: usize = 0;
    while i < cps.len()
        invariant
            i <= cps@.len(),
            sums_fit(cps@),
            sum == sum_of(cps@.take(i as int)),
        decreases cps@.len() - i,
    {
        assert(cps@.take(i + 1).drop_last() =~= cps@.take(i as int));
        assert(i32::MIN <= sum_of(cps@.take(i + 1)) <= i32::MAX);
        sum = sum + cps[i];
        i = i + 1;
    }
    assert(cps@.take(cps@.len() as int) =~= cps@);
    sum == time
}

/// What a finish changes, given the time of the player's best record on the map.
pub struct FinishOutcome {
    pub old: i32,
    pub new: i32,
    pub has_improved: bool,
    /// The rank of the old time is asked for (the player had a record).
    pub with_old_rank: bool,
    /// The time whose rank is the player's current rank.
    pub ranked_time: i32,
}

/// The old and new times of a finish: a first run improves by definition; otherwise the run
/// improves when it is faster. The player's rank is that of the better of the two.
pub fn finish_outcome(best: Option<i32>, time: i32) -> (o: FinishOutcome)
    ensures
        match best {
            Some(old) => o.old == old && o.new == time && o.has_improved == (time < old)
                && o.with_old_rank,
            None => o.old == time && o.new == time && o.has_improved && !o.with_old_rank,
        },
        o.ranked_time == (if o.has_improved {
            o.new
        } else {
            o.old
        }),
{
    let (old, new, has_improved, with_old_rank) = match best {
        Some(old) => (old, time, time < old, true),
        None => (time, time, true, false),
    };
    FinishOutcome {
        old,
        new,
        has_improved,
        with_old_rank,
        ranked_time: if has_improved {
            new
        } else {
            old
        },
    }
}

/// The player keeps the better of the two times: the ranked time is never slower than the
/// player's best record, and a first run ranks with its own time.
pub proof fn law_ranked_time_is_best(best: Option<i32>, time: i32, o: FinishOutcome)
    requires
        match best {
            Some(old) => o.old == old && o.new == time && o.has_improved == (time < old),
            None => o.old == time && o.new == time && o.has_improved,
        },
        o.ranked_time == (if o.has_improved {
            o.new
        } else {
            o.old
        }),
    ensures
        match best {
            Some(old) => o.ranked_time <= old && o.ranked_time <= time,
            None => o.ranked_time == time,
        },
{
}

/// The checkpoint times of a finish are accepted exactly when there is one per checkpoint of
/// the map plus the finish (when the map's number of checkpoints is known) and they add up to
/// the run's time, neither more nor less.
pub proof fn law_times_add_up(cps_number: Option<u32>, cps: Seq<i32>, time: i32)
    requires
        cps.len() <= u32::MAX,
    ensures
        spec_times_coherent(cps_number, cps, time) <==> ((cps_number matches Some(num) ==> num + 1
            == cps.len()) && cps.fold_left(0int, |acc: int, t: i32| acc + t) == time),
{
    lemma_sum_is_fold(cps);
}

proof fn lemma_sum_is_fold(cps: Seq<i32>)
    ensures
        sum_of(cps) == cps.fold_left(0int, |acc: int, t: i32| acc + t),
    decreases cps.len(),
{
    if cps.len() > 0 {
        lemma_sum_is_fold(cps.drop_last());
    }
}

} // verus!
