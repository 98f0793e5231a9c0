//! A player's personal best on a map: its respawns and its checkpoint times.
use vstd::prelude::*;

verus! {

/// A request for a player's personal best on a map.
pub struct PbBody {
    pub map_uid: String,
}

/// A row of the personal best: the run's respawns, and the time at one checkpoint.
#[derive(Clone, Copy)]
pub struct PbResponseItem {
    pub rs_count: i32,
    pub cp_num: u32,
    pub time: i32,
}

/// The time at one checkpoint of the personal best.
#[derive(Clone, Copy)]
pub struct PbCpTimesResponseItem {
    pub cp_num: u32,
    pub time: i32,
}

/// The personal best: its respawns and its checkpoint times.
pub struct PbResponse {
    pub rs_count: i32,
    pub cps_times: Vec<PbCpTimesResponseItem>,
}

/// The answer for the rows of a personal best, in the order they were read: the respawns
/// are those of the last row (none without rows), and each row gives a checkpoint time.
pub fn pb_response(rows: &[PbResponseItem]) -> (res: PbResponse)
    ensures
        res.rs_count == (if rows@.len() == 0 {
            0
        } else {
            rows@.last().rs_count
        }),
        res.cps_times@.len() == rows@.len(),
        forall|i: int|
            0 <= i < rows@.len() ==> (#[trigger] res.cps_times@[i]).cp_num == rows@[i].cp_num
                && res.cps_times@[i].time == rows@[i].time,
{
    let mut res = PbResponse { rs_count: 0, cps_times: Vec::new() };
    let mut i: usize = 0;
    while i < rows.len()
        invariant
            i <= rows@.len(),
            res.rs_count == (if i == 0 {
                0
            } else {
                rows@[i - 1].rs_count
            }),
            res.cps_times@.len() == i,
            forall|k: int|
                0 <= k < i ==> (#[trigger] res.cps_times@[k]).cp_num == rows@[k].cp_num
                    && res.cps_times@[k].time == rows@[k].time,
        decreases rows@.len() - i,
    {
        let row = rows[i];
        res.rs_count = row.rs_count;
        res.cps_times.push(PbCpTimesResponseItem { cp_num: row.cp_num, time: row.time });
        i = i + 1;
    }
    res
}

} // verus!
