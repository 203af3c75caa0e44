//! Base-path configuration: the answer to a path change and the bounded
//! list of recently used paths.

use vstd::prelude::*;
use crate::text::str_eq;

verus! {

/// How many recently used paths are remembered.
pub const RECENT_PATHS_KEPT: usize = 5;

/// The answer to a base-path change.
pub struct SetBasePathResult {
    pub success: bool,
    pub previous_path: String,
    pub current_path: String,
}

/// The answer reporting a performed base-path change.
pub fn set_base_path_result(previous: String, current: String) -> (r: SetBasePathResult)
    ensures
        r.success == true,
        r.previous_path@ == previous@,
        r.current_path@ == current@,
{
    SetBasePathResult { success: true, previous_path: previous, current_path: current }
}

/// The remembered paths with every copy of `new_path` removed, in their old
/// order.
pub open spec fn spec_keep_others(recent: Seq<Seq<char>>, new_path: Seq<char>) -> Seq<Seq<char>>
    decreases recent.len(),
{
    if recent.len() == 0 {
        Seq::empty()
    } else {
        let prev = spec_keep_others(recent.drop_last(), new_path);
        if recent.last() == new_path {
            prev
        } else {
            prev.push(recent.last())
        }
    }
}

/// The updated recent-paths list: the new path first, then the others in
/// their old order, cut to the newest `RECENT_PATHS_KEPT`.
pub open spec fn spec_recent_paths(recent: Seq<Seq<char>>, new_path: Seq<char>) -> Seq<Seq<char>> {
    let full = seq![new_path] + spec_keep_others(recent, new_path);
    if full.len() <= RECENT_PATHS_KEPT {
        full
    } else {
        full.take(RECENT_PATHS_KEPT as int)
    }
}

/// Record a newly chosen path in the recent-paths list: it moves to the
/// front, duplicates of it disappear, the rest keep their order, and the
/// list never grows past `RECENT_PATHS_KEPT` entries.
pub fn update_recent_paths(recent: &Vec<String>, new_path: &str) -> (r: Vec<String>)
    ensures
        r@.map_values(|s: String| s@) == spec_recent_paths(
            recent@.map_values(|s: String| s@),
            new_path@,
        ),
{
    let ghost recent_v = recent@.map_values(|s: String| s@);
    let mut r: Vec<String> = Vec::new();
    r.push(new_path.to_owned());
    let mut i: usize = 0;
    proof {
        assert(recent_v.take(0) =~= Seq::<Seq<char>>::empty());
        assert(spec_keep_others(recent_v.take(0), new_path@) =~= Seq::<Seq<char>>::empty());
        assert(r@.map_values(|s: String| s@) =~= seq![new_path@]);
    }
    while i < recent.len()
        invariant
            i <= recent@.len(),
            recent_v == recent@.map_values(|s: String| s@),
            r@.map_values(|s: String| s@) == spec_recent_paths(recent_v.take(i as int), new_path@),
            r@.len() >= 1,
        decreases recent@.len() - i,
    {
        let ghost pre = seq![new_path@] + spec_keep_others(recent_v.take(i as int), new_path@);
        proof {
            assert(recent_v.take(i + 1).drop_last() =~= recent_v.take(i as int));
            assert(recent_v.take(i + 1).last() == recent_v[i as int]);
            assert(recent_v[i as int] == recent@[i as int]@);
        }
        let p = &recent[i];
        if !str_eq(p.as_str(), new_path) && r.len() < RECENT_PATHS_KEPT {
            r.push(p.clone());
        }
        proof {
            let e = recent_v[i as int];
            let keep_pre = spec_keep_others(recent_v.take(i as int), new_path@);
            let post = seq![new_path@] + spec_keep_others(recent_v.take(i + 1), new_path@);
            if e == new_path@ {
                assert(spec_keep_others(recent_v.take(i + 1), new_path@) == keep_pre);
                assert(spec_recent_paths(recent_v.take(i + 1), new_path@) == spec_recent_paths(
                    recent_v.take(i as int),
                    new_path@,
                ));
            } else {
                assert(spec_keep_others(recent_v.take(i + 1), new_path@) == keep_pre.push(e));
                assert(post =~= pre.push(e));
                if pre.len() < RECENT_PATHS_KEPT {
                    assert(r@.map_values(|s: String| s@) =~= post);
                    assert(spec_recent_paths(recent_v.take(i + 1), new_path@) == post);
                } else {
                    assert(post.take(RECENT_PATHS_KEPT as int) =~= spec_recent_paths(
                        recent_v.take(i as int),
                        new_path@,
                    ));
                    assert(spec_recent_paths(recent_v.take(i + 1), new_path@) == post.take(
                        RECENT_PATHS_KEPT as int,
                    ));
                }
            }
            assert(r@.map_values(|s: String| s@) =~= spec_recent_paths(
                recent_v.take(i + 1),
                new_path@,
            ));
        }
        i += 1;
    }
    proof {
        assert(recent_v.take(recent_v.len() as int) =~= recent_v);
    }
    r
}

} // verus!
