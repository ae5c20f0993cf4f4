//! The navigation engine: one bounded resolution pass.
//!
//! Starting from the current workspace number the scan steps by one in the
//! chosen direction, skipping numbers that do not exist or belong to another
//! output, until it either lands on a workspace owned by the current output
//! or leaves the decade 1..=10. Leaving the decade rolls over to the
//! neighbouring output's first (going up) or last (going down) existing
//! workspace; with no neighbour there the pass is a no-op.

use vstd::prelude::*;
use crate::NavError;
use crate::direction::Direction;
use crate::locator::{WorkspaceInfo, WorkspaceLocator, first_on_spec, last_on_spec, owner_spec};
use crate::registry::{OutputInfo, OutputRegistry, index_of_spec, lemma_index_of_spec};

verus! {

/// The one terminal action of a pass: switch to a workspace, or do nothing.
#[derive(Clone, Copy, PartialEq, Eq, Structural, Debug)]
pub enum Action {
    Switch(i32),
    NoOp,
}

/// Where the in-decade scan ends, at the specification level.
pub enum Scan {
    /// Landed on this workspace number, owned by the current output.
    Found(int),
    /// Left the decade past 10.
    Upper,
    /// Left the decade below 1.
    Lower,
}

/// One step of the scan: the next workspace number in the direction.
pub open spec fn step(t: int, dir: Direction) -> int {
    match dir {
        Direction::Next => t + 1,
        Direction::Previous => t - 1,
    }
}

/// The bounded scan from `cur`: step, stop at a decade boundary, stop on a
/// workspace the current output owns, otherwise keep stepping.
pub open spec fn scan(ws: Seq<WorkspaceInfo>, out: Seq<char>, cur: int, dir: Direction) -> Scan
    decreases (if dir == Direction::Next { 10 - cur } else { cur }),
{
    let t = step(cur, dir);
    if t > 10 {
        Scan::Upper
    } else if t < 1 {
        Scan::Lower
    } else if owner_spec(ws, t) == Some(out) {
        Scan::Found(t)
    } else {
        scan(ws, out, t, dir)
    }
}

/// The whole pass: fail when the current output is not in the registry, then
/// follow the scan; at a boundary take the neighbouring output's first or
/// last workspace, or do nothing when no neighbour exists.
pub open spec fn resolve_spec(
    outs: Seq<OutputInfo>,
    ws: Seq<WorkspaceInfo>,
    cur: int,
    out: Seq<char>,
    dir: Direction,
) -> Result<Action, NavError> {
    match index_of_spec(outs, out) {
        None => Err(NavError::NotFound),
        Some(idx) => match scan(ws, out, cur, dir) {
            Scan::Found(t) => Ok(Action::Switch(t as i32)),
            Scan::Upper => if idx + 1 < outs.len() {
                match first_on_spec(ws, outs[idx + 1].name@) {
                    Some(m) => Ok(Action::Switch(m as i32)),
                    None => Err(NavError::LookupError),
                }
            } else {
                Ok(Action::NoOp)
            },
            Scan::Lower => if idx >= 1 {
                match last_on_spec(ws, outs[idx - 1].name@) {
                    Some(m) => Ok(Action::Switch(m as i32)),
                    None => Err(NavError::LookupError),
                }
            } else {
                Ok(Action::NoOp)
            },
        },
    }
}

/// Where the in-decade scan ends, as executable code reports it.
#[derive(Clone, Copy, PartialEq, Eq, Structural, Debug)]
pub enum Probe {
    Found(i32),
    Upper,
    Lower,
}

/// Runs the bounded scan from `cur` in the given direction and reports where
/// it ends. Read-only: the scan itself performs no action.
pub fn scan_from(loc: &WorkspaceLocator, cur: i32, cur_output: &String, dir: Direction) -> (r:
    Probe)
    ensures
        match r {
            Probe::Found(t) => scan(loc.entries(), cur_output@, cur as int, dir) == Scan::Found(
                t as int,
            ) && 1 <= t <= 10,
            Probe::Upper => scan(loc.entries(), cur_output@, cur as int, dir) == Scan::Upper,
            Probe::Lower => scan(loc.entries(), cur_output@, cur as int, dir) == Scan::Lower,
        },
{
    let mut target: i32 = cur;
    loop
        invariant
            scan(loc.entries(), cur_output@, cur as int, dir) == scan(
                loc.entries(),
                cur_output@,
                target as int,
                dir,
            ),
        decreases (if dir == Direction::Next {
            if target <= 10 {
                10 - target as int
            } else {
                0
            }
        } else {
            if target >= 0 {
                target as int
            } else {
                0
            }
        }),
    {
        if dir == Direction::Next {
            if target >= 10 {
                return Probe::Upper;
            }
            target = target + 1;
        } else {
            if target <= 1 {
                return Probe::Lower;
            }
            target = target - 1;
        }
        if target > 10 {
            return Probe::Upper;
        }
        if target < 1 {
            return Probe::Lower;
        }
        match loc.owner_of(target) {
            Some(o) => {
                if o == *cur_output {
                    return Probe::Found(target);
                }
            },
            None => {},
        }
    }
}

/// One full resolution pass over the snapshot: decides the single terminal
/// action, or reports why the snapshot admits none.
pub fn resolve(
    reg: &OutputRegistry,
    loc: &WorkspaceLocator,
    cur: i32,
    cur_output: &String,
    dir: Direction,
) -> (r: Result<Action, NavError>)
    ensures
        r == resolve_spec(reg.outputs(), loc.entries(), cur as int, cur_output@, dir),
{
    let idx = match reg.index_of(cur_output) {
        Ok(i) => i,
        Err(e) => {
            return Err(e);
        },
    };
    let n: usize = reg.len();
    proof {
        lemma_index_of_spec(reg.outputs(), cur_output@);
        assert(idx < n);
    }
    match scan_from(loc, cur, cur_output, dir) {
        Probe::Found(t) => Ok(Action::Switch(t)),
        Probe::Upper => match reg.at(idx + 1) {
            Some(o) => match loc.first_on(&o.name) {
                Ok(w) => Ok(Action::Switch(w)),
                Err(e) => Err(e),
            },
            None => Ok(Action::NoOp),
        },
        Probe::Lower => {
            if idx == 0 {
                Ok(Action::NoOp)
            } else {
                match reg.at(idx - 1) {
                    Some(o) => match loc.last_on(&o.name) {
                        Ok(w) => Ok(Action::Switch(w)),
                        Err(e) => Err(e),
                    },
                    None => Ok(Action::NoOp),
                }
            }
        },
    }
}

/// Law: when the workspace one step away is inside the decade and owned by
/// the current output, the scan stops there at once, and the pass switches
/// exactly there.
pub proof fn lemma_adjacent_hit(
    outs: Seq<OutputInfo>,
    ws: Seq<WorkspaceInfo>,
    out: Seq<char>,
    cur: int,
    dir: Direction,
)
    requires
        1 <= cur <= 10,
        1 <= step(cur, dir) <= 10,
        owner_spec(ws, step(cur, dir)) == Some(out),
    ensures
        scan(ws, out, cur, dir) == Scan::Found(step(cur, dir)),
        index_of_spec(outs, out) is Some ==> resolve_spec(outs, ws, cur, out, dir) == Ok::<
            Action,
            NavError,
        >(Action::Switch(step(cur, dir) as i32)),
{
}

/// Law: stepping up from 10 or beyond always leaves the decade upward.
pub proof fn lemma_upper_boundary(ws: Seq<WorkspaceInfo>, out: Seq<char>, cur: int)
    requires
        cur >= 10,
    ensures
        scan(ws, out, cur, Direction::Next) == Scan::Upper,
{
}

/// Law: stepping down from 1 or below always leaves the decade downward.
pub proof fn lemma_lower_boundary(ws: Seq<WorkspaceInfo>, out: Seq<char>, cur: int)
    requires
        cur <= 1,
    ensures
        scan(ws, out, cur, Direction::Previous) == Scan::Lower,
{
}

/// Law: going up from the decade's edge, the pass takes the next output's
/// lowest workspace, fails when that output owns none, and does nothing when
/// the current output is already the rightmost.
pub proof fn lemma_boundary_next(
    outs: Seq<OutputInfo>,
    ws: Seq<WorkspaceInfo>,
    cur: int,
    out: Seq<char>,
    idx: int,
)
    requires
        cur >= 10,
        index_of_spec(outs, out) == Some(idx),
    ensures
        idx + 1 == outs.len() ==> resolve_spec(outs, ws, cur, out, Direction::Next) == Ok::<
            Action,
            NavError,
        >(Action::NoOp),
        idx + 1 < outs.len() ==> resolve_spec(outs, ws, cur, out, Direction::Next) == (
        match first_on_spec(ws, outs[idx + 1].name@) {
            Some(m) => Ok(Action::Switch(m as i32)),
            None => Err(NavError::LookupError),
        }),
{
    lemma_index_of_spec(outs, out);
    lemma_upper_boundary(ws, out, cur);
}

/// Law: going down from the decade's edge, the pass takes the previous
/// output's highest workspace, fails when that output owns none, and does
/// nothing when the current output is already the leftmost.
pub proof fn lemma_boundary_previous(
    outs: Seq<OutputInfo>,
    ws: Seq<WorkspaceInfo>,
    cur: int,
    out: Seq<char>,
    idx: int,
)
    requires
        cur <= 1,
        index_of_spec(outs, out) == Some(idx),
    ensures
        idx == 0 ==> resolve_spec(outs, ws, cur, out, Direction::Previous) == Ok::<
            Action,
            NavError,
        >(Action::NoOp),
        idx >= 1 ==> resolve_spec(outs, ws, cur, out, Direction::Previous) == (
        match last_on_spec(ws, outs[idx - 1].name@) {
            Some(m) => Ok(Action::Switch(m as i32)),
            None => Err(NavError::LookupError),
        }),
{
    lemma_index_of_spec(outs, out);
    lemma_lower_boundary(ws, out, cur);
}

/// Law: when the next `k` numbers are absent or foreign and the one after
/// them is owned by the current output, the scan lands exactly there, and
/// the pass switches exactly there.
pub proof fn lemma_scan_skips(
    outs: Seq<OutputInfo>,
    ws: Seq<WorkspaceInfo>,
    out: Seq<char>,
    cur: int,
    k: int,
)
    requires
        0 <= k,
        0 <= cur,
        cur + k + 1 <= 10,
        forall|j: int| cur + 1 <= j <= cur + k ==> owner_spec(ws, j) != Some(out),
        owner_spec(ws, cur + k + 1) == Some(out),
    ensures
        scan(ws, out, cur, Direction::Next) == Scan::Found(cur + k + 1),
        index_of_spec(outs, out) is Some ==> resolve_spec(outs, ws, cur, out, Direction::Next)
            == Ok::<Action, NavError>(Action::Switch((cur + k + 1) as i32)),
    decreases k,
{
    if k > 0 {
        lemma_scan_skips(outs, ws, out, cur + 1, k - 1);
    }
}

/// Law: when every number from the next one through 10 is absent or foreign,
/// the scan falls through to the upper boundary, exactly as if the target had
/// already passed 10.
pub proof fn lemma_scan_to_upper(ws: Seq<WorkspaceInfo>, out: Seq<char>, cur: int)
    requires
        0 <= cur,
        forall|j: int| cur + 1 <= j <= 10 ==> owner_spec(ws, j) != Some(out),
    ensures
        scan(ws, out, cur, Direction::Next) == Scan::Upper,
    decreases 10 - cur,
{
    if cur < 10 {
        lemma_scan_to_upper(ws, out, cur + 1);
    }
}

/// Law: at the rightmost output, going up with nothing left in the decade is
/// a no-op — no switch and no error.
pub proof fn lemma_noop_at_rightmost(
    outs: Seq<OutputInfo>,
    ws: Seq<WorkspaceInfo>,
    cur: int,
    out: Seq<char>,
)
    requires
        outs.len() >= 1,
        index_of_spec(outs, out) == Some(outs.len() - 1),
        scan(ws, out, cur, Direction::Next) == Scan::Upper,
    ensures
        resolve_spec(outs, ws, cur, out, Direction::Next) == Ok::<Action, NavError>(Action::NoOp),
{
}

} // verus!
