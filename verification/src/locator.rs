//! Lookups against the snapshot of existing workspaces.
//!
//! The locator answers two questions about compositor state: which output
//! owns a given workspace number, and what the lowest- or highest-numbered
//! workspace on a given output is.

use vstd::prelude::*;
use crate::NavError;

verus! {

/// One existing workspace: its number and the name of the output that owns it.
#[derive(Debug)]
pub struct WorkspaceInfo {
    pub num: i32,
    pub output: String,
}

impl Clone for WorkspaceInfo {
    fn clone(&self) -> (r: Self)
        ensures
            r == *self,
    {
        WorkspaceInfo { num: self.num, output: self.output.clone() }
    }
}

/// The owner of workspace `n`: the output name of the first entry carrying
/// that number, or nothing when no such workspace exists.
pub open spec fn owner_spec(s: Seq<WorkspaceInfo>, n: int) -> Option<Seq<char>>
    decreases s.len(),
{
    if s.len() == 0 {
        None
    } else {
        match owner_spec(s.drop_last(), n) {
            Some(o) => Some(o),
            None => if s.last().num == n {
                Some(s.last().output@)
            } else {
                None
            },
        }
    }
}

/// The lowest workspace number among the entries owned by `name`, or nothing
/// when the output owns no workspace.
pub open spec fn first_on_spec(s: Seq<WorkspaceInfo>, name: Seq<char>) -> Option<int>
    decreases s.len(),
{
    if s.len() == 0 {
        None
    } else {
        let rest = first_on_spec(s.drop_last(), name);
        if s.last().output@ == name {
            match rest {
                None => Some(s.last().num as int),
                Some(m) => Some(if s.last().num as int <= m {
                    s.last().num as int
                } else {
                    m
                }),
            }
        } else {
            rest
        }
    }
}

/// The highest workspace number among the entries owned by `name`, or nothing
/// when the output owns no workspace.
pub open spec fn last_on_spec(s: Seq<WorkspaceInfo>, name: Seq<char>) -> Option<int>
    decreases s.len(),
{
    if s.len() == 0 {
        None
    } else {
        let rest = last_on_spec(s.drop_last(), name);
        if s.last().output@ == name {
            match rest {
                None => Some(s.last().num as int),
                Some(m) => Some(if s.last().num as int >= m {
                    s.last().num as int
                } else {
                    m
                }),
            }
        } else {
            rest
        }
    }
}

/// What `owner_spec` returns: the output of the earliest entry with the
/// number, or nothing when the number occurs in no entry.
pub proof fn lemma_owner_spec(s: Seq<WorkspaceInfo>, n: int)
    ensures
        match owner_spec(s, n) {
            Some(o) => exists|k: int|
                0 <= k < s.len() && s[k].num == n && s[k].output@ == o && (forall|l: int|
                    0 <= l < k ==> s[l].num != n),
            None => forall|k: int| 0 <= k < s.len() ==> s[k].num != n,
        },
    decreases s.len(),
{
    if s.len() != 0 {
        let d = s.drop_last();
        lemma_owner_spec(d, n);
        assert(forall|k: int| 0 <= k < d.len() ==> d[k] == s[k]);
        match owner_spec(d, n) {
            Some(o) => {
                let k = choose|k: int|
                    0 <= k < d.len() && d[k].num == n && d[k].output@ == o && (forall|l: int|
                        0 <= l < k ==> d[l].num != n);
                assert(s[k].num == n && s[k].output@ == o);
            },
            None => {
                if s.last().num == n {
                    assert(s[s.len() - 1].num == n && s[s.len() - 1].output@ == s.last().output@);
                }
            },
        }
    }
}

/// What `first_on_spec` returns: a number the output owns, no greater than
/// any other it owns; or nothing exactly when it owns none.
pub proof fn lemma_first_on_spec(s: Seq<WorkspaceInfo>, name: Seq<char>)
    ensures
        match first_on_spec(s, name) {
            Some(m) => (exists|k: int|
                0 <= k < s.len() && s[k].output@ == name && s[k].num as int == m) && (forall|k: int|
                0 <= k < s.len() && s[k].output@ == name ==> m <= s[k].num as int),
            None => forall|k: int| 0 <= k < s.len() ==> s[k].output@ != name,
        },
    decreases s.len(),
{
    if s.len() != 0 {
        let d = s.drop_last();
        lemma_first_on_spec(d, name);
        assert(forall|k: int| 0 <= k < d.len() ==> d[k] == s[k]);
        match first_on_spec(d, name) {
            Some(m) => {
                let k = choose|k: int| 0 <= k < d.len() && d[k].output@ == name && d[k].num as int == m;
                assert(s[k].output@ == name && s[k].num as int == m);
            },
            None => {
                if s.last().output@ == name {
                    assert(s[s.len() - 1].output@ == name);
                }
            },
        }
    }
}

/// What `last_on_spec` returns: a number the output owns, no smaller than
/// any other it owns; or nothing exactly when it owns none.
pub proof fn lemma_last_on_spec(s: Seq<WorkspaceInfo>, name: Seq<char>)
    ensures
        match last_on_spec(s, name) {
            Some(m) => (exists|k: int|
                0 <= k < s.len() && s[k].output@ == name && s[k].num as int == m) && (forall|k: int|
                0 <= k < s.len() && s[k].output@ == name ==> m >= s[k].num as int),
            None => forall|k: int| 0 <= k < s.len() ==> s[k].output@ != name,
        },
    decreases s.len(),
{
    if s.len() != 0 {
        let d = s.drop_last();
        lemma_last_on_spec(d, name);
        assert(forall|k: int| 0 <= k < d.len() ==> d[k] == s[k]);
        match last_on_spec(d, name) {
            Some(m) => {
                let k = choose|k: int| 0 <= k < d.len() && d[k].output@ == name && d[k].num as int == m;
                assert(s[k].output@ == name && s[k].num as int == m);
            },
            None => {
                if s.last().output@ == name {
                    assert(s[s.len() - 1].output@ == name);
                }
            },
        }
    }
}

/// A read-only snapshot of the existing workspaces.
pub struct WorkspaceLocator {
    list: Vec<WorkspaceInfo>,
}

impl WorkspaceLocator {
    /// The snapshot's entries, in the order they were handed in.
    pub closed spec fn entries(&self) -> Seq<WorkspaceInfo> {
        self.list@
    }

    /// Wraps the snapshot of existing workspaces.
    pub fn new(list: Vec<WorkspaceInfo>) -> (r: Self)
        ensures
            r.entries() == list@,
    {
        WorkspaceLocator { list }
    }

    /// The name of the output that owns workspace `num`, or nothing when no
    /// such workspace currently exists.
    pub fn owner_of(&self, num: i32) -> (r: Option<String>)
        ensures
            match r {
                Some(o) => owner_spec(self.entries(), num as int) == Some(o@),
                None => owner_spec(self.entries(), num as int) is None,
            },
    {
        let ghost s = self.list@;
        let mut i: usize = 0;
        while i < self.list.len()
            invariant
                i <= s.len(),
                s == self.list@,
                owner_spec(s.take(i as int), num as int) is None,
            decreases s.len() - i,
        {
            proof {
                assert(s.take(i + 1).drop_last() =~= s.take(i as int));
                assert(s.take(i + 1).last() == s[i as int]);
            }
            if self.list[i].num == num {
                let o = self.list[i].output.clone();
                proof {
                    lemma_owner_prefix(s, num as int, i + 1);
                }
                return Some(o);
            }
            i += 1;
        }
        proof {
            assert(s.take(s.len() as int) =~= s);
        }
        None
    }

    /// The lowest-numbered existing workspace on the given output. The output
    /// owning no workspace at all is a snapshot inconsistency, surfaced as an
    /// explicit error.
    pub fn first_on(&self, name: &String) -> (r: Result<i32, NavError>)
        ensures
            match r {
                Ok(m) => first_on_spec(self.entries(), name@) == Some(m as int),
                Err(e) => e == NavError::LookupError && first_on_spec(self.entries(), name@) is None,
            },
    {
        let ghost s = self.list@;
        let mut best: Option<i32> = None;
        let mut i: usize = 0;
        while i < self.list.len()
            invariant
                i <= s.len(),
                s == self.list@,
                match best {
                    Some(b) => first_on_spec(s.take(i as int), name@) == Some(b as int),
                    None => first_on_spec(s.take(i as int), name@) is None,
                },
            decreases s.len() - i,
        {
            proof {
                assert(s.take(i + 1).drop_last() =~= s.take(i as int));
                assert(s.take(i + 1).last() == s[i as int]);
            }
            if self.list[i].output == *name {
                let n: i32 = self.list[i].num;
                best = match best {
                    None => Some(n),
                    Some(b) => if n <= b {
                        Some(n)
                    } else {
                        Some(b)
                    },
                };
            }
            i += 1;
        }
        proof {
            assert(s.take(s.len() as int) =~= s);
        }
        match best {
            Some(b) => Ok(b),
            None => Err(NavError::LookupError),
        }
    }

    /// The highest-numbered existing workspace on the given output. Same
    /// failure contract as `first_on`.
    pub fn last_on(&self, name: &String) -> (r: Result<i32, NavError>)
        ensures
            match r {
                Ok(m) => last_on_spec(self.entries(), name@) == Some(m as int),
                Err(e) => e == NavError::LookupError && last_on_spec(self.entries(), name@) is None,
            },
    {
        let ghost s = self.list@;
        let mut best: Option<i32> = None;
        let mut i: usize = 0;
        while i < self.list.len()
            invariant
                i <= s.len(),
                s == self.list@,
                match best {
                    Some(b) => last_on_spec(s.take(i as int), name@) == Some(b as int),
                    None => last_on_spec(s.take(i as int), name@) is None,
                },
            decreases s.len() - i,
        {
            proof {
                assert(s.take(i + 1).drop_last() =~= s.take(i as int));
                assert(s.take(i + 1).last() == s[i as int]);
            }
            if self.list[i].output == *name {
                let n: i32 = self.list[i].num;
                best = match best {
                    None => Some(n),
                    Some(b) => if n >= b {
                        Some(n)
                    } else {
                        Some(b)
                    },
                };
            }
            i += 1;
        }
        proof {
            assert(s.take(s.len() as int) =~= s);
        }
        match best {
            Some(b) => Ok(b),
            None => Err(NavError::LookupError),
        }
    }
}

/// A prefix that already names an owner settles the whole sequence.
pub proof fn lemma_owner_prefix(s: Seq<WorkspaceInfo>, n: int, i: int)
    requires
        0 <= i <= s.len(),
        owner_spec(s.take(i), n) is Some,
    ensures
        owner_spec(s, n) == owner_spec(s.take(i), n),
    decreases s.len() - i,
{
    if i == s.len() {
        assert(s.take(i) =~= s);
    } else {
        assert(s.take(i + 1).drop_last() =~= s.take(i));
        lemma_owner_prefix(s, n, i + 1);
    }
}

} // verus!
