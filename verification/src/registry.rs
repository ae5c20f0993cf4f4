//! The ordered list of active outputs.
//!
//! Outputs are kept sorted ascending by horizontal position, so that the
//! index of an output in the list is its left-to-right rank in the monitor
//! arrangement. The registry is built once from a snapshot and never mutated.

use vstd::prelude::*;
use crate::NavError;

verus! {

broadcast use vstd::seq_lib::group_to_multiset_ensures;

/// One active output as the library sees it: its unique name and its
/// horizontal position (used only for ordering).
#[derive(Debug)]
pub struct OutputInfo {
    pub name: String,
    pub x: i32,
}

impl Clone for OutputInfo {
    fn clone(&self) -> (r: Self)
        ensures
            r == *self,
    {
        OutputInfo { name: self.name.clone(), x: self.x }
    }
}

/// The outputs stand in ascending order of horizontal position.
pub open spec fn sorted_by_x(s: Seq<OutputInfo>) -> bool {
    forall|i: int, j: int| 0 <= i < j < s.len() ==> s[i].x <= s[j].x
}

/// The position of the first output with the given name, if any.
pub open spec fn index_of_spec(s: Seq<OutputInfo>, name: Seq<char>) -> Option<int>
    decreases s.len(),
{
    if s.len() == 0 {
        None
    } else if s[0].name@ == name {
        Some(0int)
    } else {
        match index_of_spec(s.drop_first(), name) {
            None => None,
            Some(i) => Some(i + 1),
        }
    }
}

/// What `index_of_spec` returns: the least index holding the name, or
/// nothing when no output has it.
pub proof fn lemma_index_of_spec(s: Seq<OutputInfo>, name: Seq<char>)
    ensures
        match index_of_spec(s, name) {
            Some(i) => 0 <= i < s.len() && s[i].name@ == name && (forall|k: int|
                0 <= k < i ==> s[k].name@ != name),
            None => forall|k: int| 0 <= k < s.len() ==> s[k].name@ != name,
        },
    decreases s.len(),
{
    if s.len() != 0 && s[0].name@ != name {
        let d = s.drop_first();
        lemma_index_of_spec(d, name);
        match index_of_spec(d, name) {
            Some(i) => {
                assert(d[i] == s[i + 1]);
                assert forall|k: int| 0 <= k < i + 1 implies s[k].name@ != name by {
                    if k > 0 {
                        assert(d[k - 1] == s[k]);
                    }
                }
            },
            None => {
                assert forall|k: int| 0 <= k < s.len() implies s[k].name@ != name by {
                    if k > 0 {
                        assert(d[k - 1] == s[k]);
                    }
                }
            },
        }
    }
}

/// The first index holding the name determines `index_of_spec`.
pub proof fn lemma_index_of_spec_found(s: Seq<OutputInfo>, name: Seq<char>, i: int)
    requires
        0 <= i < s.len(),
        s[i].name@ == name,
        forall|k: int| 0 <= k < i ==> s[k].name@ != name,
    ensures
        index_of_spec(s, name) == Some(i),
    decreases i,
{
    if s[0].name@ != name {
        assert(i > 0);
        assert(forall|k: int| 0 <= k < s.drop_first().len() ==> s.drop_first()[k] == s[k + 1]);
        lemma_index_of_spec_found(s.drop_first(), name, i - 1);
    }
}

/// A name that no output holds gives no index.
pub proof fn lemma_index_of_spec_absent(s: Seq<OutputInfo>, name: Seq<char>)
    requires
        forall|k: int| 0 <= k < s.len() ==> s[k].name@ != name,
    ensures
        index_of_spec(s, name) is None,
    decreases s.len(),
{
    if s.len() != 0 {
        assert(forall|k: int| 0 <= k < s.drop_first().len() ==> s.drop_first()[k] == s[k + 1]);
        lemma_index_of_spec_absent(s.drop_first(), name);
    }
}

/// The ordered sequence of active outputs, sorted ascending by horizontal
/// position.
pub struct OutputRegistry {
    list: Vec<OutputInfo>,
}

impl OutputRegistry {
    /// The outputs in registry order.
    pub closed spec fn outputs(&self) -> Seq<OutputInfo> {
        self.list@
    }

    /// The registry's invariant: left-to-right order.
    pub open spec fn wf(&self) -> bool {
        sorted_by_x(self.outputs())
    }

    /// Builds the registry from the snapshot's active outputs: the same
    /// outputs, sorted ascending by horizontal position.
    pub fn new(list: Vec<OutputInfo>) -> (r: Self)
        ensures
            r.wf(),
            r.outputs().to_multiset() == list@.to_multiset(),
    {
        let mut rest = list;
        let ghost orig = rest@;
        let mut sorted: Vec<OutputInfo> = Vec::new();
        while rest.len() > 0
            invariant
                sorted_by_x(sorted@),
                sorted@.to_multiset().add(rest@.to_multiset()) =~= orig.to_multiset(),
            decreases rest.len(),
        {
            let ghost rest0 = rest@;
            let e = rest.remove(0);
            let mut p: usize = 0;
            while p < sorted.len() && sorted[p].x <= e.x
                invariant
                    p <= sorted@.len(),
                    forall|k: int| 0 <= k < p ==> sorted@[k].x <= e.x,
                decreases sorted@.len() - p,
            {
                p += 1;
            }
            let ghost before = sorted@;
            sorted.insert(p, e);
            proof {
                before.insert_ensures(p as int, e);
                assert(sorted_by_x(sorted@)) by {
                    assert forall|i: int, j: int| 0 <= i < j < sorted@.len() implies
                        sorted@[i].x <= sorted@[j].x by {
                        if i < p && j > p {
                            assert(before[i].x <= before[j - 1].x);
                        }
                    }
                }
                assert(rest0.to_multiset().count(e) > 0);
                assert(sorted@.to_multiset().add(rest@.to_multiset()) =~= orig.to_multiset());
            }
        }
        OutputRegistry { list: sorted }
    }

    /// How many outputs the registry holds.
    pub fn len(&self) -> (n: usize)
        ensures
            n == self.outputs().len(),
    {
        self.list.len()
    }

    /// The 0-based position of the named output in the sorted sequence.
    /// The name being absent means the snapshot is inconsistent: the current
    /// output always comes from the same snapshot.
    pub fn index_of(&self, name: &String) -> (r: Result<usize, NavError>)
        ensures
            match r {
                Ok(i) => index_of_spec(self.outputs(), name@) == Some(i as int),
                Err(e) => e == NavError::NotFound && index_of_spec(self.outputs(), name@) is None,
            },
    {
        let mut i: usize = 0;
        while i < self.list.len()
            invariant
                i <= self.list@.len(),
                forall|k: int| 0 <= k < i ==> self.list@[k].name@ != name@,
            decreases self.list@.len() - i,
        {
            if self.list[i].name == *name {
                proof {
                    lemma_index_of_spec_found(self.list@, name@, i as int);
                }
                return Ok(i);
            }
            i += 1;
        }
        proof {
            lemma_index_of_spec_absent(self.list@, name@);
        }
        Err(NavError::NotFound)
    }

    /// The output at a position, or nothing when the position is past the
    /// edge of the monitor arrangement.
    pub fn at(&self, i: usize) -> (r: Option<&OutputInfo>)
        ensures
            match r {
                Some(o) => i < self.outputs().len() && *o == self.outputs()[i as int],
                None => i >= self.outputs().len(),
            },
    {
        if i < self.list.len() {
            Some(&self.list[i])
        } else {
            None
        }
    }
}

/// Ordering law: among outputs with pairwise distinct horizontal positions,
/// the registry order agrees exactly with the order of the positions, so an
/// output's index is its left-to-right rank.
pub proof fn lemma_rank_of_sorted(outs: Seq<OutputInfo>)
    requires
        sorted_by_x(outs),
        forall|i: int, j: int| 0 <= i < j < outs.len() ==> outs[i].x != outs[j].x,
    ensures
        forall|i: int, j: int|
            0 <= i < outs.len() && 0 <= j < outs.len() ==> ((i < j) <==> outs[i].x < outs[j].x),
{
    assert forall|i: int, j: int| 0 <= i < outs.len() && 0 <= j < outs.len() implies ((i < j)
        <==> outs[i].x < outs[j].x) by {
        if i < j {
            assert(outs[i].x <= outs[j].x);
            assert(outs[i].x != outs[j].x);
        } else if j < i {
            assert(outs[j].x <= outs[i].x);
        }
    }
}

/// Ordering law, second half: with distinct names, `index_of_spec` hands an
/// output's own index back, so the rank above is what `index_of` reports.
pub proof fn lemma_index_of_rank(outs: Seq<OutputInfo>, i: int)
    requires
        0 <= i < outs.len(),
        forall|a: int, b: int| 0 <= a < b < outs.len() ==> outs[a].name@ != outs[b].name@,
    ensures
        index_of_spec(outs, outs[i].name@) == Some(i),
{
    lemma_index_of_spec_found(outs, outs[i].name@, i);
}

} // verus!
