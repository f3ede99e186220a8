//! The cursor over the cycle of stages: moving on one stage, and skipping a
//! rest to the next work stage.

use vstd::prelude::*;
use crate::config::{has_work_stage, Stage, StageType};

verus! {

/// The length of a stage in seconds.
pub open spec fn stage_seconds(s: Stage) -> nat {
    (s.minutes * 60) as nat
}

/// The index one stage further on, wrapping around.
pub open spec fn next_index(index: int, len: int) -> int {
    (index + 1) % len
}

/// The stage reached `offset` steps after `index`, wrapping around.
pub open spec fn index_after(index: int, offset: int, len: int) -> int {
    (index + offset) % len
}

/// Whether the stage `offset` steps after `index` is a work stage.
pub open spec fn work_at_offset(stages: Seq<Stage>, index: int, offset: int) -> bool {
    stages[index_after(index, offset, stages.len() as int)].stage_type == StageType::Work
}

/// Whether `offset` (between 1 and the cycle length) is the first step after
/// `index` that lands on a work stage.
pub open spec fn is_first_work_offset(stages: Seq<Stage>, index: int, offset: int) -> bool {
    &&& 1 <= offset <= stages.len()
    &&& work_at_offset(stages, index, offset)
    &&& forall|o: int| 1 <= o < offset ==> !#[trigger] work_at_offset(stages, index, o)
}

/// Where skipping a rest at `index` leads, and whether stages were jumped
/// over on the way: the first work stage after `index` in cycle order
/// (`index` itself counts last), with the flag set when at least one stage
/// lies strictly between; when the cycle has no work stage, stage 0, with the
/// flag set unless already at 0.
pub open spec fn skip_target(stages: Seq<Stage>, index: int) -> (int, bool) {
    if exists|o: int| is_first_work_offset(stages, index, o) {
        let o = choose|o: int| is_first_work_offset(stages, index, o);
        (index_after(index, o, stages.len() as int), o > 1)
    } else {
        (0, index != 0)
    }
}

/// How far the search for the next work stage goes: to the first work
/// stage after `index`, or one full lap when there is none.
pub open spec fn skip_reach(stages: Seq<Stage>, index: int) -> int {
    if exists|o: int| is_first_work_offset(stages, index, o) {
        choose|o: int| is_first_work_offset(stages, index, o)
    } else {
        stages.len() as int
    }
}

/// A cursor at one stage of a cycle.
pub struct StageCursor<'a> {
    pub stages: &'a [Stage],
    pub index: usize,
}

impl<'a> StageCursor<'a> {
    /// A cursor at `index`.
    pub fn new(stages: &'a [Stage], index: usize) -> (c: Self)
        ensures
            c.stages@ == stages@,
            c.index == index,
    {
        StageCursor { stages, index }
    }

    /// The current stage.
    pub fn current(&self) -> (s: &Stage)
        requires
            self.index < self.stages@.len(),
        ensures
            *s == self.stages@[self.index as int],
    {
        &self.stages[self.index]
    }

    /// The length of the current stage in seconds.
    pub fn current_total_seconds(&self) -> (t: u64)
        requires
            self.index < self.stages@.len(),
        ensures
            t == stage_seconds(self.stages@[self.index as int]),
    {
        (self.current().minutes as u64) * 60
    }

    /// The index one stage further on, wrapping to 0 after the last stage.
    pub fn advance(&self) -> (i: usize)
        requires
            self.stages@.len() > 0,
            self.index < usize::MAX,
        ensures
            i == next_index(self.index as int, self.stages@.len() as int),
            i < self.stages@.len(),
    {
        (self.index + 1) % self.stages.len()
    }

    /// Skips the current rest: the index of the next work stage in cycle
    /// order, and whether stages lay between (see `skip_target`).
    pub fn skip_rest_to_next_work(&self) -> (r: (usize, bool))
        requires
            self.index + skip_reach(self.stages@, self.index as int) <= usize::MAX,
        ensures
            (r.0 as int, r.1) == skip_target(self.stages@, self.index as int),
            self.stages@.len() > 0 ==> r.0 < self.stages@.len(),
            has_work_stage(self.stages@) ==> self.stages@[r.0 as int].stage_type
                == StageType::Work,
    {
        let n = self.stages.len();
        let mut k: usize = 0;
        while k < n
            invariant
                n == self.stages@.len(),
                k <= n,
                self.index + skip_reach(self.stages@, self.index as int) <= usize::MAX,
                forall|o: int| 1 <= o <= k ==> !#[trigger] work_at_offset(
                    self.stages@,
                    self.index as int,
                    o,
                ),
            decreases n - k,
        {
            proof {
                if exists|o: int| is_first_work_offset(self.stages@, self.index as int, o) {
                    let f = choose|o: int| is_first_work_offset(self.stages@, self.index as int, o);
                    if f <= k {
                        assert(!work_at_offset(self.stages@, self.index as int, f));
                    }
                }
            }
            let offset = k + 1;
            let i = (self.index + offset) % n;
            if self.stages[i].stage_type == StageType::Work {
                proof {
                    assert(work_at_offset(self.stages@, self.index as int, offset as int));
                    assert(is_first_work_offset(self.stages@, self.index as int, offset as int));
                    let o = choose|o: int| is_first_work_offset(self.stages@, self.index as int, o);
                    lemma_first_work_offset_unique(self.stages@, self.index as int, o, offset as int);
                }
                return (i, offset > 1);
            }
            k = k + 1;
        }
        proof {
            assert forall|o: int| !is_first_work_offset(self.stages@, self.index as int, o) by {
                if is_first_work_offset(self.stages@, self.index as int, o) {
                    assert(!work_at_offset(self.stages@, self.index as int, o));
                }
            }
            if has_work_stage(self.stages@) {
                let j = choose|j: int|
                    0 <= j < self.stages@.len() && (#[trigger] self.stages@[j]).stage_type
                        == StageType::Work;
                lemma_skip_target_properties(self.stages@, self.index as int, j);
            }
        }
        (0, self.index != 0)
    }
}

proof fn lemma_first_work_offset_unique(stages: Seq<Stage>, index: int, a: int, b: int)
    requires
        is_first_work_offset(stages, index, a),
        is_first_work_offset(stages, index, b),
    ensures
        a == b,
{
    if a < b {
        assert(!work_at_offset(stages, index, a));
    } else if b < a {
        assert(!work_at_offset(stages, index, b));
    }
}

/// When stage `j` is a work stage, a first work stage after `index` exists,
/// and the skip target is a work stage inside the cycle.
pub proof fn lemma_skip_target_properties(stages: Seq<Stage>, index: int, j: int)
    requires
        0 <= index,
        0 <= j < stages.len(),
        stages[j].stage_type == StageType::Work,
    ensures
        exists|o: int| is_first_work_offset(stages, index, o),
        0 <= skip_target(stages, index).0 < stages.len(),
        stages[skip_target(stages, index).0].stage_type == StageType::Work,
{
    let n = stages.len() as int;
    lemma_offset_reaches(index, j, n);
    let o = if j > index % n {
        j - index % n
    } else {
        j - index % n + n
    };
    vstd::arithmetic::div_mod::lemma_mod_bound(index, n);
    assert(index_after(index, o, n) == j);
    assert(work_at_offset(stages, index, o));
    lemma_first_work_offset_exists(stages, index, o);
    let f = choose|f: int| is_first_work_offset(stages, index, f);
    vstd::arithmetic::div_mod::lemma_mod_bound(index + f, n);
}

proof fn lemma_first_work_offset_exists(stages: Seq<Stage>, index: int, o: int)
    requires
        1 <= o <= stages.len(),
        work_at_offset(stages, index, o),
    ensures
        exists|f: int| is_first_work_offset(stages, index, f),
    decreases o,
{
    if exists|p: int| 1 <= p < o && #[trigger] work_at_offset(stages, index, p) {
        let p = choose|p: int| 1 <= p < o && #[trigger] work_at_offset(stages, index, p);
        lemma_first_work_offset_exists(stages, index, p);
    } else {
        assert(is_first_work_offset(stages, index, o));
    }
}

proof fn lemma_offset_reaches(index: int, j: int, n: int)
    requires
        0 <= index,
        0 <= j < n,
    ensures
        j > index % n ==> (index + (j - index % n)) % n == j,
        j <= index % n ==> (index + (j - index % n + n)) % n == j,
{
    vstd::arithmetic::div_mod::lemma_fundamental_div_mod(index, n);
    let q = index / n;
    let r = index % n;
    vstd::arithmetic::div_mod::lemma_small_mod(j as nat, n as nat);
    if j > r {
        assert(index + (j - r) == n * q + j);
        vstd::arithmetic::div_mod::lemma_mod_multiples_vanish(q, j, n);
    } else {
        assert(index + (j - r + n) == n * (q + 1) + j) by (nonlinear_arith)
            requires
                index == n * q + r,
        ;
        vstd::arithmetic::div_mod::lemma_mod_multiples_vanish(q + 1, j, n);
    }
}

} // verus!
