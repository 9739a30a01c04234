//! The per-frame scheduler: the sliding window of visible hit objects, driven
//! by the playback clock.
use std::collections::VecDeque;
use vstd::prelude::*;

use crate::chart::{hit_object_views, Colours, HitObject, HitObjectView, Rgb};
use crate::hit_type::HitObjectFlag;

verus! {

/// The combo index after the first `k` objects have been taken, starting at 0:
/// each new-combo object advances it, wrapping at `n` (and staying 0 where
/// there is no palette).
pub open spec fn combo_after(objs: Seq<HitObjectView>, k: int, n: nat) -> nat
    decreases k,
{
    if k <= 0 {
        0
    } else {
        let c = combo_after(objs, k - 1, n);
        if objs[k - 1].obj_type.has(HitObjectFlag::NewCombo) {
            if c + 1 >= n {
                0
            } else {
                (c + 1) as nat
            }
        } else {
            c
        }
    }
}

proof fn lemma_combo_bound(objs: Seq<HitObjectView>, k: int, n: nat)
    ensures
        combo_after(objs, k, n) == 0 || combo_after(objs, k, n) < n,
    decreases k,
{
    if k > 0 {
        lemma_combo_bound(objs, k - 1, n);
    }
}

/// The window holding objects `lo..hi`, newest first, each with the combo
/// index it was taken with.
pub open spec fn window_model(objs: Seq<HitObjectView>, lo: int, hi: int, n: nat) -> Seq<
    (usize, usize),
> {
    Seq::new(
        (hi - lo) as nat,
        |j: int| ((hi - 1 - j) as usize, combo_after(objs, hi - j, n) as usize),
    )
}

/// Where the forward scan stops: the first object from `from` on whose time
/// is past `limit`.
pub open spec fn admit_end(objs: Seq<HitObjectView>, from: int, limit: int) -> int
    decreases objs.len() - from,
{
    if 0 <= from < objs.len() && objs[from].time <= limit {
        admit_end(objs, from + 1, limit)
    } else {
        from
    }
}

/// Where eviction stops: the oldest object from `lo` on, before `hi`, that is
/// still within `fade` of `elapsed`.
pub open spec fn evict_end(objs: Seq<HitObjectView>, lo: int, hi: int, elapsed: int, fade: int) -> int
    decreases hi - lo,
{
    if 0 <= lo < hi && lo < objs.len() && objs[lo].time + fade < elapsed {
        evict_end(objs, lo + 1, hi, elapsed, fade)
    } else {
        lo
    }
}

/// The visible window over a chart's hit objects, and how far it has read.
pub struct Scheduler {
    /// Visible entries, newest first: an object's index and its combo index.
    pub window: VecDeque<(usize, usize)>,
    /// Next object to take.
    pub next_index: usize,
    /// Combo index of the most recently taken object.
    pub combo_index: usize,
}

impl Scheduler {
    /// First object still in the window.
    pub open spec fn lo(&self) -> int {
        self.next_index - self.window@.len()
    }

    /// The window matches the objects `lo..next_index` of `objs` with a palette
    /// of `n` colours.
    pub open spec fn wf(&self, objs: Seq<HitObjectView>, n: nat) -> bool {
        &&& self.next_index <= objs.len()
        &&& self.window@.len() <= self.next_index
        &&& self.combo_index == combo_after(objs, self.next_index as int, n)
        &&& self.window@ == window_model(objs, self.lo(), self.next_index as int, n)
    }

    /// A scheduler that has taken nothing yet.
    pub fn new() -> (r: Scheduler)
        ensures
            r.next_index == 0,
            r.combo_index == 0,
            r.window@.len() == 0,
            forall|objs: Seq<HitObjectView>, n: nat| r.wf(objs, n),
    {
        let r = Scheduler { window: VecDeque::new(), next_index: 0, combo_index: 0 };
        assert forall|objs: Seq<HitObjectView>, n: nat| r.wf(objs, n) by {
            assert(r.window@ =~= window_model(objs, 0, 0, n));
        }
        r
    }

    /// One frame at `elapsed_ms`: takes every object due within `preempt_ms`,
    /// then drops from the old end every entry more than `fade_ms` past. The
    /// result says whether the chart is finished: nothing visible and nothing
    /// left to take.
    pub fn advance(
        &mut self,
        elapsed_ms: i64,
        preempt_ms: i32,
        fade_ms: i32,
        objects: &Vec<HitObject>,
        combo_count: usize,
    ) -> (finished: bool)
        requires
            old(self).wf(hit_object_views(objects@), combo_count as nat),
        ensures
            final(self).wf(hit_object_views(objects@), combo_count as nat),
            final(self).next_index == admit_end(
                hit_object_views(objects@),
                old(self).next_index as int,
                elapsed_ms as int + preempt_ms as int,
            ),
            final(self).lo() == evict_end(
                hit_object_views(objects@),
                old(self).lo(),
                final(self).next_index as int,
                elapsed_ms as int,
                fade_ms as int,
            ),
            finished == (final(self).window@.len() == 0 && final(self).next_index
                >= objects@.len()),
    {
        let ghost objs = hit_object_views(objects@);
        let ghost n = combo_count as nat;
        let ghost lo0 = self.lo();
        let ghost limit: int = elapsed_ms as int + preempt_ms as int;
        let ghost start = self.next_index as int;
        while self.next_index < objects.len() && (objects[self.next_index].time as i64) - (
        preempt_ms as i64) <= elapsed_ms
            invariant
                objs == hit_object_views(objects@),
                n == combo_count as nat,
                self.wf(objs, n),
                self.lo() == lo0,
                start <= self.next_index,
                limit == elapsed_ms as int + preempt_ms as int,
                admit_end(objs, start, limit) == admit_end(objs, self.next_index as int, limit),
            decreases objects@.len() - self.next_index,
        {
            let i = self.next_index;
            assert(objs.len() == objects@.len());
            assert(objs[i as int] == objects@[i as int]@);
            assert(objects@[i as int].time as int - preempt_ms as int <= elapsed_ms as int);
            assert(admit_end(objs, i as int, limit) == admit_end(objs, i + 1, limit));
            proof {
                lemma_combo_bound(objs, i as int, n);
            }
            if objects[i].obj_type.contains(HitObjectFlag::NewCombo) {
                self.combo_index = if self.combo_index + 1 >= combo_count {
                    0
                } else {
                    self.combo_index + 1
                };
            }
            self.window.push_front((i, self.combo_index));
            self.next_index = i + 1;
            assert(self.window@ =~= window_model(objs, self.lo(), self.next_index as int, n));
        }
        let ghost hi = self.next_index as int;
        while self.window.len() > 0 && (objects[self.next_index - self.window.len()].time as i64)
            + (fade_ms as i64) < elapsed_ms
            invariant
                objs == hit_object_views(objects@),
                n == combo_count as nat,
                self.wf(objs, n),
                self.next_index == hi,
                lo0 <= self.lo(),
                evict_end(objs, lo0, hi, elapsed_ms as int, fade_ms as int) == evict_end(
                    objs,
                    self.lo(),
                    hi,
                    elapsed_ms as int,
                    fade_ms as int,
                ),
            decreases self.window@.len(),
        {
            let lo = self.next_index - self.window.len();
            assert(objs.len() == objects@.len());
            assert(objs[lo as int] == objects@[lo as int]@);
            let _ = self.window.pop_back();
            assert(self.window@ =~= window_model(objs, self.lo(), hi, n));
        }
        self.window.len() == 0 && self.next_index >= objects.len()
    }

    /// The visible entries, newest first.
    pub fn visible(&self) -> (r: Vec<(usize, usize)>)
        ensures
            r@ == self.window@,
    {
        let mut r: Vec<(usize, usize)> = Vec::new();
        let mut k: usize = 0;
        while k < self.window.len()
            invariant
                k <= self.window@.len(),
                r@ == self.window@.subrange(0, k as int),
            decreases self.window@.len() - k,
        {
            r.push(self.window[k]);
            k = k + 1;
            assert(r@ =~= self.window@.subrange(0, k as int));
        }
        assert(self.window@.subrange(0, self.window@.len() as int) =~= self.window@);
        r
    }
}

/// The colour an entry is drawn in: white once its time has come, before that
/// its combo colour (white where the palette has no such colour).
pub open spec fn entry_colour_spec(time: i32, combo_index: usize, combos: Seq<Rgb>, elapsed_ms: i64) -> Rgb {
    if elapsed_ms >= time || combo_index >= combos.len() {
        (255, 255, 255)
    } else {
        combos[combo_index as int]
    }
}

pub fn entry_colour(object: &HitObject, combo_index: usize, colours: &Colours, elapsed_ms: i64) -> (r: Rgb)
    ensures
        r == entry_colour_spec(object.time, combo_index, colours@.combos, elapsed_ms),
{
    if elapsed_ms >= object.time as i64 || combo_index >= colours.combos.len() {
        (255, 255, 255)
    } else {
        colours.combos[combo_index]
    }
}

/// The read cursor and the window's old end only move forward.
pub proof fn lemma_scan_forward(objs: Seq<HitObjectView>, from: int, lo: int, hi: int, limit: int, elapsed: int, fade: int)
    requires
        0 <= from <= objs.len(),
        lo <= hi,
    ensures
        from <= admit_end(objs, from, limit) <= objs.len(),
        lo <= evict_end(objs, lo, hi, elapsed, fade) <= hi,
    decreases objs.len() - from + (hi - lo),
{
    if from < objs.len() && objs[from].time <= limit {
        lemma_scan_forward(objs, from + 1, lo, hi, limit, elapsed, fade);
    }
    if 0 <= lo < hi && lo < objs.len() && objs[lo].time + fade < elapsed {
        lemma_scan_forward(objs, from, lo + 1, hi, limit, elapsed, fade);
    }
}

/// Every object that a scan takes is due: its time is within the limit.
pub proof fn lemma_admitted_are_due(objs: Seq<HitObjectView>, from: int, limit: int)
    requires
        0 <= from <= objs.len(),
    ensures
        forall|i: int| from <= i < admit_end(objs, from, limit) ==> #[trigger] objs[i].time <= limit,
    decreases objs.len() - from,
{
    if from < objs.len() && objs[from].time <= limit {
        lemma_admitted_are_due(objs, from + 1, limit);
    }
}

/// Where times do not decrease, eviction leaves no expired entry: every object
/// still in the window is within `fade` of `elapsed`.
pub proof fn lemma_sorted_window_fresh(
    objs: Seq<HitObjectView>,
    lo: int,
    hi: int,
    elapsed: int,
    fade: int,
)
    requires
        0 <= lo <= hi <= objs.len(),
        forall|i: int, j: int| lo <= i <= j < hi ==> #[trigger] objs[i].time <= #[trigger] objs[j].time,
    ensures
        forall|i: int| evict_end(objs, lo, hi, elapsed, fade) <= i < hi ==> #[trigger] objs[i].time + fade >= elapsed,
    decreases hi - lo,
{
    if lo < hi && objs[lo].time + fade < elapsed {
        lemma_sorted_window_fresh(objs, lo + 1, hi, elapsed, fade);
    } else if lo < hi {
        assert forall|i: int| lo <= i < hi implies #[trigger] objs[i].time + fade >= elapsed by {
            assert(objs[lo].time <= objs[i].time);
        }
    }
}

} // verus!
