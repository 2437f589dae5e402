//! Progressive reveal of curve segments.
//!
//! Each segment (keyed by the identity of its upper path point) has a
//! reveal progress: how many of its `STEPS` parametric samples are drawn.
//! Progress is a pure function of the time elapsed since the segment's
//! record began, rising linearly to full reveal over the record's window.
//! A segment without a record counts as fully revealed, so only points
//! seeded at creation animate in.

use crate::bezier::BezPoint;
use vstd::arithmetic::div_mod::{lemma_div_is_ordered, lemma_div_multiples_vanish,
    lemma_div_pos_is_pos};
use vstd::prelude::*;

verus! {

/// Reveal window for a freshly created segment, milliseconds.
pub const CREATE_WINDOW_MS: u64 = 500;

/// One segment's reveal record.
#[derive(Clone, Copy, PartialEq, Eq, Structural, Debug)]
pub struct AnimEntry {
    pub id: u64,
    pub elapsed: u64,
    pub window: u64,
}

/// All reveal records, at most one per segment identity.
pub struct AnimState {
    pub entries: Vec<AnimEntry>,
}

/// The revealed counts a path's segments see this frame, in order:
/// entry `i` is the reveal of the segment ending at point `i + 1`.
pub open spec fn segment_reveals(anim: AnimState, points: Seq<BezPoint>) -> Seq<u64> {
    Seq::new(
        if points.len() == 0 {
            0
        } else {
            (points.len() - 1) as nat
        },
        |i: int| anim.spec_revealed(points[i + 1].id) as u64,
    )
}

/// Samples revealed by a record: elapsed time scaled linearly into
/// `[0, 100]` over the window.
pub open spec fn reveal_of(e: AnimEntry) -> int {
    (e.elapsed as int * 100) / (e.window as int)
}

impl AnimState {
    pub open spec fn wf(self) -> bool {
        &&& forall|i: int|
            0 <= i < self.entries@.len() ==> 1 <= (#[trigger] self.entries@[i]).window <= 1000
                && self.entries@[i].elapsed <= self.entries@[i].window
        &&& forall|i: int, j: int|
            0 <= i < j < self.entries@.len() ==> self.entries@[i].id != self.entries@[j].id
    }

    pub open spec fn has_entry(self, id: u64) -> bool {
        exists|i: int| 0 <= i < self.entries@.len() && self.entries@[i].id == id
    }

    pub open spec fn index_of(self, id: u64) -> int {
        choose|i: int| 0 <= i < self.entries@.len() && self.entries@[i].id == id
    }

    /// Revealed sample count for the segment ending at the point with
    /// this identity; a segment never seeded is fully revealed.
    pub open spec fn spec_revealed(self, id: u64) -> int {
        if self.has_entry(id) {
            reveal_of(self.entries@[self.index_of(id)])
        } else {
            100
        }
    }

    proof fn lemma_index_unique(self, id: u64, j: int)
        requires
            self.wf(),
            0 <= j < self.entries@.len(),
            self.entries@[j].id == id,
        ensures
            self.has_entry(id),
            self.index_of(id) == j,
    {
        assert(self.has_entry(id));
        let i = self.index_of(id);
        assert(0 <= i < self.entries@.len() && self.entries@[i].id == id);
        if i != j {
            if i < j {
                assert(self.entries@[i].id != self.entries@[j].id);
            } else {
                assert(self.entries@[j].id != self.entries@[i].id);
            }
        }
    }

    /// A state with no records: everything fully revealed.
    pub fn new() -> (r: AnimState)
        ensures
            r.wf(),
            r.entries@.len() == 0,
            forall|id: u64| r.spec_revealed(id) == 100,
    {
        AnimState { entries: Vec::new() }
    }

    /// Seeds (or resets) the record for `id` at zero progress over the
    /// creation window, leaving every other segment's progress as it was.
    pub fn start(&mut self, id: u64)
        requires
            old(self).wf(),
        ensures
            final(self).wf(),
            final(self).spec_revealed(id) == 0,
            forall|o: u64|
                o != id ==> final(self).spec_revealed(o) == old(self).spec_revealed(o),
    {
        let n = self.entries.len();
        let mut j: usize = 0;
        while j < n
            invariant
                old(self).wf(),
                n == self.entries@.len(),
                j <= n,
                self.entries@ == old(self).entries@,
                forall|l: int| 0 <= l < j ==> self.entries@[l].id != id,
            decreases n - j,
        {
            if self.entries[j].id == id {
                let fresh = AnimEntry { id, elapsed: 0, window: CREATE_WINDOW_MS };
                self.entries.set(j, fresh);
                proof {
                    let ghost news = *self;
                    assert(news.entries@ == old(self).entries@.update(j as int, fresh));
                    assert forall|i: int|
                        0 <= i < news.entries@.len() implies 1 <= (
                    #[trigger] news.entries@[i]).window <= 1000 && news.entries@[i].elapsed
                        <= news.entries@[i].window by {
                        if i != j {
                            assert(news.entries@[i] == old(self).entries@[i]);
                        } else {
                            assert(news.entries@[i] == fresh);
                        }
                    }
                    assert forall|a: int, b: int|
                        0 <= a < b < news.entries@.len() implies news.entries@[a].id
                        != news.entries@[b].id by {
                        assert(old(self).entries@[a].id != old(self).entries@[b].id);
                    }
                    news.lemma_index_unique(id, j as int);
                    assert(reveal_of(fresh) == 0 as int * 100 / (CREATE_WINDOW_MS as int));
                    lemma_div_pos_is_pos(0, CREATE_WINDOW_MS as int);
                    lemma_div_is_ordered(0, 0, CREATE_WINDOW_MS as int);
                    assert(0 as int * 100 == 0);
                    assert(0 as int / (CREATE_WINDOW_MS as int) == 0) by {
                        vstd::arithmetic::div_mod::lemma_div_of0(CREATE_WINDOW_MS as int);
                    }
                    assert forall|o: u64| o != id implies news.spec_revealed(o) == old(
                        self,
                    ).spec_revealed(o) by {
                        if old(self).has_entry(o) {
                            let l = old(self).index_of(o);
                            assert(l != j);
                            assert(news.entries@[l].id == o);
                            news.lemma_index_unique(o, l);
                        } else {
                            if news.has_entry(o) {
                                let l = news.index_of(o);
                                assert(l != j);
                                assert(old(self).entries@[l].id == o);
                            }
                        }
                    }
                }
                return ;
            }
            j += 1;
        }
        let fresh = AnimEntry { id, elapsed: 0, window: CREATE_WINDOW_MS };
        self.entries.push(fresh);
        proof {
            let ghost news = *self;
            assert(news.entries@ == old(self).entries@.push(fresh));
            assert forall|i: int|
                0 <= i < news.entries@.len() implies 1 <= (#[trigger] news.entries@[i]).window
                <= 1000 && news.entries@[i].elapsed <= news.entries@[i].window by {
                if i < news.entries@.len() - 1 {
                    assert(news.entries@[i] == old(self).entries@[i]);
                } else {
                    assert(news.entries@[i] == fresh);
                }
            }
            assert forall|a: int, b: int|
                0 <= a < b < news.entries@.len() implies news.entries@[a].id != news.entries@[b].id
                by {
                if b < news.entries@.len() - 1 {
                    assert(old(self).entries@[a].id != old(self).entries@[b].id);
                } else {
                    assert(news.entries@[b] == fresh);
                    assert(old(self).entries@[a].id != id);
                }
            }
            news.lemma_index_unique(id, news.entries@.len() - 1);
            assert(0 as int / (CREATE_WINDOW_MS as int) == 0) by {
                vstd::arithmetic::div_mod::lemma_div_of0(CREATE_WINDOW_MS as int);
            }
            assert forall|o: u64| o != id implies news.spec_revealed(o) == old(
                self,
            ).spec_revealed(o) by {
                if old(self).has_entry(o) {
                    let l = old(self).index_of(o);
                    assert(news.entries@[l].id == o);
                    news.lemma_index_unique(o, l);
                } else {
                    if news.has_entry(o) {
                        let l = news.index_of(o);
                        assert(l < news.entries@.len() - 1);
                        assert(old(self).entries@[l].id == o);
                    }
                }
            }
        }
    }

    /// Advances every record by the frame's elapsed time, capped at its
    /// window. No segment's revealed count ever goes down.
    pub fn advance(&mut self, dt: u64)
        requires
            old(self).wf(),
        ensures
            final(self).wf(),
            final(self).entries@.len() == old(self).entries@.len(),
            forall|i: int|
                0 <= i < old(self).entries@.len() ==> {
                    let e = old(self).entries@[i];
                    let f = #[trigger] final(self).entries@[i];
                    f.id == e.id && f.window == e.window && f.elapsed == if dt >= e.window
                        - e.elapsed {
                        e.window
                    } else {
                        (e.elapsed + dt) as u64
                    }
                },
            forall|id: u64|
                #[trigger] final(self).spec_revealed(id) >= old(self).spec_revealed(id),
    {
        let n = self.entries.len();
        let mut j: usize = 0;
        while j < n
            invariant
                old(self).wf(),
                n == self.entries@.len(),
                n == old(self).entries@.len(),
                j <= n,
                forall|i: int|
                    0 <= i < n ==> (#[trigger] self.entries@[i]).id == old(self).entries@[i].id
                        && self.entries@[i].window == old(self).entries@[i].window,
                forall|i: int|
                    j <= i < n ==> #[trigger] self.entries@[i] == old(self).entries@[i],
                forall|i: int|
                    0 <= i < j ==> {
                        let e = old(self).entries@[i];
                        let f = #[trigger] self.entries@[i];
                        f.elapsed == if dt >= e.window - e.elapsed {
                            e.window
                        } else {
                            (e.elapsed + dt) as u64
                        }
                    },
            decreases n - j,
        {
            let e = self.entries[j];
            let grown = if dt >= e.window - e.elapsed {
                AnimEntry { id: e.id, elapsed: e.window, window: e.window }
            } else {
                AnimEntry { id: e.id, elapsed: e.elapsed + dt, window: e.window }
            };
            self.entries.set(j, grown);
            j += 1;
        }
        proof {
            let ghost news = *self;
            assert forall|id: u64|
                #[trigger] news.spec_revealed(id) >= old(self).spec_revealed(id) by {
                if old(self).has_entry(id) {
                    let l = old(self).index_of(id);
                    assert(news.entries@[l].id == id);
                    news.lemma_index_unique(id, l);
                    let e = old(self).entries@[l];
                    let f = news.entries@[l];
                    assert(e.elapsed <= f.elapsed <= f.window);
                    lemma_div_is_ordered(
                        e.elapsed as int * 100,
                        f.elapsed as int * 100,
                        e.window as int,
                    );
                } else {
                    if news.has_entry(id) {
                        let l = news.index_of(id);
                        assert(old(self).entries@[l].id == id);
                    }
                }
            }
        }
    }

    /// Revealed sample count for the segment keyed by `id`, between 0
    /// and the full `STEPS`.
    pub fn revealed(&self, id: u64) -> (r: u64)
        requires
            self.wf(),
        ensures
            r as int == self.spec_revealed(id),
            r <= 100,
    {
        let n = self.entries.len();
        let mut j: usize = 0;
        while j < n
            invariant
                self.wf(),
                n == self.entries@.len(),
                j <= n,
                forall|l: int| 0 <= l < j ==> self.entries@[l].id != id,
            decreases n - j,
        {
            let e = self.entries[j];
            if e.id == id {
                proof {
                    self.lemma_index_unique(id, j as int);
                    lemma_div_pos_is_pos(e.elapsed as int * 100, e.window as int);
                    lemma_div_is_ordered(
                        e.elapsed as int * 100,
                        e.window as int * 100,
                        e.window as int,
                    );
                    assert(e.window as int * 100 == 100 * (e.window as int));
                    lemma_div_multiples_vanish(100, e.window as int);
                }
                return (e.elapsed * 100) / e.window;
            }
            j += 1;
        }
        100
    }

    /// Revealed counts for a path's segments, in order: entry `i` is the
    /// reveal of the segment ending at point `i + 1`.
    pub fn revealed_for_segments(&self, points: &Vec<BezPoint>) -> (r: Vec<u64>)
        requires
            self.wf(),
        ensures
            points@.len() >= 1 ==> r@.len() == points@.len() - 1,
            points@.len() == 0 ==> r@.len() == 0,
            forall|i: int|
                0 <= i < r@.len() ==> #[trigger] r@[i] as int == self.spec_revealed(
                    points@[i + 1].id,
                ) && r@[i] <= 100,
    {
        let mut r: Vec<u64> = Vec::new();
        let n = points.len();
        if n == 0 {
            return r;
        }
        let mut i: usize = 1;
        while i < n
            invariant
                self.wf(),
                n == points@.len(),
                1 <= i <= n,
                r@.len() == i - 1,
                forall|l: int|
                    0 <= l < r@.len() ==> #[trigger] r@[l] as int == self.spec_revealed(
                        points@[l + 1].id,
                    ) && r@[l] <= 100,
            decreases n - i,
        {
            let v = self.revealed(points[i].id);
            r.push(v);
            i += 1;
        }
        r
    }
}

} // verus!
