//! The editor state and its mode-driven interaction.
//!
//! `PathyApp` owns the path and the session state. A frame's input is
//! dispatched here as plain values: mode toggles, one click (at most one
//! structural edit), lock acquisition and release for a drag, and the
//! drag's position updates. Selection is an index into the path plus the
//! pointer's implied hold, so all mutation goes through the path by
//! index and nothing can alias a point.

use crate::anim::AnimState;
use crate::bezier::{
    field_coord, in_rect, is_first_bez, is_smooth_bez, lemma_field_coord_in_rect, make_first_bez,
    make_smooth_bez, screen_in, view_ok, wf_bez, BezPoint, Point, ScreenPoint, ANCHOR_LIMIT,
    COORD_LIMIT, SCALE_LIMIT, SCREEN_LIMIT, SIZE_LIMIT,
};
use crate::hit::{anchor_hit, curve_hit, point_hit, sample_dist, sample_pos, valid_sample};
use crate::path;
use vstd::prelude::*;

verus! {

/// The active editing mode; exactly one at a time. Entering a mode that
/// is already active returns to `Default` (a toggle, not momentary).
#[derive(PartialEq, Eq, Structural, Debug, Clone, Copy)]
pub enum CursorMode {
    Default,
    Create,
    Insert,
    Delete,
    Trim,
}

/// The editor: field size (milli-inches), screen scale (pixels), the
/// active mode, the path, the selected (drag-locked) point's index, and
/// the next point identity to hand out.
pub struct PathyApp {
    pub size: i64,
    pub scale: u32,
    pub cursor_mode: CursorMode,
    pub points: Vec<BezPoint>,
    pub selected: Option<usize>,
    pub next_id: u64,
}

/// Whether some anchor's hit circle contains the pointer.
pub open spec fn any_anchor_hit(
    points: Seq<BezPoint>,
    ptr: ScreenPoint,
    scale: int,
    size: int,
    origin: ScreenPoint,
    radius: int,
) -> bool {
    exists|j: int| 0 <= j < points.len() && anchor_hit(points[j], ptr, scale, size, origin, radius)
}

/// Whether `i` is the first anchor, in path order, whose hit circle
/// contains the pointer.
pub open spec fn first_anchor_hit(
    points: Seq<BezPoint>,
    ptr: ScreenPoint,
    scale: int,
    size: int,
    origin: ScreenPoint,
    radius: int,
    i: int,
) -> bool {
    &&& 0 <= i < points.len()
    &&& anchor_hit(points[i], ptr, scale, size, origin, radius)
    &&& forall|j: int| 0 <= j < i ==> !anchor_hit(points[j], ptr, scale, size, origin, radius)
}

/// Whether `(s, t)` is the sample the curve query reports: nearest to
/// the pointer, earliest on ties.
pub open spec fn best_sample(
    points: Seq<BezPoint>,
    revealed: Seq<u64>,
    ptr: ScreenPoint,
    scale: int,
    size: int,
    origin: ScreenPoint,
    s: int,
    t: int,
) -> bool {
    &&& valid_sample(revealed, s, t)
    &&& forall|s2: int, t2: int|
        valid_sample(revealed, s2, t2) ==> sample_dist(points, s2, t2, scale, size, origin, ptr)
            >= sample_dist(points, s, t, scale, size, origin, ptr)
    &&& forall|s2: int, t2: int|
        valid_sample(revealed, s2, t2) && crate::hit::sample_before(s2, t2, s, t) ==> sample_dist(
            points,
            s2,
            t2,
            scale,
            size,
            origin,
            ptr,
        ) > sample_dist(points, s, t, scale, size, origin, ptr)
}

/// At most one sample is the query's answer.
pub proof fn lemma_best_sample_unique(
    points: Seq<BezPoint>,
    revealed: Seq<u64>,
    ptr: ScreenPoint,
    scale: int,
    size: int,
    origin: ScreenPoint,
    s1: int,
    t1: int,
    s2: int,
    t2: int,
)
    requires
        best_sample(points, revealed, ptr, scale, size, origin, s1, t1),
        best_sample(points, revealed, ptr, scale, size, origin, s2, t2),
    ensures
        s1 == s2 && t1 == t2,
{
    if s1 != s2 || t1 != t2 {
        if crate::hit::sample_before(s1, t1, s2, t2) {
            assert(sample_dist(points, s1, t1, scale, size, origin, ptr) > sample_dist(
                points,
                s2,
                t2,
                scale,
                size,
                origin,
                ptr,
            ));
        } else {
            assert(crate::hit::sample_before(s2, t2, s1, t1));
            assert(sample_dist(points, s2, t2, scale, size, origin, ptr) > sample_dist(
                points,
                s1,
                t1,
                scale,
                size,
                origin,
                ptr,
            ));
        }
    }
}

/// Everything a click in Create mode guarantees: a hit point under the
/// pointer or a pointer outside the field rectangle leaves all state as
/// it was; otherwise exactly one point is appended under the handle rule
/// for the path's length, the identity counter steps, and a non-first
/// point's reveal animation is seeded at zero.
pub open spec fn create_click_post(
    pre: PathyApp,
    post: PathyApp,
    anim_pre: AnimState,
    anim_post: AnimState,
    ptr: ScreenPoint,
    origin: ScreenPoint,
    radius: i64,
) -> bool {
    &&& PathyApp::same_view(pre, post)
    &&& post.selected == pre.selected
    &&& (any_anchor_hit(pre.points@, ptr, pre.scale as int, pre.size as int, origin, radius as int)
        || !in_rect(ptr, origin, pre.scale as int) ==> post.points@ == pre.points@ && post.next_id
        == pre.next_id && anim_post == anim_pre)
    &&& (!any_anchor_hit(
        pre.points@,
        ptr,
        pre.scale as int,
        pre.size as int,
        origin,
        radius as int,
    ) && in_rect(ptr, origin, pre.scale as int) ==> {
        let a = Point {
            x: field_coord(ptr.x as int, origin.x as int, pre.scale as int, pre.size as int) as i64,
            y: field_coord(ptr.y as int, origin.y as int, pre.scale as int, pre.size as int) as i64,
        };
        post.points@.len() == pre.points@.len() + 1 && post.points@.subrange(
            0,
            pre.points@.len() as int,
        ) == pre.points@ && post.next_id == pre.next_id + 1 && (if pre.points@.len() == 0 {
            is_first_bez(post.points@.last(), a, pre.next_id) && anim_post == anim_pre
        } else {
            is_smooth_bez(post.points@.last(), pre.points@.last().cp2, a, pre.next_id)
                && anim_post.spec_revealed(pre.next_id) == 0 && (forall|o: u64|
                o != pre.next_id ==> anim_post.spec_revealed(o) == anim_pre.spec_revealed(o))
        })
    })
}

/// Everything a click in Insert mode guarantees: no hover, no drawn
/// sample, a vertical tangent at the nearest sample, or a sample mapping
/// out of coordinate range leaves the path as it was; otherwise one
/// smooth-join point is inserted just after the nearest sample's
/// segment, anchored at that sample mapped back to field space.
pub open spec fn insert_click_post(
    pre: PathyApp,
    post: PathyApp,
    ptr: Option<ScreenPoint>,
    origin: ScreenPoint,
    revealed: Seq<u64>,
) -> bool {
    &&& PathyApp::same_view(pre, post)
    &&& post.selected == pre.selected
    &&& (ptr is None || (forall|s: int, t: int| !valid_sample(revealed, s, t)) ==> post.points@
        == pre.points@ && post.next_id == pre.next_id)
    &&& (ptr matches Some(p) ==> ((exists|s: int, t: int| valid_sample(revealed, s, t)) ==> {
        exists|s: int, t: int|
            {
                &&& #[trigger] best_sample(
                    pre.points@,
                    revealed,
                    p,
                    pre.scale as int,
                    pre.size as int,
                    origin,
                    s,
                    t,
                )
                &&& {
                    let pos = sample_pos(pre.points@, s, t, pre.scale as int, pre.size as int,
                        origin);
                    let fx = field_coord(pos.x as int, origin.x as int, pre.scale as int,
                        pre.size as int);
                    let fy = field_coord(pos.y as int, origin.y as int, pre.scale as int,
                        pre.size as int);
                    if crate::bezier::slope_dx_num(pre.points@[s], pre.points@[s + 1], t) == 0 || !(
                    -ANCHOR_LIMIT <= fx <= ANCHOR_LIMIT && -ANCHOR_LIMIT <= fy <= ANCHOR_LIMIT) {
                        post.points@ == pre.points@ && post.next_id == pre.next_id
                    } else {
                        post.points@ == pre.points@.insert(s + 1, post.points@[s + 1])
                            && is_smooth_bez(
                            post.points@[s + 1],
                            pre.points@[s].cp2,
                            Point { x: fx as i64, y: fy as i64 },
                            pre.next_id,
                        ) && post.next_id == pre.next_id + 1
                    }
                }
            }
    }))
}

/// Everything a click in Delete mode guarantees: no point under the
/// pointer leaves all state as it was; otherwise the first point under
/// the pointer is removed and the selection is released or shifted so it
/// stays on the point it named.
pub open spec fn delete_click_post(
    pre: PathyApp,
    post: PathyApp,
    ptr: ScreenPoint,
    origin: ScreenPoint,
    radius: i64,
) -> bool {
    &&& PathyApp::same_view(pre, post)
    &&& post.next_id == pre.next_id
    &&& (!any_anchor_hit(
        pre.points@,
        ptr,
        pre.scale as int,
        pre.size as int,
        origin,
        radius as int,
    ) ==> post.points@ == pre.points@ && post.selected == pre.selected)
    &&& (any_anchor_hit(pre.points@, ptr, pre.scale as int, pre.size as int, origin, radius as int)
        ==> exists|i: int|
        {
            &&& #[trigger] first_anchor_hit(
                pre.points@,
                ptr,
                pre.scale as int,
                pre.size as int,
                origin,
                radius as int,
                i,
            )
            &&& post.points@ == pre.points@.remove(i)
            &&& post.selected == match pre.selected {
                Option::None => Option::<usize>::None,
                Option::Some(k) => if k as int == i {
                    Option::<usize>::None
                } else if k as int > i {
                    Option::<usize>::Some((k - 1) as usize)
                } else {
                    Option::<usize>::Some(k)
                },
            }
        })
}

/// Everything a click in Trim mode guarantees: no point under the
/// pointer leaves all state as it was; otherwise the path is cut to the
/// points before the first point under the pointer, and a selection at
/// or past the cut is released.
pub open spec fn trim_click_post(
    pre: PathyApp,
    post: PathyApp,
    ptr: ScreenPoint,
    origin: ScreenPoint,
    radius: i64,
) -> bool {
    &&& PathyApp::same_view(pre, post)
    &&& post.next_id == pre.next_id
    &&& (!any_anchor_hit(
        pre.points@,
        ptr,
        pre.scale as int,
        pre.size as int,
        origin,
        radius as int,
    ) ==> post.points@ == pre.points@ && post.selected == pre.selected)
    &&& (any_anchor_hit(pre.points@, ptr, pre.scale as int, pre.size as int, origin, radius as int)
        ==> exists|i: int|
        {
            &&& #[trigger] first_anchor_hit(
                pre.points@,
                ptr,
                pre.scale as int,
                pre.size as int,
                origin,
                radius as int,
                i,
            )
            &&& post.points@ == pre.points@.subrange(0, i)
            &&& post.selected == match pre.selected {
                Option::None => Option::<usize>::None,
                Option::Some(k) => if k as int >= i {
                    Option::<usize>::None
                } else {
                    Option::<usize>::Some(k)
                },
            }
        })
}

impl PathyApp {
    /// Structural soundness of the whole state: view parameters within
    /// their machine bounds, every path point well formed, identities
    /// unique and below the counter, and a selection in range.
    pub open spec fn wf(self) -> bool {
        &&& 1 <= self.size <= SIZE_LIMIT
        &&& 1 <= self.scale <= SCALE_LIMIT
        &&& forall|i: int| 0 <= i < self.points@.len() ==> wf_bez(#[trigger] self.points@[i])
        &&& forall|i: int|
            0 <= i < self.points@.len() ==> (#[trigger] self.points@[i]).id < self.next_id
        &&& forall|i: int, j: int|
            0 <= i < j < self.points@.len() ==> self.points@[i].id != self.points@[j].id
        &&& self.selected matches Some(k) ==> (k as int) < self.points@.len()
    }

    /// The session-independent view parameters, unchanged by an edit.
    pub open spec fn same_view(pre: PathyApp, post: PathyApp) -> bool {
        post.size == pre.size && post.scale == pre.scale && post.cursor_mode == pre.cursor_mode
    }

    /// Toggle semantics of mode selection: picking the active mode
    /// returns to `Default`, any other becomes active; nothing else
    /// changes.
    pub fn toggle_mode(&mut self, mode: CursorMode)
        requires
            old(self).wf(),
        ensures
            final(self).wf(),
            final(self).cursor_mode == if old(self).cursor_mode == mode {
                CursorMode::Default
            } else {
                mode
            },
            final(self).size == old(self).size,
            final(self).scale == old(self).scale,
            final(self).points@ == old(self).points@,
            final(self).selected == old(self).selected,
            final(self).next_id == old(self).next_id,
    {
        if self.cursor_mode == mode {
            self.cursor_mode = CursorMode::Default;
        } else {
            self.cursor_mode = mode;
        }
    }

    /// Empties the path and drops any selection.
    pub fn clear(&mut self)
        requires
            old(self).wf(),
        ensures
            final(self).wf(),
            final(self).points@.len() == 0,
            final(self).selected is None,
            PathyApp::same_view(*old(self), *final(self)),
            final(self).next_id == old(self).next_id,
    {
        self.points.clear();
        self.selected = None;
    }

    /// Sets the field size, clamped into range; refused once the path
    /// has points.
    pub fn set_size(&mut self, v: i64)
        requires
            old(self).wf(),
        ensures
            final(self).wf(),
            old(self).points@.len() == 0 ==> final(self).size == if v < 1 {
                1i64
            } else if v > SIZE_LIMIT {
                SIZE_LIMIT
            } else {
                v
            },
            old(self).points@.len() > 0 ==> final(self).size == old(self).size,
            final(self).scale == old(self).scale,
            final(self).cursor_mode == old(self).cursor_mode,
            final(self).points@ == old(self).points@,
            final(self).selected == old(self).selected,
            final(self).next_id == old(self).next_id,
    {
        if self.points.len() == 0 {
            self.size = if v < 1 {
                1
            } else if v > SIZE_LIMIT {
                SIZE_LIMIT
            } else {
                v
            };
        }
    }

    /// Sets the screen scale, clamped into range.
    pub fn set_scale(&mut self, v: u32)
        requires
            old(self).wf(),
        ensures
            final(self).wf(),
            final(self).scale == if v < 1 {
                1u32
            } else if v > SCALE_LIMIT {
                SCALE_LIMIT
            } else {
                v
            },
            final(self).size == old(self).size,
            final(self).cursor_mode == old(self).cursor_mode,
            final(self).points@ == old(self).points@,
            final(self).selected == old(self).selected,
            final(self).next_id == old(self).next_id,
    {
        self.scale = if v < 1 {
            1
        } else if v > SCALE_LIMIT {
            SCALE_LIMIT
        } else {
            v
        };
    }

    /// A click in Create mode. Ignored when a point is already under the
    /// pointer or the pointer is outside the field rectangle; otherwise
    /// the pointer is mapped to field space and one point is appended:
    /// the first point with the fixed symmetric handles, any later point
    /// with the smooth-join handles taken from its predecessor. A
    /// non-first point seeds its reveal animation at zero.
    pub fn create_click(&mut self, ptr: ScreenPoint, origin: ScreenPoint, radius: i64, anim: &mut
        AnimState)
        requires
            old(self).wf(),
            old(anim).wf(),
            old(self).next_id < 0xffff_ffff_ffff_ffffu64,
            screen_in(ptr, SCREEN_LIMIT as int),
            view_ok(old(self).scale, old(self).size, origin),
            0 <= radius <= COORD_LIMIT,
        ensures
            final(self).wf(),
            final(anim).wf(),
            create_click_post(
                *old(self),
                *final(self),
                *old(anim),
                *final(anim),
                ptr,
                origin,
                radius,
            ),
    {
        let hit = point_hit(&self.points, ptr, self.scale, self.size, origin, radius);
        if hit.is_some() {
            return ;
        }
        let right: i64 = origin.x + 1000 * (self.scale as i64);
        let bottom: i64 = origin.y + 1000 * (self.scale as i64);
        if ptr.x < origin.x || ptr.x > right || ptr.y < origin.y || ptr.y > bottom {
            return ;
        }
        proof {
            lemma_field_coord_in_rect(
                ptr.x as int,
                origin.x as int,
                self.scale as int,
                self.size as int,
            );
            lemma_field_coord_in_rect(
                ptr.y as int,
                origin.y as int,
                self.scale as int,
                self.size as int,
            );
        }
        let a = match crate::bezier::from_screen(ptr, self.scale, self.size, origin) {
            Some(a) => a,
            None => {
                return ;
            },
        };
        let id = self.next_id;
        let ghost pre = *self;
        if self.points.len() == 0 {
            let b = make_first_bez(a, id);
            path::append(&mut self.points, b);
            self.next_id = id + 1;
            proof {
                assert(self.points@.subrange(0, pre.points@.len() as int) == pre.points@);
                assert forall|i: int, j: int|
                    0 <= i < j < self.points@.len() implies self.points@[i].id
                    != self.points@[j].id by {
                    if j < self.points@.len() - 1 {
                        assert(pre.points@[i].id != pre.points@[j].id);
                    } else {
                        assert(pre.points@[i].id < pre.next_id);
                    }
                }
            }
        } else {
            let prev_cp2 = self.points[self.points.len() - 1].cp2;
            let b = make_smooth_bez(prev_cp2, a, id);
            path::append(&mut self.points, b);
            self.next_id = id + 1;
            anim.start(id);
            proof {
                assert(self.points@.subrange(0, pre.points@.len() as int) == pre.points@);
                assert forall|i: int, j: int|
                    0 <= i < j < self.points@.len() implies self.points@[i].id
                    != self.points@[j].id by {
                    if j < self.points@.len() - 1 {
                        assert(pre.points@[i].id != pre.points@[j].id);
                    } else {
                        assert(pre.points@[i].id < pre.next_id);
                    }
                }
            }
        }
    }

    /// A click in Insert mode. Ignored unless the pointer hovers the
    /// canvas, the curve query found a nearest drawn sample, the tangent
    /// there is not vertical, and the sample maps back into coordinate
    /// range; otherwise one point is inserted just after the sample's
    /// segment, with the smooth-join handles taken from that segment's
    /// lower point.
    pub fn insert_click(&mut self, ptr: Option<ScreenPoint>, origin: ScreenPoint, revealed: &Vec<
        u64,
    >)
        requires
            old(self).wf(),
            old(self).next_id < 0xffff_ffff_ffff_ffffu64,
            ptr matches Some(p) ==> screen_in(p, SCREEN_LIMIT as int),
            view_ok(old(self).scale, old(self).size, origin),
            old(self).points@.len() >= 1 ==> revealed@.len() == old(self).points@.len() - 1,
            old(self).points@.len() == 0 ==> revealed@.len() == 0,
            forall|i: int| 0 <= i < revealed@.len() ==> #[trigger] revealed@[i] <= 100,
        ensures
            final(self).wf(),
            insert_click_post(*old(self), *final(self), ptr, origin, revealed@),
    {
        let p = match ptr {
            Some(p) => p,
            None => {
                return ;
            },
        };
        let hit = curve_hit(&self.points, revealed, p, self.scale, self.size, origin);
        let h = match hit {
            Some(h) => h,
            None => {
                proof {
                    assert(forall|s2: int, t2: int| !valid_sample(revealed@, s2, t2));
                }
                return ;
            },
        };
        proof {
            assert(best_sample(
                self.points@,
                revealed@,
                p,
                self.scale as int,
                self.size as int,
                origin,
                h.seg as int,
                h.step as int,
            ));
        }
        if h.slope.is_none() {
            return ;
        }
        let a = match crate::bezier::from_screen(h.pos, self.scale, self.size, origin) {
            Some(a) => a,
            None => {
                return ;
            },
        };
        let prev_cp2 = self.points[h.seg].cp2;
        let b = make_smooth_bez(prev_cp2, a, self.next_id);
        let ghost pre = *self;
        path::insert_after(&mut self.points, h.seg, b);
        self.next_id = self.next_id + 1;
        proof {
            path::lemma_insert_keeps_rest(pre.points@, h.seg as int, b);
            assert forall|i: int|
                0 <= i < self.points@.len() implies wf_bez(#[trigger] self.points@[i]) by {
                if i <= h.seg as int {
                    assert(self.points@[i] == pre.points@[i]);
                } else if i == h.seg as int + 1 {
                } else {
                    assert(self.points@[i] == pre.points@[i - 1]);
                }
            }
            assert forall|i: int|
                0 <= i < self.points@.len() implies (#[trigger] self.points@[i]).id
                < self.next_id by {
                if i <= h.seg as int {
                    assert(self.points@[i] == pre.points@[i]);
                } else if i == h.seg as int + 1 {
                } else {
                    assert(self.points@[i] == pre.points@[i - 1]);
                }
            }
            assert forall|i: int, j: int|
                0 <= i < j < self.points@.len() implies self.points@[i].id
                != self.points@[j].id by {
                let oi: int = if i <= h.seg as int {
                    i
                } else {
                    i - 1
                };
                let oj: int = if j <= h.seg as int {
                    j
                } else {
                    j - 1
                };
                if i == h.seg as int + 1 {
                    assert(self.points@[i].id == pre.next_id);
                    assert(self.points@[j] == pre.points@[oj]);
                    assert(pre.points@[oj].id < pre.next_id);
                } else if j == h.seg as int + 1 {
                    assert(self.points@[j].id == pre.next_id);
                    assert(self.points@[i] == pre.points@[oi]);
                    assert(pre.points@[oi].id < pre.next_id);
                } else {
                    assert(self.points@[i] == pre.points@[oi]);
                    assert(self.points@[j] == pre.points@[oj]);
                    assert(pre.points@[oi].id != pre.points@[oj].id);
                }
            }
            assert(self.points@ == pre.points@.insert(
                h.seg as int + 1,
                self.points@[h.seg as int + 1],
            ));
        }
    }

    /// A click in Delete mode: removes the first point under the
    /// pointer, if any, releasing or shifting the selection to keep it
    /// on the same point.
    pub fn delete_click(&mut self, ptr: ScreenPoint, origin: ScreenPoint, radius: i64)
        requires
            old(self).wf(),
            screen_in(ptr, SCREEN_LIMIT as int),
            view_ok(old(self).scale, old(self).size, origin),
            0 <= radius <= COORD_LIMIT,
        ensures
            final(self).wf(),
            delete_click_post(*old(self), *final(self), ptr, origin, radius),
    {
        let hit = point_hit(&self.points, ptr, self.scale, self.size, origin, radius);
        let i = match hit {
            Some(i) => i,
            None => {
                return ;
            },
        };
        proof {
            assert(first_anchor_hit(
                self.points@,
                ptr,
                self.scale as int,
                self.size as int,
                origin,
                radius as int,
                i as int,
            ));
        }
        let ghost pre = *self;
        path::remove_at(&mut self.points, i);
        self.selected = match self.selected {
            None => None,
            Some(k) => if k == i {
                None
            } else if k > i {
                Some(k - 1)
            } else {
                Some(k)
            },
        };
        proof {
            path::lemma_remove_keeps_rest(pre.points@, i as int);
            assert forall|a: int, b: int|
                0 <= a < b < self.points@.len() implies self.points@[a].id
                != self.points@[b].id by {
                let oa: int = if a < i as int {
                    a
                } else {
                    a + 1
                };
                let ob: int = if b < i as int {
                    b
                } else {
                    b + 1
                };
                assert(self.points@[a] == pre.points@[oa]);
                assert(self.points@[b] == pre.points@[ob]);
                assert(pre.points@[oa].id != pre.points@[ob].id);
            }
        }
    }

    /// A click in Trim mode: truncates the path just before the first
    /// point under the pointer, if any; a selection at or past the cut
    /// is released.
    pub fn trim_click(&mut self, ptr: ScreenPoint, origin: ScreenPoint, radius: i64)
        requires
            old(self).wf(),
            screen_in(ptr, SCREEN_LIMIT as int),
            view_ok(old(self).scale, old(self).size, origin),
            0 <= radius <= COORD_LIMIT,
        ensures
            final(self).wf(),
            trim_click_post(*old(self), *final(self), ptr, origin, radius),
    {
        let hit = point_hit(&self.points, ptr, self.scale, self.size, origin, radius);
        let i = match hit {
            Some(i) => i,
            None => {
                return ;
            },
        };
        proof {
            assert(first_anchor_hit(
                self.points@,
                ptr,
                self.scale as int,
                self.size as int,
                origin,
                radius as int,
                i as int,
            ));
        }
        let ghost pre = *self;
        path::truncate_before(&mut self.points, i);
        self.selected = match self.selected {
            None => None,
            Some(k) => if k >= i {
                None
            } else {
                Some(k)
            },
        };
        proof {
            path::lemma_trim_prefix(pre.points@, i as int);
        }
    }

    /// Pressing the primary button over a point, in a mode where drag is
    /// allowed and with no lock held, locks that point for the drag.
    pub fn button_down(&mut self, ptr: ScreenPoint, origin: ScreenPoint, radius: i64)
        requires
            old(self).wf(),
            screen_in(ptr, SCREEN_LIMIT as int),
            view_ok(old(self).scale, old(self).size, origin),
            0 <= radius <= COORD_LIMIT,
        ensures
            final(self).wf(),
            PathyApp::same_view(*old(self), *final(self)),
            final(self).points@ == old(self).points@,
            final(self).next_id == old(self).next_id,
            old(self).cursor_mode == CursorMode::Delete || old(self).cursor_mode
                == CursorMode::Trim || old(self).selected is Some || !any_anchor_hit(
                old(self).points@,
                ptr,
                old(self).scale as int,
                old(self).size as int,
                origin,
                radius as int,
            ) ==> final(self).selected == old(self).selected,
            old(self).cursor_mode != CursorMode::Delete && old(self).cursor_mode
                != CursorMode::Trim && old(self).selected is None && any_anchor_hit(
                old(self).points@,
                ptr,
                old(self).scale as int,
                old(self).size as int,
                origin,
                radius as int,
            ) ==> exists|i: int|
                first_anchor_hit(
                    old(self).points@,
                    ptr,
                    old(self).scale as int,
                    old(self).size as int,
                    origin,
                    radius as int,
                    i,
                ) && final(self).selected == Option::Some(i as usize),
    {
        if self.cursor_mode == CursorMode::Delete || self.cursor_mode == CursorMode::Trim {
            return ;
        }
        if self.selected.is_some() {
            return ;
        }
        let hit = point_hit(&self.points, ptr, self.scale, self.size, origin, radius);
        if let Some(i) = hit {
            proof {
                assert(first_anchor_hit(
                    self.points@,
                    ptr,
                    self.scale as int,
                    self.size as int,
                    origin,
                    radius as int,
                    i as int,
                ));
            }
            self.selected = Some(i);
        }
    }

    /// Releasing the primary button unconditionally releases the lock.
    pub fn button_released(&mut self)
        requires
            old(self).wf(),
        ensures
            final(self).wf(),
            PathyApp::same_view(*old(self), *final(self)),
            final(self).points@ == old(self).points@,
            final(self).next_id == old(self).next_id,
            final(self).selected is None,
    {
        self.selected = None;
    }

    /// One click, dispatched on the active mode: at most one structural
    /// edit per click, and none at all in Default mode.
    pub fn click(&mut self, ptr: Option<ScreenPoint>, origin: ScreenPoint, radius: i64, anim: &mut
        AnimState)
        requires
            old(self).wf(),
            old(anim).wf(),
            old(self).next_id < 0xffff_ffff_ffff_ffffu64,
            ptr matches Some(p) ==> screen_in(p, SCREEN_LIMIT as int),
            view_ok(old(self).scale, old(self).size, origin),
            0 <= radius <= COORD_LIMIT,
        ensures
            final(self).wf(),
            final(anim).wf(),
            old(self).cursor_mode == CursorMode::Default ==> *final(self) == *old(self) && *final(anim) == *old(anim),
            old(self).cursor_mode == CursorMode::Create ==> (ptr is None ==> *final(self) == *old(self) && *final(anim) == *old(anim)) && (ptr matches Some(p) ==> create_click_post(
                *old(self),
                *final(self),
                *old(anim),
                *final(anim),
                p,
                origin,
                radius,
            )),
            old(self).cursor_mode == CursorMode::Insert ==> insert_click_post(
                *old(self),
                *final(self),
                ptr,
                origin,
                crate::anim::segment_reveals(*old(anim), old(self).points@),
            ) && *final(anim) == *old(anim),
            old(self).cursor_mode == CursorMode::Delete ==> (ptr is None ==> *final(self) == *old(self)) && (ptr matches Some(p) ==> delete_click_post(
                *old(self),
                *final(self),
                p,
                origin,
                radius,
            )) && *final(anim) == *old(anim),
            old(self).cursor_mode == CursorMode::Trim ==> (ptr is None ==> *final(self) == *old(self)) && (ptr matches Some(p) ==> trim_click_post(
                *old(self),
                *final(self),
                p,
                origin,
                radius,
            )) && *final(anim) == *old(anim),
    {
        match self.cursor_mode {
            CursorMode::Default => {},
            CursorMode::Create => {
                if let Some(p) = ptr {
                    self.create_click(p, origin, radius, anim);
                }
            },
            CursorMode::Insert => {
                let rev = anim.revealed_for_segments(&self.points);
                proof {
                    assert(rev@ =~= crate::anim::segment_reveals(*anim, self.points@));
                }
                self.insert_click(ptr, origin, &rev);
            },
            CursorMode::Delete => {
                if let Some(p) = ptr {
                    self.delete_click(p, origin, radius);
                }
            },
            CursorMode::Trim => {
                if let Some(p) = ptr {
                    self.trim_click(p, origin, radius);
                }
            },
        }
    }

    /// While dragging, the locked point's anchor follows the pointer,
    /// mapped to field space; its handles and every other point stay.
    /// With no lock, or a pointer mapping out of coordinate range, the
    /// frame's update is skipped.
    pub fn drag_update(&mut self, ptr: ScreenPoint, origin: ScreenPoint)
        requires
            old(self).wf(),
            screen_in(ptr, SCREEN_LIMIT as int),
            view_ok(old(self).scale, old(self).size, origin),
        ensures
            final(self).wf(),
            PathyApp::same_view(*old(self), *final(self)),
            final(self).selected == old(self).selected,
            final(self).next_id == old(self).next_id,
            ({
                let fx = field_coord(
                    ptr.x as int,
                    origin.x as int,
                    old(self).scale as int,
                    old(self).size as int,
                );
                let fy = field_coord(
                    ptr.y as int,
                    origin.y as int,
                    old(self).scale as int,
                    old(self).size as int,
                );
                match old(self).selected {
                    Option::Some(k) => if -ANCHOR_LIMIT <= fx <= ANCHOR_LIMIT && -ANCHOR_LIMIT
                        <= fy <= ANCHOR_LIMIT {
                        final(self).points@ == old(self).points@.update(
                            k as int,
                            (BezPoint {
                                anchor: Point { x: fx as i64, y: fy as i64 },
                                ..old(self).points@[k as int]
                            }),
                        )
                    } else {
                        final(self).points@ == old(self).points@
                    },
                    Option::None => final(self).points@ == old(self).points@,
                }
            }),
    {
        let k = match self.selected {
            Some(k) => k,
            None => {
                return ;
            },
        };
        let a = match crate::bezier::from_screen(ptr, self.scale, self.size, origin) {
            Some(a) => a,
            None => {
                return ;
            },
        };
        let b = self.points[k];
        let moved = BezPoint { id: b.id, anchor: a, cp1: b.cp1, cp2: b.cp2 };
        let ghost pre = *self;
        self.points.set(k, moved);
        proof {
            assert forall|i: int, j: int|
                0 <= i < j < self.points@.len() implies self.points@[i].id
                != self.points@[j].id by {
                assert(pre.points@[i].id != pre.points@[j].id);
                if i != k as int {
                    assert(self.points@[i] == pre.points@[i]);
                }
                if j != k as int {
                    assert(self.points@[j] == pre.points@[j]);
                }
            }
        }
    }
}

impl Default for PathyApp {
    /// A fresh session: the documented field size and scale, Default
    /// mode, an empty path, no selection.
    fn default() -> (r: PathyApp)
        ensures
            r.wf(),
            r.size == 140_500,
            r.scale == 720,
            r.cursor_mode == CursorMode::Default,
            r.points@.len() == 0,
            r.selected is None,
            r.next_id == 0,
    {
        PathyApp {
            size: 140_500,
            scale: 720,
            cursor_mode: CursorMode::Default,
            points: Vec::new(),
            selected: None,
            next_id: 0,
        }
    }
}

} // verus!
