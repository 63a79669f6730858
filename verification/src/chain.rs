//! The snake: an arena of linked segments moved by a two-phase
//! compute-then-apply step, with growth that propagates tick by tick.

use vstd::prelude::*;

verus! {

use crate::SNAKE_FAT_STEPS;
use crate::geometry::GridPos;
use crate::geometry::SnakeDirection;
use crate::geometry::wrap_pos;
use crate::geometry::wrap_pos_spec;
use crate::input::InputBuffer;

/// Growth animator carried by a segment after food is eaten. `spawn` marks
/// the segment that still has to hand the growth on; `step` is the number
/// of animation steps left before the animator is dropped.
#[derive(Clone, Copy, Debug, PartialEq, Eq, Structural)]
pub struct SnakeFatAnimator {
    pub step: i32,
    pub spawn: bool,
}

/// One cell-sized unit of the snake, stored in the chain's arena. Links
/// are arena indices: `forward` points toward the head (`None` for the
/// head itself), `backward` toward the tail (`None` for the tail itself).
/// `planned` is the pending position written by the movement planner and
/// consumed by the committer.
#[derive(Clone, Copy, Debug)]
pub struct Segment {
    pub pos: GridPos,
    pub forward: Option<usize>,
    pub backward: Option<usize>,
    pub planned: Option<GridPos>,
    pub animator: Option<SnakeFatAnimator>,
}

/// The ordered chain of segments of one snake, together with its travel
/// direction and its own buffered input. The head is the segment at arena
/// index 0; each later segment was appended as the then-new tail, so arena
/// order equals chain order from head to tail.
pub struct Chain {
    pub segments: Vec<Segment>,
    pub direction: SnakeDirection,
    pub buffer: InputBuffer,
}

impl Chain {
    #[verifier::inline]
    pub open spec fn len_spec(self) -> int {
        self.segments@.len() as int
    }

    #[verifier::inline]
    pub open spec fn seg(self, i: int) -> Segment {
        self.segments@[i]
    }

    /// The forward/backward links tie consecutive arena slots together:
    /// following `forward` from any segment reaches the head (index 0) in
    /// finitely many steps, following `backward` reaches the tail (the
    /// last slot), and no slot is orphaned or doubly linked.
    pub open spec fn links_ok(self) -> bool {
        &&& self.len_spec() >= 1
        &&& forall|i: int|
            0 <= i < self.len_spec() ==> (#[trigger] self.seg(i)).forward == (if i == 0 {
                None
            } else {
                Some((i - 1) as usize)
            })
        &&& forall|i: int|
            0 <= i < self.len_spec() ==> (#[trigger] self.seg(i)).backward == (if i
                == self.len_spec() - 1 {
                None
            } else {
                Some((i + 1) as usize)
            })
    }

    /// Position sanity: the head sits on the play field, every segment
    /// (including a freshly spawned, not yet wrapped tail) and every
    /// pending position stays within the loose bounds.
    pub open spec fn bounds_ok(self) -> bool {
        &&& self.seg(0).pos.in_bounds()
        &&& forall|i: int|
            0 <= i < self.len_spec() ==> (#[trigger] self.seg(i)).pos.in_wide_bounds()
        &&& forall|i: int|
            0 <= i < self.len_spec() && self.seg(i).planned is Some ==> (#[trigger] self.seg(
                i,
            )).planned->Some_0.in_wide_bounds()
    }

    /// Animator sanity: step counters stay within one decrement of the
    /// fixed budget, and a spawn flag is never carried by an exhausted
    /// animator.
    pub open spec fn animators_ok(self) -> bool {
        forall|i: int|
            0 <= i < self.len_spec() && self.seg(i).animator is Some ==> {
                let a = (#[trigger] self.seg(i)).animator->Some_0;
                &&& -1 <= a.step <= SNAKE_FAT_STEPS
                &&& (a.spawn ==> a.step >= 0)
            }
    }

    pub open spec fn wf(self) -> bool {
        &&& self.links_ok()
        &&& self.bounds_ok()
        &&& self.animators_ok()
        &&& self.buffer.wf()
    }

    /// Every position has been committed: it lies strictly on the play
    /// field. Holds after a commit, which wraps every planned position.
    pub open spec fn all_committed(self) -> bool {
        forall|i: int| 0 <= i < self.len_spec() ==> (#[trigger] self.seg(i)).pos.in_bounds()
    }

    /// Every segment has a pending position. Holds after planning.
    pub open spec fn all_planned(self) -> bool {
        forall|i: int| 0 <= i < self.len_spec() ==> (#[trigger] self.seg(i)).planned is Some
    }

    /// The head's next cell: its current cell displaced by the travel
    /// direction's unit vector.
    pub open spec fn head_target_spec(self) -> GridPos {
        let v = self.direction.vector_spec();
        GridPos { x: (self.seg(0).pos.x + v.0) as i32, y: (self.seg(0).pos.y + v.1) as i32 }
    }

    /// A new snake: a lone head at the origin, travelling right, with an
    /// empty input backlog.
    pub fn new() -> (c: Chain)
        ensures
            c.wf(),
            c.len_spec() == 1,
            c.seg(0).pos == (GridPos { x: 0, y: 0 }),
            c.seg(0).planned is None,
            c.seg(0).animator is None,
            c.direction == SnakeDirection::Right,
            c.buffer.queue@ == Seq::<SnakeDirection>::empty(),
    {
        let head = Segment {
            pos: GridPos { x: 0, y: 0 },
            forward: None,
            backward: None,
            planned: None,
            animator: None,
        };
        let mut segments: Vec<Segment> = Vec::new();
        segments.push(head);
        Chain { segments, direction: SnakeDirection::Right, buffer: InputBuffer::new() }
    }

    pub fn len(&self) -> (n: usize)
        ensures
            n == self.len_spec(),
    {
        self.segments.len()
    }

    /// Record this frame's detected directional intent, if any, in the
    /// bounded backlog.
    pub fn buffer_input(&mut self, dir: Option<SnakeDirection>)
        requires
            old(self).wf(),
        ensures
            final(self).wf(),
            final(self).segments@ == old(self).segments@,
            final(self).direction == old(self).direction,
            dir is None ==> final(self).buffer.queue@ == old(self).buffer.queue@,
            dir is Some && old(self).buffer.queue@.len() < crate::INPUT_BUFFER_CAP
                ==> final(self).buffer.queue@ == old(self).buffer.queue@.push(dir->Some_0),
            dir is Some && old(self).buffer.queue@.len() >= crate::INPUT_BUFFER_CAP
                ==> final(self).buffer.queue@ == old(self).buffer.queue@,
    {
        if let Some(d) = dir {
            self.buffer.push(d);
        }
    }

    /// On tick fire, pop the oldest buffered direction and apply it,
    /// unless it is the exact reversal of the current direction, which is
    /// silently ignored.
    pub fn apply_buffered_direction(&mut self)
        requires
            old(self).wf(),
        ensures
            final(self).wf(),
            final(self).segments@ == old(self).segments@,
            old(self).buffer.queue@.len() == 0 ==> final(self).direction == old(self).direction
                && final(self).buffer.queue@ == old(self).buffer.queue@,
            old(self).buffer.queue@.len() > 0 ==> final(self).buffer.queue@
                == old(self).buffer.queue@.subrange(1, old(self).buffer.queue@.len() as int)
                && final(self).direction == (
                if old(self).direction.is_opposite_spec(old(self).buffer.queue@[0]) {
                    old(self).direction
                } else {
                    old(self).buffer.queue@[0]
                }),
    {
        if let Some(d) = self.buffer.pop() {
            if !self.direction.is_opposite(&d) {
                self.direction = d;
            }
        }
    }

    /// Movement planner: compute every segment's next position without
    /// touching any current position. The head aims one cell along the
    /// travel direction; every other segment aims at the current (pre-tick)
    /// position of its forward neighbour, read through the forward link,
    /// so the chain follows rather than collapses.
    pub fn plan_movement(&mut self)
        requires
            old(self).wf(),
        ensures
            final(self).wf(),
            final(self).all_planned(),
            final(self).len_spec() == old(self).len_spec(),
            final(self).direction == old(self).direction,
            final(self).buffer.queue@ == old(self).buffer.queue@,
            forall|i: int|
                0 <= i < old(self).len_spec() ==> same_but_planned(
                    old(self).seg(i),
                    #[trigger] final(self).seg(i),
                ),
            final(self).seg(0).planned == Some(old(self).head_target_spec()),
            forall|i: int|
                1 <= i < old(self).len_spec() ==> (#[trigger] final(self).seg(i)).planned == Some(
                    old(self).seg(i - 1).pos,
                ),
    {
        let v = self.direction.get_vector();
        let head = self.segments[0];
        let mut h = head;
        h.planned = Some(GridPos { x: head.pos.x + v.0, y: head.pos.y + v.1 });
        self.segments[0] = h;
        let n = self.segments.len();
        let mut i: usize = 1;
        while i < n
            invariant
                old(self).wf(),
                1 <= i <= n,
                n == self.segments@.len(),
                n == old(self).len_spec(),
                self.direction == old(self).direction,
                self.buffer.queue@ == old(self).buffer.queue@,
                forall|j: int|
                    0 <= j < n ==> same_but_planned(old(self).seg(j), #[trigger] self.seg(j)),
                self.seg(0).planned == Some(old(self).head_target_spec()),
                forall|j: int|
                    1 <= j < i ==> (#[trigger] self.seg(j)).planned == Some(old(self).seg(j - 1).pos),
                forall|j: int|
                    i <= j < n ==> (#[trigger] self.seg(j)).planned == old(self).seg(j).planned,
            decreases n - i,
        {
            let fwd = self.segments[i].forward;
            if let Some(fi) = fwd {
                let p = self.segments[fi].pos;
                let mut s = self.segments[i];
                s.planned = Some(p);
                self.segments[i] = s;
            }
            i += 1;
        }
    }

    /// Movement committer: write every pending position back, wrapped onto
    /// the play field axis by axis, and clear the pending slot. Segments
    /// without a pending position keep their place.
    pub fn commit_movement(&mut self)
        requires
            old(self).wf(),
        ensures
            final(self).wf(),
            final(self).len_spec() == old(self).len_spec(),
            final(self).direction == old(self).direction,
            final(self).buffer.queue@ == old(self).buffer.queue@,
            forall|i: int|
                0 <= i < old(self).len_spec() ==> {
                    let o = old(self).seg(i);
                    let s = #[trigger] final(self).seg(i);
                    &&& s.forward == o.forward
                    &&& s.backward == o.backward
                    &&& s.animator == o.animator
                    &&& s.planned is None
                    &&& s.pos == (if o.planned is Some {
                        wrap_pos_spec(o.planned->Some_0)
                    } else {
                        o.pos
                    })
                },
            old(self).all_planned() ==> final(self).all_committed(),
    {
        let n = self.segments.len();
        let mut i: usize = 0;
        while i < n
            invariant
                old(self).wf(),
                0 <= i <= n,
                n == self.segments@.len(),
                n == old(self).len_spec(),
                self.direction == old(self).direction,
                self.buffer.queue@ == old(self).buffer.queue@,
                forall|j: int|
                    0 <= j < i ==> {
                        let o = old(self).seg(j);
                        let s = #[trigger] self.seg(j);
                        &&& s.forward == o.forward
                        &&& s.backward == o.backward
                        &&& s.animator == o.animator
                        &&& s.planned is None
                        &&& s.pos == (if o.planned is Some {
                            wrap_pos_spec(o.planned->Some_0)
                        } else {
                            o.pos
                        })
                        &&& (o.planned is Some ==> s.pos.in_bounds())
                        &&& s.pos.in_wide_bounds()
                    },
                forall|j: int| i <= j < n ==> #[trigger] self.seg(j) == old(self).seg(j),
            decreases n - i,
        {
            let planned = self.segments[i].planned;
            if let Some(p) = planned {
                let mut s = self.segments[i];
                s.pos = wrap_pos(p);
                s.planned = None;
                self.segments[i] = s;
            } else {
                let mut s = self.segments[i];
                s.planned = None;
                self.segments[i] = s;
            }
            i += 1;
        }
    }

    /// Whether the tail carries an animator whose spawn flag is still
    /// set, so that the next growth step appends a segment.
    pub open spec fn tail_spawn_pending(self) -> bool {
        anim_flag(self.seg(self.len_spec() - 1).animator)
    }

    /// Direction in which a new tail is placed: away along the existing
    /// chain when the tail has a forward neighbour, otherwise opposite to
    /// the head's travel direction (the lone head is its own tail).
    pub open spec fn spawn_delta_spec(self) -> (int, int) {
        if self.len_spec() >= 2 {
            let t = self.seg(self.len_spec() - 1);
            let f = self.seg(self.len_spec() - 2);
            (t.pos.x - f.pos.x, t.pos.y - f.pos.y)
        } else {
            let v = self.direction.vector_spec();
            (0 - v.0, 0 - v.1)
        }
    }

    /// The cell where a spawned tail is placed: one spawn delta beyond the
    /// current tail. It may fall outside the play field across a border
    /// wrap; the next commit wraps it back in.
    pub open spec fn spawn_pos_spec(self) -> GridPos {
        let t = self.seg(self.len_spec() - 1);
        let d = self.spawn_delta_spec();
        GridPos { x: (t.pos.x + d.0) as i32, y: (t.pos.y + d.1) as i32 }
    }

    /// Growth controller, trigger: food was eaten, so arm the head with a
    /// fresh spawn-flagged animator that will wander down the chain.
    pub fn attach_fat_animator(&mut self)
        requires
            old(self).wf(),
        ensures
            final(self).wf(),
            final(self).len_spec() == old(self).len_spec(),
            final(self).direction == old(self).direction,
            final(self).buffer.queue@ == old(self).buffer.queue@,
            forall|i: int|
                1 <= i < old(self).len_spec() ==> #[trigger] final(self).seg(i) == old(self).seg(i),
            same_but_animator(old(self).seg(0), final(self).seg(0)),
            final(self).seg(0).animator == Some(
                SnakeFatAnimator { step: SNAKE_FAT_STEPS, spawn: true },
            ),
    {
        let mut h = self.segments[0];
        h.animator = Some(SnakeFatAnimator { step: SNAKE_FAT_STEPS, spawn: true });
        self.segments[0] = h;
    }

    /// Growth controller, spawn phase: when the tail still carries the
    /// spawn flag, append a new tail one spawn delta further, fully
    /// linked, carrying the remaining animation budget; the old tail
    /// loses the flag and the tail role and steps its budget down. The
    /// chain grows by exactly one segment, or not at all.
    pub fn growth_spawn(&mut self) -> (spawned: bool)
        requires
            old(self).wf(),
            old(self).all_committed(),
        ensures
            final(self).wf(),
            spawned == old(self).tail_spawn_pending(),
            final(self).direction == old(self).direction,
            final(self).buffer.queue@ == old(self).buffer.queue@,
            final(self).len_spec() == old(self).len_spec() + (if spawned {
                1int
            } else {
                0int
            }),
            !spawned ==> final(self).segments@ == old(self).segments@,
            spawned ==> {
                let n = old(self).len_spec();
                let t = old(self).seg(n - 1);
                let a = t.animator->Some_0;
                &&& forall|i: int|
                    0 <= i < n - 1 ==> #[trigger] final(self).seg(i) == old(self).seg(i)
                &&& final(self).seg(n - 1) == (Segment {
                    pos: t.pos,
                    forward: t.forward,
                    backward: Some(n as usize),
                    planned: t.planned,
                    animator: Some(SnakeFatAnimator { step: (a.step - 1) as i32, spawn: false }),
                })
                &&& final(self).seg(n) == (Segment {
                    pos: old(self).spawn_pos_spec(),
                    forward: Some((n - 1) as usize),
                    backward: None,
                    planned: None,
                    animator: Some(SnakeFatAnimator { step: a.step, spawn: false }),
                })
            },
    {
        let n = self.segments.len();
        let tail = self.segments[n - 1];
        if let Some(a) = tail.animator {
            if a.spawn {
                let (dx, dy) = if let Some(fi) = tail.forward {
                    let f = self.segments[fi];
                    (tail.pos.x - f.pos.x, tail.pos.y - f.pos.y)
                } else {
                    let v = self.direction.get_vector();
                    (-v.0, -v.1)
                };
                let new_pos = GridPos { x: tail.pos.x + dx, y: tail.pos.y + dy };
                let mut t2 = tail;
                t2.backward = Some(n);
                t2.animator = Some(SnakeFatAnimator { step: a.step - 1, spawn: false });
                self.segments[n - 1] = t2;
                self.segments.push(
                    Segment {
                        pos: new_pos,
                        forward: Some(n - 1),
                        backward: None,
                        planned: None,
                        animator: Some(SnakeFatAnimator { step: a.step, spawn: false }),
                    },
                );
                return true;
            }
        }
        false
    }

    /// Growth controller, spread phase: every animator takes one spread
    /// step, all computed from the pre-tick states and then applied, so
    /// the spawn flag travels exactly one link toward the tail per tick.
    pub fn fat_spread(&mut self)
        requires
            old(self).wf(),
        ensures
            final(self).wf(),
            final(self).len_spec() == old(self).len_spec(),
            final(self).direction == old(self).direction,
            final(self).buffer.queue@ == old(self).buffer.queue@,
            forall|i: int|
                0 <= i < old(self).len_spec() ==> same_but_animator(
                    old(self).seg(i),
                    #[trigger] final(self).seg(i),
                ),
            forall|i: int|
                0 <= i < old(self).len_spec() ==> (#[trigger] final(self).seg(i)).animator
                    == spread_anim_spec(
                    if i == 0 {
                        None
                    } else {
                        old(self).seg(i - 1).animator
                    },
                    old(self).seg(i).animator,
                    i < old(self).len_spec() - 1,
                ),
    {
        let n = self.segments.len();
        let mut prev_spawn: bool = false;
        let mut i: usize = 0;
        while i < n
            invariant
                old(self).wf(),
                0 <= i <= n,
                n == self.segments@.len(),
                n == old(self).len_spec(),
                self.direction == old(self).direction,
                self.buffer.queue@ == old(self).buffer.queue@,
                prev_spawn == (i >= 1 && anim_flag(old(self).seg(i - 1).animator)),
                forall|j: int|
                    0 <= j < i ==> same_but_animator(old(self).seg(j), #[trigger] self.seg(j)),
                forall|j: int|
                    0 <= j < i ==> (#[trigger] self.seg(j)).animator == spread_anim_spec(
                        if j == 0 {
                            None
                        } else {
                            old(self).seg(j - 1).animator
                        },
                        old(self).seg(j).animator,
                        j < n - 1,
                    ),
                forall|j: int| i <= j < n ==> #[trigger] self.seg(j) == old(self).seg(j),
            decreases n - i,
        {
            let cur = self.segments[i].animator;
            let cur_spawn = match cur {
                Some(a) => a.spawn,
                None => false,
            };
            let has_backward = self.segments[i].backward.is_some();
            let new_a: Option<SnakeFatAnimator> = if prev_spawn {
                Some(SnakeFatAnimator { step: SNAKE_FAT_STEPS, spawn: true })
            } else {
                match cur {
                    None => None,
                    Some(a) => if a.step <= 0 {
                        None
                    } else {
                        Some(SnakeFatAnimator { step: a.step - 1, spawn: a.spawn && !has_backward })
                    },
                }
            };
            let mut s = self.segments[i];
            s.animator = new_a;
            self.segments[i] = s;
            prev_spawn = cur_spawn;
            i += 1;
        }
    }
}

/// Two segment states that agree on everything but the pending position.
#[verifier::inline]
pub open spec fn same_but_planned(o: Segment, s: Segment) -> bool {
    &&& s.pos == o.pos
    &&& s.forward == o.forward
    &&& s.backward == o.backward
    &&& s.animator == o.animator
}

/// Two segment states that agree on everything but the animator.
#[verifier::inline]
pub open spec fn same_but_animator(o: Segment, s: Segment) -> bool {
    &&& s.pos == o.pos
    &&& s.forward == o.forward
    &&& s.backward == o.backward
    &&& s.planned == o.planned
}

/// Whether an animator slot carries the spawn flag.
#[verifier::inline]
pub open spec fn anim_flag(a: Option<SnakeFatAnimator>) -> bool {
    a is Some && a->Some_0.spawn
}

/// Number of spawn flags among the first `n` segments.
pub open spec fn flag_count_prefix(c: Chain, n: int) -> int
    decreases n,
{
    if n <= 0 {
        0
    } else {
        flag_count_prefix(c, n - 1) + (if anim_flag(c.seg(n - 1).animator) {
            1int
        } else {
            0int
        })
    }
}

/// Number of segments whose animator still carries the spawn flag: the
/// growth the chain still owes.
pub open spec fn flag_count(c: Chain) -> int {
    flag_count_prefix(c, c.len_spec())
}

proof fn lemma_count_prefix_shift(pre: Chain, post: Chain, n: int)
    requires
        0 <= n,
        forall|i: int|
            0 <= i < n ==> anim_flag((#[trigger] post.seg(i)).animator) == (i >= 1 && anim_flag(
                pre.seg(i - 1).animator,
            )),
    ensures
        flag_count_prefix(post, n) == flag_count_prefix(pre, n - 1),
    decreases n,
{
    if n > 0 {
        lemma_count_prefix_shift(pre, post, n - 1);
    }
}

proof fn lemma_count_prefix_equal(pre: Chain, post: Chain, n: int)
    requires
        forall|i: int|
            0 <= i < n ==> anim_flag((#[trigger] post.seg(i)).animator) == anim_flag(
                pre.seg(i).animator,
            ),
    ensures
        flag_count_prefix(post, n) == flag_count_prefix(pre, n),
    decreases n,
{
    if n > 0 {
        lemma_count_prefix_equal(pre, post, n - 1);
    }
}

/// Two chains with the same spawn flags segment by segment owe the same
/// growth.
pub proof fn lemma_equal_animators_equal_flags(pre: Chain, post: Chain)
    requires
        post.segments@.len() == pre.segments@.len(),
        forall|i: int|
            0 <= i < pre.len_spec() ==> anim_flag((#[trigger] post.seg(i)).animator) == anim_flag(
                pre.seg(i).animator,
            ),
    ensures
        flag_count(post) == flag_count(pre),
{
    lemma_count_prefix_equal(pre, post, pre.len_spec());
}

/// One spread step conserves the growth the chain owes: every spawn flag
/// moves exactly one link toward the tail, none is duplicated and none is
/// lost. It applies to the state the spawn phase leaves, in which no
/// flag sits on the tail (the spawn phase, not the spread, consumes a
/// tail flag).
pub proof fn lemma_spread_conserves_flags(pre: Chain, post: Chain)
    requires
        pre.links_ok(),
        post.segments@.len() == pre.segments@.len(),
        !anim_flag(pre.seg(pre.len_spec() - 1).animator),
        forall|i: int|
            0 <= i < pre.len_spec() ==> (#[trigger] post.seg(i)).animator == spread_anim_spec(
                if i == 0 {
                    None
                } else {
                    pre.seg(i - 1).animator
                },
                pre.seg(i).animator,
                i < pre.len_spec() - 1,
            ),
    ensures
        flag_count(post) == flag_count(pre),
{
    let n = pre.len_spec();
    assert forall|i: int| 0 <= i < n implies anim_flag((#[trigger] post.seg(i)).animator) == (i
        >= 1 && anim_flag(pre.seg(i - 1).animator)) by {
        if i == n - 1 {
            assert(!anim_flag(pre.seg(n - 1).animator));
        }
    }
    lemma_count_prefix_shift(pre, post, n);
    assert(flag_count_prefix(pre, n) == flag_count_prefix(pre, n - 1) + 0);
}

/// The spawn phase consumes exactly one pending flag: when the tail
/// carried the spawn flag, the chain right after the spawn owes one
/// growth fewer, and the appended tail owes none.
pub proof fn lemma_spawn_consumes_flag(pre: Chain, post: Chain)
    requires
        pre.len_spec() >= 1,
        anim_flag(pre.seg(pre.len_spec() - 1).animator),
        post.segments@.len() == pre.segments@.len() + 1,
        forall|i: int| 0 <= i < pre.len_spec() - 1 ==> #[trigger] post.seg(i) == pre.seg(i),
        !anim_flag(post.seg(pre.len_spec() - 1).animator),
        !anim_flag(post.seg(pre.len_spec()).animator),
    ensures
        flag_count(post) == flag_count(pre) - 1,
{
    let n = pre.len_spec();
    lemma_count_prefix_equal(pre, post, n - 1);
    assert(flag_count_prefix(pre, n) == flag_count_prefix(pre, n - 1) + 1);
    assert(flag_count_prefix(post, n) == flag_count_prefix(post, n - 1) + 0);
    assert(flag_count_prefix(post, n + 1) == flag_count_prefix(post, n) + 0);
}

/// One spread step of a segment's animator, computed from the pre-tick
/// states. A segment whose forward neighbour carried the spawn flag
/// receives a fresh flagged animator. Any other animator hands its flag
/// backward when a backward neighbour exists (the tail, which has nobody
/// to hand it to, keeps it), is dropped once its step budget is spent,
/// and otherwise steps down.
pub open spec fn spread_anim_spec(
    prev: Option<SnakeFatAnimator>,
    cur: Option<SnakeFatAnimator>,
    has_backward: bool,
) -> Option<SnakeFatAnimator> {
    if anim_flag(prev) {
        Some(SnakeFatAnimator { step: SNAKE_FAT_STEPS, spawn: true })
    } else {
        match cur {
            Option::None => Option::None,
            Option::Some(a) => if a.step <= 0 {
                Option::None
            } else {
                Some(
                    SnakeFatAnimator {
                        step: (a.step - 1) as i32,
                        spawn: a.spawn && !has_backward,
                    },
                )
            },
        }
    }
}

} // verus!
