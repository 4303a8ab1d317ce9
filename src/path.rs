//! The life of one light path: a depth budget, scene queries, and the way the
//! path ends.
use vstd::prelude::*;
use crate::key::INFINITY;

verus! {

/// Key of `0.001`, the lower end of every scene query: a scattered ray must
/// not meet again the surface it leaves.
pub const SHADOW_BIAS: i64 = 0x3f50_624d_d2f1_a9fc;

/// Upper end of every scene query: positive infinity.
pub const FAR: i64 = INFINITY;

/// What a scene query and the material that was hit gave.
#[derive(Clone, Copy, Debug, PartialEq, Eq, Structural)]
pub enum Event {
    /// Nothing was hit: the ray sees the background.
    Missed,
    /// A surface was hit and absorbed the ray.
    Absorbed,
    /// A surface was hit and scattered the ray onwards.
    Scattered,
}

/// How a path ends: black, or the background gradient seen by its last ray.
#[derive(Clone, Copy, Debug, PartialEq, Eq, Structural)]
pub enum Ending {
    Black,
    Sky,
}

/// The next thing to do for a path.
#[derive(Clone, Copy, Debug, PartialEq, Eq, Structural)]
pub enum Step {
    /// Query the scene with the current ray; the value is the depth left.
    Trace(u32),
    /// The path is over.
    Finish(Ending),
}

pub open spec fn start_spec(depth: u32) -> Step {
    if depth == 0 {
        Step::Finish(Ending::Black)
    } else {
        Step::Trace(depth)
    }
}

pub open spec fn advance_spec(depth: u32, event: Event) -> Step {
    match event {
        Event::Missed => Step::Finish(Ending::Sky),
        Event::Absorbed => Step::Finish(Ending::Black),
        Event::Scattered => start_spec((depth - 1) as u32),
    }
}

/// The step reached from `step` after the events of `events`, in order.
pub open spec fn feed(step: Step, events: Seq<Event>) -> Step
    decreases events.len(),
{
    match step {
        Step::Finish(e) => Step::Finish(e),
        Step::Trace(d) => if events.len() == 0 || d == 0 {
            step
        } else {
            feed(advance_spec(d, events[0]), events.drop_first())
        },
    }
}

/// The first step of a path with depth budget `depth`: with no budget left
/// it is black at once.
pub fn start(depth: u32) -> (r: Step)
    ensures
        r == start_spec(depth),
        depth == 0 ==> r == Step::Finish(Ending::Black),
        depth > 0 ==> r == Step::Trace(depth),
{
    if depth == 0 {
        Step::Finish(Ending::Black)
    } else {
        Step::Trace(depth)
    }
}

/// The step after a scene query made with depth `depth` left: a miss sees
/// the background, an absorption is black, a scatter goes on with one less.
pub fn advance(depth: u32, event: Event) -> (r: Step)
    requires
        depth > 0,
    ensures
        r == advance_spec(depth, event),
{
    match event {
        Event::Missed => Step::Finish(Ending::Sky),
        Event::Absorbed => Step::Finish(Ending::Black),
        Event::Scattered => start(depth - 1),
    }
}

proof fn lemma_trace_bounded(d: u32, events: Seq<Event>)
    requires
        d > 0,
        events.len() >= d,
    ensures
        feed(Step::Trace(d), events) is Finish,
    decreases events.len(),
{
    let next = advance_spec(d, events[0]);
    assert(feed(Step::Trace(d), events) == feed(next, events.drop_first()));
    if let Step::Trace(d2) = next {
        assert(d2 == d - 1);
        lemma_trace_bounded(d2, events.drop_first());
    } else {
        assert(feed(next, events.drop_first()) == next);
    }
}

/// A path with depth budget `depth` makes at most `depth` scene queries:
/// whatever the events, it is over after `depth` of them.
pub proof fn lemma_path_is_bounded(depth: u32, events: Seq<Event>)
    requires
        events.len() >= depth,
    ensures
        feed(start_spec(depth), events) is Finish,
{
    if depth > 0 {
        lemma_trace_bounded(depth, events);
    }
}

/// With no depth budget a path is black, whatever the scene would give.
pub proof fn lemma_no_budget_is_black(events: Seq<Event>)
    ensures
        feed(start_spec(0), events) == Step::Finish(Ending::Black),
{
}

} // verus!
