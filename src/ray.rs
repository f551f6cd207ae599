use vstd::prelude::*;

verus! {

/// What a traced ray met: nothing, or a surface whose material absorbed it,
/// emitted light, or scattered a new ray.
#[derive(PartialEq, Eq, Structural, Clone, Copy, Debug)]
pub enum Bounce {
    Miss,
    Absorbed,
    Emitted,
    Scattered,
}

/// Where the color of a finished path comes from. The path's color is this
/// term times the attenuations gathered on the way.
#[derive(PartialEq, Eq, Structural, Clone, Copy, Debug)]
pub enum Source {
    /// Black: the ray was absorbed, or the bounce budget ran out.
    Black,
    /// The scene's background: the ray left the scene.
    Background,
    /// The emission of the light that the ray reached.
    Emission,
}

/// What the estimator does next: trace a ray with the given number of bounces
/// left, or finish the path.
#[derive(PartialEq, Eq, Structural, Clone, Copy, Debug)]
pub enum Step {
    Trace(u32),
    Finish(Source),
}

/// The first step of a path allowed `depth` bounces.
pub open spec fn start_step(depth: nat) -> Step {
    if depth == 0 {
        Step::Finish(Source::Black)
    } else {
        Step::Trace(depth as u32)
    }
}

/// The step after a ray traced with `depth` bounces left met `bounce`.
pub open spec fn after_step(depth: nat, bounce: Bounce) -> Step {
    match bounce {
        Bounce::Miss => Step::Finish(Source::Background),
        Bounce::Absorbed => Step::Finish(Source::Black),
        Bounce::Emitted => Step::Finish(Source::Emission),
        Bounce::Scattered => start_step((depth - 1) as nat),
    }
}

/// How a path allowed `depth` bounces ends when its traced rays meet
/// `bounces` in turn: the number of scatterings on the way and the source of
/// its color, or None if it needs more rays than `bounces` holds.
pub open spec fn path_end(depth: nat, bounces: Seq<Bounce>) -> Option<(nat, Source)>
    decreases bounces.len(),
{
    if depth == 0 {
        Some((0, Source::Black))
    } else if bounces.len() == 0 {
        None
    } else {
        match bounces[0] {
            Bounce::Miss => Some((0, Source::Background)),
            Bounce::Absorbed => Some((0, Source::Black)),
            Bounce::Emitted => Some((0, Source::Emission)),
            Bounce::Scattered => match path_end((depth - 1) as nat, bounces.drop_first()) {
                Some((n, s)) => Some((n + 1, s)),
                None => None,
            },
        }
    }
}

/// The first step of a path allowed `depth` bounces: with none left the path
/// is black at once, without tracing anything.
pub fn start(depth: u32) -> (r: Step)
    ensures
        r == start_step(depth as nat),
        depth == 0 ==> r == Step::Finish(Source::Black),
{
    if depth == 0 {
        Step::Finish(Source::Black)
    } else {
        Step::Trace(depth)
    }
}

/// The step after a ray traced with `depth` bounces left met `bounce`: a
/// scattered ray is traced with one bounce less, anything else ends the path.
pub fn after(depth: u32, bounce: Bounce) -> (r: Step)
    requires
        depth > 0,
    ensures
        r == after_step(depth as nat, bounce),
{
    match bounce {
        Bounce::Miss => Step::Finish(Source::Background),
        Bounce::Absorbed => Step::Finish(Source::Black),
        Bounce::Emitted => Step::Finish(Source::Emission),
        Bounce::Scattered => start(depth - 1),
    }
}

/// The steps agree with `path_end`: a path that finishes at once has no
/// scattering, and after each traced ray the path either ends with the source
/// that the step names or goes on, one scattering further, with the bounces
/// that the step leaves.
pub proof fn lemma_steps_follow_path(depth: nat, bounces: Seq<Bounce>)
    requires
        depth <= u32::MAX,
    ensures
        start_step(depth) matches Step::Finish(s) ==> path_end(depth, bounces) == Some((0nat, s)),
        depth > 0 && bounces.len() > 0 ==> match after_step(depth, bounces[0]) {
            Step::Finish(s) => bounces[0] != Bounce::Scattered || depth == 1,
            Step::Trace(d) => bounces[0] == Bounce::Scattered && d == depth - 1,
        },
        depth > 0 && bounces.len() > 0 && bounces[0] != Bounce::Scattered ==> (after_step(
            depth,
            bounces[0],
        ) matches Step::Finish(s) && path_end(depth, bounces) == Some((0nat, s))),
        depth > 0 && bounces.len() > 0 && bounces[0] == Bounce::Scattered ==> path_end(
            depth,
            bounces,
        ) == match path_end((depth - 1) as nat, bounces.drop_first()) {
            Some((n, s)) => Some((n + 1, s)),
            None => None,
        },
{
}

/// A path allowed no bounces is black, whatever the scene.
pub proof fn lemma_no_depth_is_black(bounces: Seq<Bounce>)
    ensures
        path_end(0, bounces) == Some((0nat, Source::Black)),
{
}

/// A path scatters at most `depth` times, and traces at most `depth` rays:
/// given that many outcomes, it always ends.
pub proof fn lemma_path_bounded(depth: nat, bounces: Seq<Bounce>)
    ensures
        path_end(depth, bounces) matches Some((n, _)) ==> n <= depth,
        bounces.len() >= depth ==> path_end(depth, bounces) is Some,
    decreases bounces.len(),
{
    if depth > 0 && bounces.len() > 0 {
        lemma_path_bounded((depth - 1) as nat, bounces.drop_first());
    }
}

} // verus!
