use vstd::prelude::*;

verus! {

/// What became of one traced ray.
#[derive(Debug, Clone, Copy, PartialEq, Eq, Structural)]
pub enum RayOutcome {
    /// The ray left the scene: it sees the sky.
    Miss,
    /// The ray hit a surface that swallowed it.
    Absorbed,
    /// The ray hit a surface that sent a new ray on.
    Scattered,
}

/// How far a light path has come: `depth` rays of it were traced before the
/// current one, and at most `max_depth` may be traced in all.
#[derive(Debug, Clone, Copy, PartialEq, Eq, Structural)]
pub struct PathDepth {
    pub depth: u32,
    pub max_depth: u32,
}

/// What the renderer does next with a light path.
#[derive(Debug, Clone, Copy, PartialEq, Eq, Structural)]
pub enum PathStep {
    /// The path ends in the sky: its color is the background's.
    Background,
    /// The path ends dark: the light was absorbed, or the path ran out of
    /// bounces.
    Black,
    /// Trace the scattered ray, from this new depth.
    Continue(PathDepth),
}

impl PathDepth {
    /// The ray being traced is within the bound.
    pub open spec fn wf(self) -> bool {
        self.depth < self.max_depth
    }

    /// The decision after the current ray: a miss shows the sky, an absorbed
    /// ray is dark, a scattered one is followed while the bound leaves room
    /// for another ray and is dark otherwise.
    pub open spec fn next_spec(self, outcome: RayOutcome) -> PathStep {
        match outcome {
            RayOutcome::Miss => PathStep::Background,
            RayOutcome::Absorbed => PathStep::Black,
            RayOutcome::Scattered => if self.depth + 1 < self.max_depth {
                PathStep::Continue(PathDepth { depth: (self.depth + 1) as u32, max_depth: self.max_depth })
            } else {
                PathStep::Black
            },
        }
    }

    /// The first ray of a path. A bound of zero rays is a configuration
    /// error.
    pub fn start(max_depth: u32) -> (r: Option<PathDepth>)
        ensures
            r is Some <==> max_depth > 0,
            r matches Some(p) ==> p.depth == 0 && p.max_depth == max_depth,
    {
        if max_depth == 0 {
            None
        } else {
            Some(PathDepth { depth: 0, max_depth })
        }
    }

    /// Decides how the path goes on once the current ray had `outcome`.
    pub fn next(self, outcome: RayOutcome) -> (r: PathStep)
        requires
            self.wf(),
        ensures
            r == self.next_spec(outcome),
            r matches PathStep::Continue(p) ==> p.wf(),
    {
        match outcome {
            RayOutcome::Miss => PathStep::Background,
            RayOutcome::Absorbed => PathStep::Black,
            RayOutcome::Scattered => {
                if self.depth + 1 < self.max_depth {
                    PathStep::Continue(PathDepth { depth: self.depth + 1, max_depth: self.max_depth })
                } else {
                    PathStep::Black
                }
            },
        }
    }
}

/// The number of rays traced along a path from `p` when its rays meet
/// `outcomes` in turn, up to the step that ends it or until `outcomes` runs
/// out.
pub open spec fn rays_traced(p: PathDepth, outcomes: Seq<RayOutcome>) -> nat
    decreases outcomes.len(),
{
    if outcomes.len() == 0 {
        0
    } else {
        match p.next_spec(outcomes[0]) {
            PathStep::Continue(q) => 1 + rays_traced(q, outcomes.drop_first()),
            _ => 1,
        }
    }
}

/// The step that ends a path from `p` whose rays meet `outcomes` in turn, or
/// `None` when `outcomes` runs out first.
pub open spec fn final_step(p: PathDepth, outcomes: Seq<RayOutcome>) -> Option<PathStep>
    decreases outcomes.len(),
{
    if outcomes.len() == 0 {
        None
    } else {
        match p.next_spec(outcomes[0]) {
            PathStep::Continue(q) => final_step(q, outcomes.drop_first()),
            s => Some(s),
        }
    }
}

/// A path cannot bounce forever, whatever the scene does to its rays, even
/// between mirrors that face each other: from `p` it traces at most
/// `max_depth - depth` rays, and once that many outcomes are known it has
/// ended, in the sky or dark.
pub proof fn lemma_path_ends(p: PathDepth, outcomes: Seq<RayOutcome>)
    requires
        p.wf(),
    ensures
        rays_traced(p, outcomes) <= p.max_depth - p.depth,
        outcomes.len() >= p.max_depth - p.depth ==> (final_step(p, outcomes) matches Some(s)
            && !(s is Continue)),
    decreases outcomes.len(),
{
    if outcomes.len() > 0 {
        match p.next_spec(outcomes[0]) {
            PathStep::Continue(q) => {
                lemma_path_ends(q, outcomes.drop_first());
            },
            _ => {},
        }
    }
}

} // verus!
