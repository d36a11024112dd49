//! The life of one light path: a chain of scatterings with a depth limit.
//!
//! A path is traced in rounds. In each round the scene is asked for the
//! nearest hit of the current ray. A ray that hits nothing has escaped and
//! takes the colour of the sky. A ray that hits a surface after `limit`
//! scatterings is cut off and contributes black: that bounds the work spent
//! on one path and is no statement about light. Otherwise the surface's
//! material scatters the ray: it either absorbs it, which ends the path in
//! black, or attenuates it and sends it on, one scattering deeper.
//!
//! Asking the scene and scattering are the caller's work; what follows from
//! their outcomes is decided here.

use vstd::prelude::*;

verus! {

/// The depth limit that a path has unless another is asked for.
pub const MAX_DEPTH: u32 = 50;

/// How a path ended.
#[derive(Clone, Copy, Debug, PartialEq, Eq, Structural)]
pub enum Fate {
    /// The ray left the scene: the path carries the colour of the sky.
    Escaped,
    /// A material did not send the ray on: the path is black.
    Absorbed,
    /// A surface was hit at the depth limit: the path is black.
    DepthExhausted,
}

impl Fate {
    /// The path contributes no light.
    pub open spec fn black(self) -> bool {
        !(self is Escaped)
    }

    pub fn is_black(self) -> (b: bool)
        ensures
            b == self.black(),
    {
        match self {
            Fate::Escaped => false,
            Fate::Absorbed => true,
            Fate::DepthExhausted => true,
        }
    }
}

/// What to do once the scene has answered.
#[derive(Clone, Copy, Debug, PartialEq, Eq, Structural)]
pub enum Verdict {
    /// Let the material of the surface scatter the ray.
    Scatter,
    /// The path has ended.
    Stop(Fate),
}

/// What to do once the material has answered.
#[derive(Clone, Copy, Debug, PartialEq, Eq, Structural)]
pub enum Advance {
    /// Trace the scattered ray, with the path in this state.
    Continue(Path),
    /// The path has ended.
    Stop(Fate),
}

/// A path that is still being traced.
#[derive(Clone, Copy, Debug, PartialEq, Eq, Structural)]
pub struct Path {
    /// The scatterings so far.
    pub depth: u32,
    /// The scatterings allowed.
    pub limit: u32,
}

impl Path {
    /// The verdict on the scene's answer: a miss lets the ray escape, a hit
    /// at the depth limit cuts the path off, any other hit is scattered.
    pub open spec fn verdict(self, hit: bool) -> Verdict {
        if !hit {
            Verdict::Stop(Fate::Escaped)
        } else if self.depth >= self.limit {
            Verdict::Stop(Fate::DepthExhausted)
        } else {
            Verdict::Scatter
        }
    }

    /// The step on the material's answer: below the depth limit a ray that
    /// is sent on takes the path one scattering deeper, and one that is not
    /// ends it; at the limit the path is cut off whatever the answer.
    pub open spec fn advance(self, continues: bool) -> Advance {
        if self.depth >= self.limit {
            Advance::Stop(Fate::DepthExhausted)
        } else if continues {
            Advance::Continue(Path { depth: (self.depth + 1) as u32, limit: self.limit })
        } else {
            Advance::Stop(Fate::Absorbed)
        }
    }

    /// A fresh path that may scatter `limit` times.
    pub fn new(limit: u32) -> (path: Path)
        ensures
            path == (Path { depth: 0, limit }),
    {
        Path { depth: 0, limit }
    }

    /// Decides what follows from the scene's answer for the current ray.
    pub fn after_query(&self, hit: bool) -> (verdict: Verdict)
        ensures
            verdict == self.verdict(hit),
    {
        if !hit {
            Verdict::Stop(Fate::Escaped)
        } else if self.depth >= self.limit {
            Verdict::Stop(Fate::DepthExhausted)
        } else {
            Verdict::Scatter
        }
    }

    /// Decides what follows from the material's answer for the current hit.
    pub fn after_scatter(&self, continues: bool) -> (advance: Advance)
        ensures
            advance == self.advance(continues),
    {
        if self.depth >= self.limit {
            Advance::Stop(Fate::DepthExhausted)
        } else if continues {
            Advance::Continue(Path { depth: self.depth + 1, limit: self.limit })
        } else {
            Advance::Stop(Fate::Absorbed)
        }
    }
}

/// What one round of tracing reports.
pub enum Round {
    /// The ray hit nothing.
    Miss,
    /// The ray hit a surface whose material, if asked, does not send it on.
    Absorb,
    /// The ray hit a surface whose material, if asked, sends it on.
    Bounce,
}

/// Where a path stands between two rounds.
pub enum Trace {
    Going(Path),
    Ended(Fate),
}

/// One round: the scene's answer is judged first, and the material is asked
/// only where the verdict is to scatter. An ended path stays as it is.
pub open spec fn next(trace: Trace, round: Round) -> Trace {
    match trace {
        Trace::Ended(fate) => Trace::Ended(fate),
        Trace::Going(path) => match path.verdict(!(round is Miss)) {
            Verdict::Stop(fate) => Trace::Ended(fate),
            Verdict::Scatter => match path.advance(round is Bounce) {
                Advance::Continue(deeper) => Trace::Going(deeper),
                Advance::Stop(fate) => Trace::Ended(fate),
            },
        },
    }
}

/// A fresh path after the given rounds.
pub open spec fn run(limit: u32, rounds: Seq<Round>) -> Trace
    decreases rounds.len(),
{
    if rounds.len() == 0 {
        Trace::Going(Path { depth: 0, limit })
    } else {
        next(run(limit, rounds.drop_last()), rounds.last())
    }
}

/// A path that is still going has scattered once in every round so far, and
/// never more often than its limit allows.
pub proof fn lemma_depth_counts_rounds(limit: u32, rounds: Seq<Round>)
    ensures
        match run(limit, rounds) {
            Trace::Going(path) => path.limit == limit && path.depth == rounds.len()
                && path.depth <= limit,
            Trace::Ended(_) => true,
        },
    decreases rounds.len(),
{
    if rounds.len() > 0 {
        lemma_depth_counts_rounds(limit, rounds.drop_last());
    }
}

/// No path outlives its limit: after more rounds than scatterings allowed
/// it has ended.
pub proof fn lemma_path_ends(limit: u32, rounds: Seq<Round>)
    requires
        rounds.len() > limit,
    ensures
        run(limit, rounds) is Ended,
{
    lemma_depth_counts_rounds(limit, rounds);
}

/// In a scene that no ray can leave, a path is black once it has run into
/// the depth limit: while no round is a miss, the path has not escaped, and
/// after more rounds than scatterings allowed it has ended without light.
pub proof fn lemma_depth_cutoff_is_black(limit: u32, rounds: Seq<Round>)
    requires
        forall|i: int| 0 <= i < rounds.len() ==> !(#[trigger] rounds[i] is Miss),
    ensures
        !(run(limit, rounds) == Trace::Ended(Fate::Escaped)),
        rounds.len() > limit ==> match run(limit, rounds) {
            Trace::Ended(fate) => fate.black(),
            Trace::Going(_) => false,
        },
    decreases rounds.len(),
{
    if rounds.len() > 0 {
        let earlier = rounds.drop_last();
        assert forall|i: int| 0 <= i < earlier.len() implies !(#[trigger] earlier[i] is Miss) by {
            assert(earlier[i] == rounds[i]);
        }
        lemma_depth_cutoff_is_black(limit, earlier);
        assert(rounds.last() == rounds[rounds.len() - 1]);
        if rounds.len() > limit {
            lemma_path_ends(limit, rounds);
        }
    }
}

/// Where every hit is sent on and no ray leaves the scene, the path is cut
/// off by the depth limit and by nothing else: it is still going after
/// `limit` rounds, having scattered in each, and the next round exhausts it.
pub proof fn lemma_cutoff_at_limit(limit: u32, rounds: Seq<Round>)
    requires
        forall|i: int| 0 <= i < rounds.len() ==> #[trigger] rounds[i] is Bounce,
    ensures
        rounds.len() <= limit ==> run(limit, rounds) == Trace::Going(
            Path { depth: rounds.len() as u32, limit },
        ),
        rounds.len() > limit ==> run(limit, rounds) == Trace::Ended(Fate::DepthExhausted),
    decreases rounds.len(),
{
    if rounds.len() > 0 {
        let earlier = rounds.drop_last();
        assert forall|i: int| 0 <= i < earlier.len() implies #[trigger] earlier[i] is Bounce by {
            assert(earlier[i] == rounds[i]);
        }
        lemma_cutoff_at_limit(limit, earlier);
        assert(rounds.last() == rounds[rounds.len() - 1]);
    }
}

} // verus!
