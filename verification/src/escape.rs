//! Control of the escape-time iteration.
//!
//! An orbit is followed for at most as many iterations as the cap allows. The
//! arithmetic of an iteration is floating-point work and is done by the
//! caller, who reports after each iteration whether the orbit has left the
//! circle of radius 2. What is decided here is when the evaluation ends and
//! what it yields: the index of the first iteration that left the circle, or
//! nothing where none of the allowed iterations did.

use vstd::prelude::*;

verus! {

/// Where the evaluation of one orbit stands.
#[derive(Clone, Copy, Debug, PartialEq, Eq, Structural)]
pub enum Orbit {
    /// The iteration with this index is the next to run.
    Iterating(u8),
    /// The evaluation is over: `Some(i)` where the orbit escaped at iteration
    /// `i`, `None` where it stayed bounded for every iteration allowed.
    Finished(Option<u8>),
}

impl Orbit {
    /// The state before the first iteration. With a cap of zero no iteration
    /// runs and the orbit counts as bounded.
    pub open spec fn begin(max_iterations: u8) -> Orbit {
        if max_iterations == 0 {
            Orbit::Finished(None)
        } else {
            Orbit::Iterating(0)
        }
    }

    /// The state after one more iteration, of which `exceeded` says whether
    /// it left the circle. A finished evaluation stays as it is.
    pub open spec fn step(self, max_iterations: u8, exceeded: bool) -> Orbit {
        match self {
            Orbit::Finished(_) => self,
            Orbit::Iterating(i) => if i >= max_iterations {
                Orbit::Finished(None)
            } else if exceeded {
                Orbit::Finished(Some(i))
            } else if i + 1 < max_iterations {
                Orbit::Iterating((i + 1) as u8)
            } else {
                Orbit::Finished(None)
            },
        }
    }

    /// Begins the evaluation of an orbit under the cap `max_iterations`.
    pub fn start(max_iterations: u8) -> (orbit: Orbit)
        ensures
            orbit == Orbit::begin(max_iterations),
    {
        if max_iterations == 0 {
            Orbit::Finished(None)
        } else {
            Orbit::Iterating(0)
        }
    }

    /// Takes in the result of the iteration that was due: `exceeded` says
    /// whether the squared magnitude of the new point is above 4.
    pub fn advance(self, max_iterations: u8, exceeded: bool) -> (orbit: Orbit)
        ensures
            orbit == self.step(max_iterations, exceeded),
    {
        match self {
            Orbit::Finished(_) => self,
            Orbit::Iterating(i) => {
                if i >= max_iterations {
                    Orbit::Finished(None)
                } else if exceeded {
                    Orbit::Finished(Some(i))
                } else if i + 1 < max_iterations {
                    Orbit::Iterating(i + 1)
                } else {
                    Orbit::Finished(None)
                }
            },
        }
    }
}

/// The state reached from the beginning when the iterations report
/// `exceeded[0]`, `exceeded[1]` and so on.
pub open spec fn run(exceeded: Seq<bool>, max_iterations: u8) -> Orbit
    decreases exceeded.len(),
{
    if exceeded.len() == 0 {
        Orbit::begin(max_iterations)
    } else {
        run(exceeded.drop_last(), max_iterations).step(max_iterations, exceeded.last())
    }
}

/// Iteration `i` is allowed by the cap, left the circle, and none before it
/// did.
pub open spec fn escapes_at(exceeded: Seq<bool>, max_iterations: u8, i: int) -> bool {
    &&& 0 <= i < max_iterations
    &&& i < exceeded.len()
    &&& exceeded[i]
    &&& forall|j: int| 0 <= j < i ==> !exceeded[j]
}

/// Every iteration that the cap allows has run and none left the circle.
pub open spec fn stays_bounded(exceeded: Seq<bool>, max_iterations: u8) -> bool {
    &&& exceeded.len() >= max_iterations
    &&& forall|j: int| 0 <= j < max_iterations ==> !exceeded[j]
}

/// Some allowed iterations are still to run and none so far left the circle.
pub open spec fn still_inside(exceeded: Seq<bool>, max_iterations: u8) -> bool {
    &&& exceeded.len() < max_iterations
    &&& forall|j: int| 0 <= j < exceeded.len() ==> !exceeded[j]
}

/// The evaluation yields the index of the first iteration under the cap that
/// left the circle; it yields nothing exactly when all iterations under the
/// cap have run and stayed inside; and it goes on exactly as long as neither
/// has happened. Reports that come after the end change nothing.
pub proof fn lemma_run_outcome(exceeded: Seq<bool>, max_iterations: u8)
    ensures
        match run(exceeded, max_iterations) {
            Orbit::Finished(Some(i)) => escapes_at(exceeded, max_iterations, i as int),
            Orbit::Finished(None) => stays_bounded(exceeded, max_iterations),
            Orbit::Iterating(i) => i == exceeded.len() && still_inside(exceeded, max_iterations),
        },
    decreases exceeded.len(),
{
    if exceeded.len() > 0 {
        let earlier = exceeded.drop_last();
        lemma_run_outcome(earlier, max_iterations);
        assert forall|j: int| 0 <= j < earlier.len() implies earlier[j] == exceeded[j] by {}
        match run(earlier, max_iterations) {
            Orbit::Finished(Some(i)) => {
                assert(escapes_at(exceeded, max_iterations, i as int));
            },
            Orbit::Finished(None) => {
                assert(stays_bounded(exceeded, max_iterations));
            },
            Orbit::Iterating(i) => {
                assert(exceeded.last() == exceeded[i as int]);
            },
        }
    }
}

/// An orbit with a first escaping iteration under the cap yields that
/// iteration, however many reports follow it.
pub proof fn lemma_escape_is_found(exceeded: Seq<bool>, max_iterations: u8, i: int)
    requires
        escapes_at(exceeded, max_iterations, i),
    ensures
        run(exceeded, max_iterations) == Orbit::Finished(Some(i as u8)),
{
    lemma_run_outcome(exceeded, max_iterations);
    match run(exceeded, max_iterations) {
        Orbit::Finished(Some(k)) => {
            if k < i {
                assert(!exceeded[k as int]);
            } else if i < k {
                assert(!exceeded[i]);
            }
        },
        Orbit::Finished(None) => {
            assert(!exceeded[i]);
        },
        Orbit::Iterating(k) => {
            assert(!exceeded[i]);
        },
    }
}

/// An orbit that stays inside the circle for every iteration under the cap
/// yields nothing. With a cap of zero that is every orbit.
pub proof fn lemma_bounded_is_reported(exceeded: Seq<bool>, max_iterations: u8)
    requires
        stays_bounded(exceeded, max_iterations),
    ensures
        run(exceeded, max_iterations) == Orbit::Finished(None),
{
    lemma_run_outcome(exceeded, max_iterations);
    match run(exceeded, max_iterations) {
        Orbit::Finished(Some(k)) => {
            assert(!exceeded[k as int]);
        },
        _ => {},
    }
}

} // verus!
