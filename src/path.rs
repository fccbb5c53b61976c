//! The bounce budget of a light path. Each camera sample follows a path
//! from surface to surface; the budget decides, from what the scene and
//! the hit material did with the ray, whether the estimate ends (black,
//! sky, emitted light) or follows the scattered ray with one bounce fewer.
use vstd::prelude::*;

verus! {

/// What the scene and the material of the nearest hit did with a ray.
#[derive(PartialEq, Eq, Structural, Clone, Copy, Debug)]
pub enum Event {
    /// Nothing was hit.
    Miss,
    /// The material absorbed the ray.
    Absorbed,
    /// The material is a light source: its color is the radiance.
    Emitted,
    /// The material sent a new ray on.
    Scattered,
}

/// What the estimator does next.
#[derive(PartialEq, Eq, Structural, Clone, Copy, Debug)]
pub enum Step {
    /// End with black.
    Black,
    /// End with the sky gradient seen along the ray.
    Background,
    /// End with the emitted radiance.
    Emission,
    /// Follow the scattered ray with this many bounces left.
    Bounce(u32),
}

/// The step taken with `remaining` bounces left when `e` happens.
pub open spec fn step_of(remaining: nat, e: Event) -> Step {
    if remaining == 0 {
        Step::Black
    } else {
        match e {
            Event::Miss => Step::Background,
            Event::Absorbed => Step::Black,
            Event::Emitted => Step::Emission,
            Event::Scattered => Step::Bounce((remaining - 1) as u32),
        }
    }
}

/// The step that ends a path which starts with `remaining` bounces left and
/// meets `events` in turn, and the number of bounces it made before; `None`
/// when the events run out first.
pub open spec fn path_end(remaining: nat, events: Seq<Event>) -> Option<(Step, nat)>
    decreases events.len(),
{
    if remaining == 0 {
        Some((Step::Black, 0))
    } else if events.len() == 0 {
        None
    } else {
        match step_of(remaining, events[0]) {
            Step::Bounce(_) => match path_end((remaining - 1) as nat, events.drop_first()) {
                Some((s, n)) => Some((s, n + 1)),
                None => None,
            },
            s => Some((s, 0)),
        }
    }
}

/// The bounces a light path has left.
pub struct PathBudget {
    pub remaining: u32,
}

impl PathBudget {
    /// A path that may bounce `max_bounces` times.
    pub fn new(max_bounces: u32) -> (b: PathBudget)
        ensures
            b.remaining == max_bounces,
    {
        PathBudget { remaining: max_bounces }
    }

    /// Whether the budget is spent: the path ends black without asking the
    /// scene.
    pub fn spent(&self) -> (r: bool)
        ensures
            r == (self.remaining == 0),
    {
        self.remaining == 0
    }

    /// Decides what follows `e`, and spends one bounce where the path goes
    /// on.
    pub fn next(&mut self, e: Event) -> (s: Step)
        ensures
            s == step_of(old(self).remaining as nat, e),
            final(self).remaining == match s {
                Step::Bounce(r) => r,
                _ => old(self).remaining,
            },
    {
        if self.remaining == 0 {
            Step::Black
        } else {
            match e {
                Event::Miss => Step::Background,
                Event::Absorbed => Step::Black,
                Event::Emitted => Step::Emission,
                Event::Scattered => {
                    self.remaining = self.remaining - 1;
                    Step::Bounce(self.remaining)
                },
            }
        }
    }
}

/// A path never bounces more often than its budget allows: whatever the
/// events, it ends after at most `max_bounces` bounces, and it ends black
/// once all of them are spent on scattering.
pub proof fn lemma_path_bounded(max_bounces: nat, events: Seq<Event>)
    ensures
        events.len() > max_bounces ==> path_end(max_bounces, events) is Some,
        path_end(max_bounces, events) matches Some((_, n)) ==> n <= max_bounces,
        events.len() >= max_bounces && (forall|k: int|
            0 <= k < max_bounces ==> #[trigger] events[k] == Event::Scattered) ==> path_end(max_bounces, events) == Some(
            (Step::Black, max_bounces),
        ),
    decreases events.len(),
{
    if max_bounces > 0 && events.len() > 0 {
        let rest = events.drop_first();
        lemma_path_bounded((max_bounces - 1) as nat, rest);
        if events.len() >= max_bounces && (forall|k: int|
            0 <= k < max_bounces ==> #[trigger] events[k] == Event::Scattered) {
            assert(events[0] == Event::Scattered);
            assert forall|k: int| 0 <= k < max_bounces - 1 implies #[trigger] rest[k]
                == Event::Scattered by {
                assert(events[k + 1] == Event::Scattered);
            }
        }
    }
}

} // verus!
