//! A caching wrapper for a closure: the first call computes and stores a
//! value, every later call returns the stored value without running the
//! closure again. A workout planner built on it shows the cache at work.

use vstd::prelude::*;

verus! {

/// Holds a closure and, once computed, its cached result.
pub struct Cacher<T> where T: Fn(u32) -> u32 {
    calculation: T,
    value: Option<u32>,
}

impl<T> Cacher<T> where T: Fn(u32) -> u32 {
    /// The cached result, if one has been computed.
    pub closed spec fn cached(self) -> Option<u32> {
        self.value
    }

    /// The stored closure.
    pub closed spec fn func(self) -> T {
        self.calculation
    }

    /// Wrap a closure with an empty cache.
    pub fn new(calculation: T) -> (cacher: Cacher<T>)
        ensures
            cacher.cached() is None,
            cacher.func() == calculation,
    {
        Cacher { calculation, value: None }
    }

    /// Return the cached value, or compute it with the stored closure on
    /// the first call. Whatever the argument of a later call, the value
    /// of the first call is what comes back.
    pub fn value(&mut self, arg: u32) -> (v: u32)
        requires
            old(self).cached() is None ==> call_requires(old(self).func(), (arg,)),
        ensures
            final(self).func() == old(self).func(),
            old(self).cached() matches Some(cached) ==> v == cached && final(self).cached()
                == old(self).cached(),
            old(self).cached() is None ==> call_ensures(old(self).func(), (arg,), v)
                && final(self).cached() == Some(v),
    {
        match self.value {
            Some(v) => v,
            None => {
                let v = (self.calculation)(arg);
                self.value = Some(v);
                v
            },
        }
    }
}

/// What one generated workout tells the user to do.
#[derive(Debug, Clone, Copy, PartialEq, Eq, Structural)]
pub enum WorkoutPlan {
    PushupsAndSitups { pushups: u32, situps: u32 },
    TakeABreak,
    Run { minutes: u32 },
}

/// Plan a workout from the intensity, a random number, and the expensive
/// calculation. On a low-intensity day the calculation runs once and its
/// result is reused: the pushup and situp counts are always equal.
pub fn generate_workout<T>(intensity: u32, random_number: u32, calculation: T) -> (plan:
    WorkoutPlan) where T: Fn(u32) -> u32
    requires
        call_requires(calculation, (intensity,)),
    ensures
        intensity < 25 ==> (plan matches WorkoutPlan::PushupsAndSitups { pushups, situps }
            && call_ensures(calculation, (intensity,), pushups) && situps == pushups),
        intensity >= 25 && random_number == 3 ==> plan == WorkoutPlan::TakeABreak,
        intensity >= 25 && random_number != 3 ==> (plan matches WorkoutPlan::Run { minutes }
            && call_ensures(calculation, (intensity,), minutes)),
{
    let mut expensive_result = Cacher::new(calculation);
    if intensity < 25 {
        let pushups = expensive_result.value(intensity);
        let situps = expensive_result.value(intensity);
        WorkoutPlan::PushupsAndSitups { pushups, situps }
    } else {
        if random_number == 3 {
            WorkoutPlan::TakeABreak
        } else {
            WorkoutPlan::Run { minutes: expensive_result.value(intensity) }
        }
    }
}

} // verus!
