//! Computing a value once per argument and keeping it for later calls.
use std::collections::HashMap;
use vstd::prelude::*;

verus! {

broadcast use vstd::std_specs::hash::group_hash_axioms;

/// Remembers what a calculation gave for each argument it was called with.
pub struct Cacher<T: Fn(u32) -> u32> {
    calculation: T,
    map: HashMap<u32, u32>,
}

impl<T: Fn(u32) -> u32> Cacher<T> {
    /// The calculation.
    pub closed spec fn calc(&self) -> T {
        self.calculation
    }

    /// The results kept so far, by argument.
    pub closed spec fn kept(&self) -> Map<u32, u32> {
        self.map@
    }

    /// The calculation can be called on every argument, and each result kept
    /// is one it may give for its argument.
    pub open spec fn wf(&self) -> bool {
        &&& forall|x: u32| #[trigger] self.calc().requires((x,))
        &&& forall|x: u32| #[trigger] self.kept().contains_key(x) ==> self.calc().ensures(
            (x,),
            self.kept()[x],
        )
    }

    /// A cache over `calculation`, with nothing kept yet.
    pub fn new(calculation: T) -> (r: Cacher<T>)
        requires
            forall|x: u32| #[trigger] calculation.requires((x,)),
        ensures
            r.calc() == calculation,
            r.kept() == Map::<u32, u32>::empty(),
            r.wf(),
    {
        Cacher { calculation, map: HashMap::new() }
    }

    /// The result for `arg`: the one kept if there is one, else the
    /// calculation's, which is then kept.
    pub fn value(&mut self, arg: u32) -> (r: u32)
        requires
            old(self).wf(),
        ensures
            final(self).wf(),
            final(self).calc() == old(self).calc(),
            old(self).kept().contains_key(arg) ==> r == old(self).kept()[arg] && final(self).kept()
                == old(self).kept(),
            !old(self).kept().contains_key(arg) ==> final(self).kept() == old(self).kept().insert(
                arg,
                r,
            ),
            old(self).calc().ensures((arg,), r),
    {
        match self.map.get(&arg) {
            Some(v) => *v,
            None => {
                assert(self.calc().requires((arg,)));
                let v = (self.calculation)(arg);
                self.map.insert(arg, v);
                assert forall|x: u32| #[trigger] self.kept().contains_key(x) implies self.calc().ensures(
                    (x,),
                    self.kept()[x],
                ) by {
                    if x != arg {
                        assert(old(self).kept().contains_key(x));
                        assert(self.kept()[x] == old(self).kept()[x]);
                    } else {
                        assert(self.kept()[x] == v);
                        assert(old(self).calc().ensures((arg,), v));
                    }
                }
                v
            },
        }
    }
}

/// A day's training.
#[derive(Clone, Copy, Debug, PartialEq, Eq, Structural)]
pub enum Workout {
    /// Push-ups, then sit-ups.
    Strength { pushups: u32, situps: u32 },
    /// A day off.
    Rest,
    /// A run of some minutes.
    Run { minutes: u32 },
}

/// Plans a workout of the given intensity. Below 25 it is push-ups and as
/// many sit-ups; above, a rest day when `random_number` is 3 and a run
/// otherwise. The counts come from the cached calculation, which runs at most
/// once for the intensity.
pub fn generate_workout<T: Fn(u32) -> u32>(
    expensive: &mut Cacher<T>,
    intensity: u32,
    random_number: u32,
) -> (r: Workout)
    requires
        old(expensive).wf(),
    ensures
        final(expensive).wf(),
        final(expensive).calc() == old(expensive).calc(),
        intensity < 25 ==> exists|n: u32|
            r == (Workout::Strength { pushups: n, situps: n }) && old(expensive).calc().ensures(
                (intensity,),
                n,
            ),
        intensity >= 25 && random_number == 3 ==> r == Workout::Rest,
        intensity >= 25 && random_number != 3 ==> exists|n: u32|
            r == (Workout::Run { minutes: n }) && old(expensive).calc().ensures((intensity,), n),
{
    if intensity < 25 {
        let pushups = expensive.value(intensity);
        let situps = expensive.value(intensity);
        Workout::Strength { pushups, situps }
    } else if random_number == 3 {
        Workout::Rest
    } else {
        Workout::Run { minutes: expensive.value(intensity) }
    }
}

} // verus!
