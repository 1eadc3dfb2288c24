//! Discrete maps: one application of a transition function per tick.
use vstd::prelude::*;

verus! {

/// A pure transition function on states, which may depend on the time.
pub trait DiscreteMap {
    type State;

    type Time;

    /// The state that follows `v` at time `t`.
    open spec fn apply(&self, v: Self::State, t: Self::Time) -> Self::State {
        arbitrary()
    }

    fn execute(&self, v: &mut Self::State, t: &Self::Time)
        ensures
            *final(v) == self.apply(*old(v), *t),
    ;
}

/// The discrete map of a configuration that says how to apply itself.
#[derive(PartialEq, Clone, Debug)]
pub struct SimpleDiscreteMap<P> {
    pub conf: P,
}

impl<P> SimpleDiscreteMap<P> {
    pub fn new(conf: P) -> (map: Self)
        ensures
            map.conf == conf,
    {
        Self { conf }
    }
}

impl<V, P: DiscreteMap<State = V>> DiscreteMap for SimpleDiscreteMap<P> {
    type State = V;

    type Time = P::Time;

    open spec fn apply(&self, v: V, t: P::Time) -> V {
        self.conf.apply(v, t)
    }

    fn execute(&self, v: &mut V, t: &P::Time) {
        self.conf.execute(v, t);
    }
}

} // verus!
