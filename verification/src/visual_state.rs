//! Visual states of named controls.

use vstd::prelude::*;

use crate::keyed::KeyedMap;

verus! {

/// A state to go to, and whether its transition is run.
pub type StateRequest = (String, bool);

/// Requests by control name, as values.
pub open spec fn requests_of(m: Map<Seq<char>, StateRequest>) -> Map<
    Seq<char>,
    (Seq<char>, bool),
> {
    m.map_values(|r: StateRequest| (r.0@, r.1))
}

/// The states that a view puts its controls into.
pub struct NoesisVisualState {
    /// Requested state by control name.
    pub states: KeyedMap<String, StateRequest>,
}

impl Default for NoesisVisualState {
    fn default() -> (s: NoesisVisualState)
        ensures
            requests_of(s.states@) == Map::<Seq<char>, (Seq<char>, bool)>::empty(),
    {
        let s = NoesisVisualState { states: KeyedMap::new() };
        assert(requests_of(s.states@) =~= Map::<Seq<char>, (Seq<char>, bool)>::empty());
        s
    }
}

impl NoesisVisualState {
    /// Requests nothing.
    pub fn new() -> (s: NoesisVisualState)
        ensures
            requests_of(s.states@) == Map::<Seq<char>, (Seq<char>, bool)>::empty(),
    {
        NoesisVisualState::default()
    }

    /// Puts the control `name` into `state`; an earlier request for it is
    /// replaced.
    pub fn state(self, name: &str, state: &str, use_transitions: bool) -> (s: NoesisVisualState)
        ensures
            requests_of(s.states@) == requests_of(self.states@).insert(
                name@,
                (state@, use_transitions),
            ),
    {
        let mut states = self.states;
        states.insert(name.to_owned(), (state.to_owned(), use_transitions));
        assert(requests_of(states@) =~= requests_of(self.states@).insert(
            name@,
            (state@, use_transitions),
        ));
        NoesisVisualState { states }
    }
}

} // verus!
