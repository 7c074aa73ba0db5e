use super::state_id::StateID;
use super::traits::AnimationState;
use core::marker::PhantomData;
use vstd::prelude::*;

verus! {

/// One playback: the state it is in and how far it has come there. A machine
/// holds none of these; whoever plays an animation keeps one and hands it to
/// the machine at each update.
#[derive(Debug)]
pub struct StateInstance<S, D> {
    /// The id of the state that the playback is in.
    pub current_id: StateID,
    /// The progress of the playback through that state.
    pub data: D,
    /// The kind of state that `data` belongs to.
    pub phantom: PhantomData<S>,
}

impl<S, D> StateInstance<S, D> where S: AnimationState<Data = D> {
    /// The playback that is in the state `state_id` with the progress `data`.
    pub open spec fn spec_new(state_id: StateID, data: D) -> Self {
        StateInstance { current_id: state_id, data, phantom: PhantomData }
    }

    /// The playback that is in the state `state_id` with the progress `data`.
    #[verifier::when_used_as_spec(spec_new)]
    pub fn new(state_id: StateID, data: D) -> (instance: Self)
        ensures
            instance == Self::spec_new(state_id, data),
            instance.current_id == state_id,
            instance.data == data,
    {
        StateInstance { current_id: state_id, data, phantom: PhantomData }
    }
}

} // verus!
