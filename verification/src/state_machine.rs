mod state_container;
mod state_id;
mod state_instance;
mod traits;

pub use state_container::distinct_ids;
pub use state_container::has_id;
pub use state_container::insert_all;
pub use state_container::lemma_insert_all_keeps;
pub use state_container::lemma_insert_all_last_wins;
pub use state_container::lemma_pairs_round_trip;
pub use state_container::lemma_position_of;
pub use state_container::lemma_put;
pub use state_container::lemma_put_all;
pub use state_container::lemma_registry_ignores_order;
pub use state_container::position;
pub use state_container::put;
pub use state_container::put_all;
pub use state_container::registry;
pub use state_container::StateContainer;
pub use state_id::id_text;
pub use state_id::StateID;
pub use state_instance::StateInstance;
pub use traits::AnimationSprite;
pub use traits::AnimationState;
pub use traits::FrameSlot;
pub use traits::IndexSprite;
pub use traits::Sprite;
pub use traits::UpdateArgs;

use core::marker::PhantomData;
use vstd::prelude::*;

verus! {

/// How an update of a playback ended.
#[derive(Debug, PartialEq, Eq)]
pub enum UpdateOutcome {
    /// The playback stays in its state.
    Continued,
    /// The playback has entered another state.
    Switched,
    /// The state asked for a state that the machine does not hold: the
    /// playback stays where it is.
    MissingTarget(StateID),
    /// The machine does not hold the state that the playback is in: nothing
    /// was done.
    UnknownState,
}

/// A finite state machine over animation states: the states under their ids,
/// and the id of the state in which a playback begins. The machine holds no
/// playback; any number of them can run on one machine.
#[derive(Debug)]
pub struct AnimationStateMachine<S, T> {
    default_id: StateID,
    states: StateContainer<T>,
    phantom_sprite: PhantomData<S>,
}

impl<S, T> AnimationStateMachine<S, T> where S: AnimationSprite, T: AnimationState<Sprite = S> {
    /// The id of the state in which a playback begins.
    pub closed spec fn spec_default_id(&self) -> &StateID {
        &self.default_id
    }

    /// The states of the machine.
    pub closed spec fn spec_states(&self) -> &StateContainer<T> {
        &self.states
    }

    /// Whether `instance` is a playback that has just entered the state
    /// under `id`.
    pub open spec fn entered(&self, id: Seq<char>, instance: StateInstance<T, T::Data>) -> bool {
        &&& self.states()@.contains_key(id)
        &&& instance.current_id@ == id
        &&& instance.data == self.states()@[id].fresh()
    }

    /// The playback that has just entered the state under `id`.
    pub open spec fn started(&self, id: StateID) -> StateInstance<T, T::Data> {
        StateInstance::spec_new(id, self.states()@[id@].fresh())
    }

    /// Whether an update may be asked for: the machine does not hold the
    /// state of the playback, or the results of the state's update fit.
    pub open spec fn ready(
        &self,
        instance: StateInstance<T, T::Data>,
        args: UpdateArgs,
        frame: usize,
    ) -> bool {
        self.states()@.contains_key(instance.current_id@) ==> self.states()@[instance.current_id@].fits(
            instance.data,
            args,
            frame,
        )
    }

    /// What an update makes of the playback `before` on a sprite that shows
    /// `frame_before`.
    ///
    /// A playback whose state the machine does not hold is left alone.
    /// Otherwise its state advances the data and chooses the frame. Where
    /// the state then names a successor that the machine holds, the playback
    /// enters it afresh, also when it is the state that it was in. Where the
    /// machine does not hold the successor, the playback stays in its state
    /// with the advanced data.
    pub open spec fn updates(
        &self,
        before: StateInstance<T, T::Data>,
        args: UpdateArgs,
        frame_before: usize,
        after: StateInstance<T, T::Data>,
        frame_after: usize,
        outcome: UpdateOutcome,
    ) -> bool {
        let states = self.states()@;
        if !states.contains_key(before.current_id@) {
            &&& outcome is UnknownState
            &&& after == before
            &&& frame_after == frame_before
        } else {
            let state = states[before.current_id@];
            let data = state.advanced(before.data, args, frame_before);
            &&& frame_after == state.shown(before.data, args, frame_before)
            &&& match state.successor(data, frame_after) {
                None => {
                    &&& outcome is Continued
                    &&& after.current_id == before.current_id
                    &&& after.data == data
                },
                Some(next) => if states.contains_key(next) {
                    &&& outcome is Switched
                    &&& self.entered(next, after)
                } else {
                    &&& outcome matches UpdateOutcome::MissingTarget(wanted)
                    &&& wanted@ == next
                    &&& after.current_id == before.current_id
                    &&& after.data == data
                },
            }
        }
    }

    /// A playback never leaves the machine: after an update of a playback
    /// whose state the machine holds, the machine holds the state that the
    /// playback is in, whether it stayed, moved on, or asked for a state
    /// that is missing.
    pub proof fn lemma_update_stays_in_machine(
        &self,
        before: StateInstance<T, T::Data>,
        args: UpdateArgs,
        frame_before: usize,
        after: StateInstance<T, T::Data>,
        frame_after: usize,
        outcome: UpdateOutcome,
    )
        requires
            self.updates(before, args, frame_before, after, frame_after, outcome),
            self.states()@.contains_key(before.current_id@),
        ensures
            self.states()@.contains_key(after.current_id@),
            !(outcome is UnknownState),
            !(outcome is Switched) ==> after.current_id == before.current_id,
    {
    }

    /// A machine that is written out as its default id and the list of its
    /// pairs, and built again from the two, is the machine that it was: it
    /// begins at the same id and holds the same states under the same ids,
    /// in the same order.
    pub proof fn lemma_definition_round_trip(&self, read: Self)
        requires
            self.states().valid(),
            read.default_id() == self.default_id(),
            read.states().entries() == put_all(
                Seq::<(StateID, T)>::empty(),
                self.states().entries(),
            ),
        ensures
            read.default_id() == self.default_id(),
            read.states().entries() == self.states().entries(),
            read.states()@ == self.states()@,
    {
        lemma_pairs_round_trip(self.states().entries());
    }

    /// A machine that holds `default_state` under `default_id` and begins
    /// there.
    pub fn with_default(default_id: StateID, default_state: T) -> (machine: Self)
        ensures
            machine.default_id() == default_id,
            machine.states().entries() == seq![(default_id, default_state)],
            machine.states()@ == Map::<Seq<char>, T>::empty().insert(
                default_id@,
                default_state,
            ),
    {
        let mut states = StateContainer::new();
        states.insert(default_id.clone(), default_state);
        AnimationStateMachine { default_id, states, phantom_sprite: PhantomData }
    }

    /// A machine that holds `states` and begins at `default_id`.
    pub fn with_states(default_id: StateID, states: StateContainer<T>) -> (machine: Self)
        ensures
            machine.default_id() == default_id,
            machine.states() == states,
    {
        AnimationStateMachine { default_id, states, phantom_sprite: PhantomData }
    }

    /// Adds each pair of id and state to the machine, in turn: a later pair
    /// takes the place of an earlier state with the same id.
    pub fn add_states(&mut self, pairs: Vec<(StateID, T)>)
        ensures
            final(self).default_id() == old(self).default_id(),
            final(self).states().entries() == put_all(
                old(self).states().entries(),
                pairs@,
            ),
            final(self).states()@ == insert_all(old(self).states()@, pairs@),
            forall|id: Seq<char>|
                old(self).states()@.contains_key(id) ==> #[trigger] final(self)
                    .states()@.contains_key(id),
    {
        proof {
            let before = self.states@;
            assert forall|id: Seq<char>| before.contains_key(id) implies #[trigger] insert_all(
                before,
                pairs@,
            ).contains_key(id) by {
                lemma_insert_all_keeps(before, pairs@, id);
            }
        }
        self.states.extend(pairs);
    }

    /// A playback that has just entered the state under `instance_id`, if
    /// the machine holds one.
    pub fn new_instance(&self, instance_id: StateID) -> (made: Option<StateInstance<T, T::Data>>)
        ensures
            match made {
                Some(instance) => self.states()@.contains_key(instance_id@) && instance
                    == self.started(instance_id),
                None => !self.states()@.contains_key(instance_id@),
            },
    {
        match self.states.get(&instance_id) {
            Some(state) => Some(StateInstance::new(instance_id, state.start())),
            None => None,
        }
    }

    /// A playback that has just entered the default state, if the machine
    /// holds it.
    pub fn default_instance(&self) -> (made: Option<StateInstance<T, T::Data>>)
        ensures
            match made {
                Some(instance) => self.states()@.contains_key(self.default_id()@)
                    && instance == self.started(*self.default_id()),
                None => !self.states()@.contains_key(self.default_id()@),
            },
    {
        self.new_instance(self.default_id.clone())
    }

    /// Moves the playback into the state under `new_id`, which it enters
    /// afresh. Where the machine holds no such state the playback is left as
    /// it is and the result is `None`.
    pub fn set_state(&self, instance: &mut StateInstance<T, T::Data>, new_id: StateID) -> (done:
        Option<()>)
        ensures
            done is Some <==> self.states()@.contains_key(new_id@),
            done is Some ==> *final(instance) == self.started(new_id),
            done is None ==> *final(instance) == *old(instance),
    {
        match self.new_instance(new_id) {
            Some(entered) => {
                *instance = entered;
                Some(())
            },
            None => None,
        }
    }

    /// Runs one update of the playback: its state advances it and chooses
    /// the frame of the sprite, and where the state names a successor the
    /// playback moves there.
    pub fn update(
        &self,
        instance: &mut StateInstance<T, T::Data>,
        args: UpdateArgs,
        sprite: &mut S,
    ) -> (outcome: UpdateOutcome)
        requires
            self.ready(*old(instance), args, old(sprite).frame()),
        ensures
            self.updates(
                *old(instance),
                args,
                old(sprite).frame(),
                *final(instance),
                final(sprite).frame(),
                outcome,
            ),
            outcome is UnknownState ==> *final(sprite) == *old(sprite),
    {
        let state = match self.states.get(&instance.current_id) {
            Some(state) => state,
            None => {
                return UpdateOutcome::UnknownState;
            },
        };
        state.update(&mut instance.data, args, sprite);
        match state.next_state(&instance.data, sprite) {
            Some(next_id) => {
                let wanted = next_id.clone();
                match self.set_state(instance, next_id) {
                    Some(_) => UpdateOutcome::Switched,
                    None => UpdateOutcome::MissingTarget(wanted),
                }
            },
            None => UpdateOutcome::Continued,
        }
    }

    /// Runs one update of the playback in `slot`. An empty slot stands for a
    /// playback that has not begun: it begins in the default state and is
    /// updated at once. Where the machine does not hold the default state
    /// the slot stays empty.
    pub fn animation_system(
        &self,
        slot: &mut Option<StateInstance<T, T::Data>>,
        args: UpdateArgs,
        sprite: &mut S,
    ) -> (outcome: UpdateOutcome)
        requires
            match *old(slot) {
                Some(running) => self.ready(running, args, old(sprite).frame()),
                None => self.ready(
                    self.started(*self.default_id()),
                    args,
                    old(sprite).frame(),
                ),
            },
        ensures
            match *old(slot) {
                Some(running) => {
                    &&& *final(slot) matches Some(after)
                    &&& self.updates(
                        running,
                        args,
                        old(sprite).frame(),
                        after,
                        final(sprite).frame(),
                        outcome,
                    )
                },
                None => if self.states()@.contains_key(self.default_id()@) {
                    &&& *final(slot) matches Some(after)
                    &&& self.updates(
                        self.started(*self.default_id()),
                        args,
                        old(sprite).frame(),
                        after,
                        final(sprite).frame(),
                        outcome,
                    )
                } else {
                    &&& *final(slot) is None
                    &&& outcome is UnknownState
                },
            },
            outcome is UnknownState ==> *final(sprite) == *old(sprite),
    {
        if slot.is_none() {
            match self.default_instance() {
                Some(begun) => {
                    *slot = Some(begun);
                },
                None => {
                    return UpdateOutcome::UnknownState;
                },
            }
        }
        match slot {
            Some(running) => self.update(running, args, sprite),
            None => UpdateOutcome::UnknownState,
        }
    }

    /// The id of the state in which a playback begins.
    #[verifier::when_used_as_spec(spec_default_id)]
    pub fn default_id(&self) -> (id: &StateID)
        ensures
            id == self.spec_default_id(),
    {
        &self.default_id
    }

    /// The states of the machine.
    #[verifier::when_used_as_spec(spec_states)]
    pub fn states(&self) -> (states: &StateContainer<T>)
        ensures
            states == self.spec_states(),
    {
        &self.states
    }
}

} // verus!
