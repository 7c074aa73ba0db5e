use super::state_id::id_text;
use super::state_id::StateID;
use vstd::prelude::*;

verus! {

/// What one update is given.
///
/// Time is counted in whole units. The names speak of milliseconds, but
/// nothing depends on the unit as long as the states and the updates of one
/// machine count in the same one: a host that wants finer steps counts
/// microseconds throughout.
#[derive(Debug, Clone, Copy)]
pub struct UpdateArgs {
    /// The time that has passed since the previous update.
    pub delta_ms: u64,
}

/// A sprite whose frame is chosen by an index: a slot that holds the index
/// of the frame on show, and nothing else that matters here.
pub trait IndexSprite {
    /// The index of the frame on show.
    spec fn frame(&self) -> usize;

    /// Shows the frame with the given index.
    fn set_index(&mut self, index: usize)
        ensures
            final(self).frame() == index,
    ;

    /// The index of the frame on show.
    fn get_index(&self) -> (index: usize)
        ensures
            index == self.frame(),
    ;
}

/// A sprite that names the kind of source its frames are cut from, such as
/// a handle to a sprite sheet. Nothing here looks into the source.
pub trait Sprite: IndexSprite {
    /// The source of the frames.
    type FrameSource;
}

/// What a machine can animate.
pub trait AnimationSprite: IndexSprite {

}

/// A sprite that is nothing but its frame index.
#[derive(Debug, Clone, Copy, PartialEq, Eq, Structural)]
pub struct FrameSlot {
    /// The index of the frame on show.
    pub index: usize,
}

impl IndexSprite for FrameSlot {
    open spec fn frame(&self) -> usize {
        self.index
    }

    fn set_index(&mut self, index: usize)
        ensures
            *final(self) == (FrameSlot { index }),
    {
        self.index = index;
    }

    fn get_index(&self) -> (index: usize) {
        self.index
    }
}

impl Sprite for FrameSlot {
    type FrameSource = ();
}

impl AnimationSprite for FrameSlot {

}

/// A kind of state. A value of the implementing type is the shared, immutable
/// rule of one state; the progress of one playback through it is a value of
/// `Data`, which the caller owns.
pub trait AnimationState {
    /// The sprites that this kind of state animates.
    type Sprite: AnimationSprite;

    /// The progress of one playback through a state of this kind.
    type Data;

    /// The data of a playback that has just entered this state.
    spec fn fresh(&self) -> Self::Data;

    /// Whether the results of an update from `data` fit the integers that
    /// hold them. `frame` is the index that the sprite shows beforehand.
    spec fn fits(&self, data: Self::Data, args: UpdateArgs, frame: usize) -> bool;

    /// The data after an update from `data`.
    spec fn advanced(&self, data: Self::Data, args: UpdateArgs, frame: usize) -> Self::Data;

    /// The index that the sprite shows after an update from `data`.
    spec fn shown(&self, data: Self::Data, args: UpdateArgs, frame: usize) -> usize;

    /// The state that takes over from this one at `data`, if any.
    spec fn successor(&self, data: Self::Data, frame: usize) -> Option<Seq<char>>;

    /// Called when a playback enters this state.
    fn start(&self) -> (data: Self::Data)
        ensures
            data == self.fresh(),
    ;

    /// Advances `data` by the time in `args` and shows the resulting frame.
    fn update(&self, data: &mut Self::Data, args: UpdateArgs, sprite: &mut Self::Sprite)
        requires
            self.fits(*old(data), args, old(sprite).frame()),
        ensures
            *final(data) == self.advanced(*old(data), args, old(sprite).frame()),
            final(sprite).frame() == self.shown(*old(data), args, old(sprite).frame()),
    ;

    /// `None` while the playback stays in this state, `Some(id)` once it has
    /// met the exit condition and must move to `id`.
    fn next_state(&self, data: &Self::Data, sprite: &Self::Sprite) -> (next: Option<StateID>)
        ensures
            id_text(next) == self.successor(*data, sprite.frame()),
    ;
}

} // verus!
