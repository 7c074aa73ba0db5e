/// A state that steps through a range of frame indices as time passes.
pub mod index;
