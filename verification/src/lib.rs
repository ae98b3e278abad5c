//! Interactive stories made of slides, played back one timed phase after the
//! other.
//!
//! A story is a graph of slides: each has a text, a background, and actions
//! that lead on to other slides. The heart of this crate is the player that
//! walks a reader through it: the background of a slide fades in, then its
//! text, then its choices; the player waits for a choice, fades everything
//! out, and moves to the slide that the choice leads to. All the while the
//! story may be edited under it.
//!
//! - [`fraction`]: exact fractions of the unit interval, in which everything
//!   that fades is measured.
//! - [`clock`]: the cycle of phases and its countdowns.
//! - [`reveal_model`]: how much of what is on show in each phase.
//! - [`input`]: which choice the pointer is over.
//! - [`model`]: slides, actions, and the notifications that change them.
//! - [`images`]: backgrounds, drawn as text.
//! - [`player`]: the play session itself.
//! - [`editors`]: what the editing dialogs decide.
//! - [`sorting`]: the order in which resources are written out.
//! - [`session_laws`], [`content_laws`]: what holds of sessions and of
//!   content whatever happens.
//!
//! Time is counted in whole microseconds and positions in whole layout units:
//! the crate holds no floating point.

pub mod clock;
pub mod content_laws;
pub mod editors;
pub mod fraction;
pub mod images;
pub mod input;
pub mod model;
pub mod player;
pub mod reveal_model;
pub mod session_laws;
pub mod sorting;
