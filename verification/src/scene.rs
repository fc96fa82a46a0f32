//! What belongs to the scene as a whole: leaving the game.

use crate::effects::{emit, views, Effect, EffectView};
use crate::input::Input;
use vstd::prelude::*;

verus! {

/// What the Escape key queues: the request to leave if it went down this
/// frame, else nothing.
pub open spec fn exit_effects(input: Input) -> Seq<EffectView> {
    if input.escape_just_pressed {
        seq![EffectView::Exit]
    } else {
        seq![]
    }
}

/// Queues the request to leave if Escape went down this frame.
pub fn exit_game(input: &Input, effects: &mut Vec<Effect>)
    ensures
        views(final(effects)@) == views(old(effects)@) + exit_effects(*input),
{
    if input.escape_just_pressed {
        emit(effects, Effect::Exit);
    }
}

} // verus!
