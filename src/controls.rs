use vstd::prelude::*;

use crate::world::EntityId;

verus! {

/// What horizontal movement does in a frame.
#[derive(Clone, Copy, Debug, PartialEq, Eq, Structural)]
pub enum MoveStep {
    /// Speed up towards the left, up to the top speed.
    AccelerateLeft,
    /// Speed up towards the right, up to the top speed.
    AccelerateRight,
    /// No key is held any longer: remember the speed and start to slow down.
    StartStopping,
    /// Keep slowing down from the remembered speed.
    SlowDown,
}

/// The movement of a frame, and whether the player is stopping afterwards.
#[derive(Clone, Copy, Debug, PartialEq, Eq, Structural)]
pub struct Movement {
    pub step: MoveStep,
    pub stopping: bool,
}

/// The movement of a frame from the keys held and whether the player was
/// already stopping: the left key wins over the right one, and with neither
/// held the player starts to stop, then slows down.
pub fn move_step(left_held: bool, right_held: bool, stopping: bool) -> (r: Movement)
    ensures
        r.step == (if left_held {
            MoveStep::AccelerateLeft
        } else if right_held {
            MoveStep::AccelerateRight
        } else if stopping {
            MoveStep::SlowDown
        } else {
            MoveStep::StartStopping
        }),
        r.stopping == (!left_held && !right_held),
{
    if left_held {
        Movement { step: MoveStep::AccelerateLeft, stopping: false }
    } else if right_held {
        Movement { step: MoveStep::AccelerateRight, stopping: false }
    } else if stopping {
        Movement { step: MoveStep::SlowDown, stopping: true }
    } else {
        Movement { step: MoveStep::StartStopping, stopping: true }
    }
}

/// Whether a frame's jump key starts a jump, and the footing after it.
#[derive(Clone, Copy, Debug, PartialEq, Eq, Structural)]
pub struct JumpStep {
    pub jumped: bool,
    pub grounded: bool,
}

/// A jump starts when the key was just pressed and the player stands on
/// ground; it leaves the ground.
pub fn jump_step(pressed: bool, grounded: bool) -> (r: JumpStep)
    ensures
        r.jumped == (pressed && grounded),
        r.grounded == (grounded && !pressed),
{
    if pressed && grounded {
        JumpStep { jumped: true, grounded: false }
    } else {
        JumpStep { jumped: false, grounded }
    }
}

/// Which way a slider and the setting it controls are brought in line.
#[derive(Clone, Copy, Debug, PartialEq, Eq, Structural)]
pub enum SliderSync {
    /// The slider was just made: it takes the setting's value.
    Load,
    /// The slider moved: the setting takes its value.
    Save,
}

/// A new slider loads its setting; one that moved saves it.
pub fn slider_sync(just_created: bool) -> (r: SliderSync)
    ensures
        r == (if just_created {
            SliderSync::Load
        } else {
            SliderSync::Save
        }),
{
    if just_created {
        SliderSync::Load
    } else {
        SliderSync::Save
    }
}

/// The player's parts that are left behind once its body is gone: none while
/// the player lives, else the eyes and the legs that remain, in that order.
pub fn player_death(alive: bool, eyes: Option<EntityId>, legs: Option<EntityId>) -> (r: Vec<
    EntityId,
>)
    ensures
        alive ==> r@.len() == 0,
        !alive ==> r@ == (match eyes {
            Some(e) => seq![e],
            None => Seq::empty(),
        }) + (match legs {
            Some(l) => seq![l],
            None => Seq::empty(),
        }),
{
    let mut out: Vec<EntityId> = Vec::new();
    if alive {
        return out;
    }
    if let Some(e) = eyes {
        out.push(e);
    }
    if let Some(l) = legs {
        out.push(l);
    }
    assert(out@ =~= (match eyes {
        Some(e) => seq![e],
        None => Seq::<EntityId>::empty(),
    }) + (match legs {
        Some(l) => seq![l],
        None => Seq::<EntityId>::empty(),
    }));
    out
}

} // verus!
