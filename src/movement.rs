use vstd::prelude::*;

verus! {

/// One of the six held inputs that steer the player.
#[derive(Clone, Copy, Debug, PartialEq, Eq, Structural)]
pub enum Action {
    Forward,
    Back,
    StrafeLeft,
    StrafeRight,
    Clockwise,
    AntiClockwise,
}

/// Which movement inputs are currently held. Each flag is set on press,
/// cleared on release, and otherwise persists between ticks.
#[derive(Clone, Copy, Debug, PartialEq, Eq, Structural)]
pub struct Moves {
    pub up: bool,
    pub down: bool,
    pub left: bool,
    pub right: bool,
    pub clock: bool,
    pub anti_clock: bool,
}

/// The net effect of the held inputs for one tick, as signed unit counts:
/// steps along the facing direction, steps along its perpendicular (to the
/// right), and rotation steps (clockwise positive).
#[derive(Clone, Copy, Debug, PartialEq, Eq, Structural)]
pub struct Intent {
    pub forward: i8,
    pub strafe: i8,
    pub turn: i8,
}

pub open spec fn flag(b: bool) -> int {
    if b {
        1
    } else {
        0
    }
}

/// Every held input contributes; opposite inputs cancel.
pub open spec fn intent_of(m: Moves) -> Intent {
    Intent {
        forward: (flag(m.up) - flag(m.down)) as i8,
        strafe: (flag(m.right) - flag(m.left)) as i8,
        turn: (flag(m.clock) - flag(m.anti_clock)) as i8,
    }
}

/// `m` with the flag of `a` set to `pressed`, the others kept.
pub open spec fn with_action(m: Moves, a: Action, pressed: bool) -> Moves {
    match a {
        Action::Forward => Moves { up: pressed, ..m },
        Action::Back => Moves { down: pressed, ..m },
        Action::StrafeLeft => Moves { left: pressed, ..m },
        Action::StrafeRight => Moves { right: pressed, ..m },
        Action::Clockwise => Moves { clock: pressed, ..m },
        Action::AntiClockwise => Moves { anti_clock: pressed, ..m },
    }
}

impl Moves {
    /// Nothing held.
    pub fn new() -> (r: Moves)
        ensures
            !r.up && !r.down && !r.left && !r.right && !r.clock && !r.anti_clock,
    {
        Moves { up: false, down: false, left: false, right: false, clock: false, anti_clock: false }
    }

    /// Records a press (`pressed == true`) or release of `action`.
    pub fn update_moves(&mut self, action: Action, pressed: bool)
        ensures
            *final(self) == with_action(*old(self), action, pressed),
    {
        match action {
            Action::Forward => self.up = pressed,
            Action::Back => self.down = pressed,
            Action::StrafeLeft => self.left = pressed,
            Action::StrafeRight => self.right = pressed,
            Action::Clockwise => self.clock = pressed,
            Action::AntiClockwise => self.anti_clock = pressed,
        }
    }

    /// The summed effect of all held inputs for one tick.
    pub fn intent(&self) -> (r: Intent)
        ensures
            r == intent_of(*self),
            -1 <= r.forward <= 1 && -1 <= r.strafe <= 1 && -1 <= r.turn <= 1,
    {
        Intent {
            forward: signed_step(self.up, self.down),
            strafe: signed_step(self.right, self.left),
            turn: signed_step(self.clock, self.anti_clock),
        }
    }
}

/// `+1` for `plus` alone, `-1` for `minus` alone, `0` for both or neither.
fn signed_step(plus: bool, minus: bool) -> (r: i8)
    ensures
        r == flag(plus) - flag(minus),
{
    let mut r: i8 = 0;
    if plus {
        r = r + 1;
    }
    if minus {
        r = r - 1;
    }
    r
}

/// Opposite inputs cancel: with both forward and back held there is no
/// translation along the facing direction, with both strafes held none across
/// it, and with both rotations held no rotation.
pub proof fn lemma_opposites_cancel(m: Moves)
    ensures
        m.up && m.down ==> intent_of(m).forward == 0,
        m.left && m.right ==> intent_of(m).strafe == 0,
        m.up && m.down && m.left && m.right ==> intent_of(m).forward == 0 && intent_of(m).strafe
            == 0,
        m.clock && m.anti_clock ==> intent_of(m).turn == 0,
{
}

} // verus!
