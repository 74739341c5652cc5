//! Which game actions the player's keys currently hold down.

use vstd::prelude::*;

verus! {

/// Which game actions are held down.
#[derive(Clone, Copy, Debug, PartialEq, Eq, Structural)]
pub struct InputState {
    pub forward: bool,
    pub back: bool,
    pub moveleft: bool,
    pub moveright: bool,
    pub moveup: bool,
    pub movedown: bool,
    pub left: bool,
    pub right: bool,
    pub lookup: bool,
    pub lookdown: bool,
    pub speed: bool,
    pub jump: bool,
    pub strafe: bool,
    pub attack: bool,
    pub use_: bool,
    pub klook: bool,
    pub mlook: bool,
    pub showscores: bool,
    pub showteamscores: bool,
}

impl InputState {
    /// No action held down.
    pub fn new() -> (r: InputState)
        ensures
            !r.forward && !r.back && !r.moveleft && !r.moveright && !r.moveup && !r.movedown,
            !r.left && !r.right && !r.lookup && !r.lookdown,
            !r.speed && !r.jump && !r.strafe && !r.attack && !r.use_,
            !r.klook && !r.mlook && !r.showscores && !r.showteamscores,
    {
        InputState {
            forward: false,
            back: false,
            moveleft: false,
            moveright: false,
            moveup: false,
            movedown: false,
            left: false,
            right: false,
            lookup: false,
            lookdown: false,
            speed: false,
            jump: false,
            strafe: false,
            attack: false,
            use_: false,
            klook: false,
            mlook: false,
            showscores: false,
            showteamscores: false,
        }
    }
}

} // verus!
