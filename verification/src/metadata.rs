//! What a replay records about the match besides the inputs.

use vstd::prelude::*;

verus! {

/// The patch applied to a game.
#[derive(Clone)]
pub struct Patch {
    pub name: String,
    pub version: String,
}

/// The game that one side played.
#[derive(Clone)]
pub struct GameInfo {
    pub rom_family: String,
    pub rom_variant: u32,
    pub patch: Option<Patch>,
}

/// One side of the match.
#[derive(Clone)]
pub struct Side {
    pub nickname: String,
    pub game_info: Option<GameInfo>,
    pub reveal_setup: bool,
}

/// The match a replay was recorded from.
#[derive(Clone)]
pub struct Metadata {
    pub ts: u64,
    pub link_code: String,
    pub local_side: Option<Side>,
    pub remote_side: Option<Side>,
    pub round: u32,
    pub match_type: u32,
    pub match_subtype: u32,
}

impl Metadata {
    /// The same match seen from the other side.
    pub open spec fn spec_sides_swapped(self) -> Metadata {
        Metadata {
            ts: self.ts,
            link_code: self.link_code,
            local_side: self.remote_side,
            remote_side: self.local_side,
            round: self.round,
            match_type: self.match_type,
            match_subtype: self.match_subtype,
        }
    }

    /// Exchanges the local and the remote side.
    pub fn swap_sides(&mut self)
        ensures
            *final(self) == old(self).spec_sides_swapped(),
    {
        core::mem::swap(&mut self.local_side, &mut self.remote_side);
    }
}

} // verus!
