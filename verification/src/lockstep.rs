//! Inputs exchanged between the two players of a link battle.

use vstd::prelude::*;

verus! {

/// One player's input for one tick.
#[derive(Clone)]
pub struct Input {
    pub local_tick: u32,
    pub remote_tick: u32,
    pub joyflags: u16,
    pub packet: Vec<u8>,
}

/// The mathematical value of an [`Input`].
pub struct InputView {
    pub local_tick: u32,
    pub remote_tick: u32,
    pub joyflags: u16,
    pub packet: Seq<u8>,
}

impl View for Input {
    type V = InputView;

    open spec fn view(&self) -> InputView {
        InputView {
            local_tick: self.local_tick,
            remote_tick: self.remote_tick,
            joyflags: self.joyflags,
            packet: self.packet@,
        }
    }
}

/// The local and the remote side of one tick.
#[derive(Clone)]
pub struct Pair<L, R> {
    pub local: L,
    pub remote: R,
}

impl<L: View, R: View> View for Pair<L, R> {
    type V = Pair<L::V, R::V>;

    open spec fn view(&self) -> Pair<L::V, R::V> {
        Pair { local: self.local@, remote: self.remote@ }
    }
}

impl<T> Pair<T, T> {
    /// Exchanges the two sides.
    pub fn swap_sides(&mut self)
        ensures
            final(self).local == old(self).remote,
            final(self).remote == old(self).local,
    {
        core::mem::swap(&mut self.local, &mut self.remote);
    }
}

/// The views of a sequence of input pairs.
pub open spec fn pairs_view(v: Seq<Pair<Input, Input>>) -> Seq<Pair<InputView, InputView>> {
    v.map_values(|p: Pair<Input, Input>| p@)
}

} // verus!
