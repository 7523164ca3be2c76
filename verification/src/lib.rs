//! Replay files of a link-battle recorder and the patch-card views of a save editor.

pub mod le;
pub mod lockstep;
pub mod metadata;
pub mod format;
pub mod payload;
pub mod compress;
pub mod replay;
pub mod text;
pub mod patch_cards;

