//! Audio: the Intel HDA controller and the PC speaker.

pub mod hda;
pub mod pcspeaker;
