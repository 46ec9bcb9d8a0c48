//! Module for text and voice channel functionality.
//!
//! The channel types (voice and text) get their own submodules that
//! encapsulate their functionality.

use vstd::prelude::*;

pub mod text;
pub mod voice;

verus! {

/// Indicates the type of a channel.
pub enum ChannelType {
    Text,
    Voice,
}

} // verus!
