//! Verified control-surface library for rack guitar processors: the Eleven Rack
//! parameter catalog, its patch and backup models, the Digidesign `SysEx` codec,
//! and the device-neutral on-disk library conventions.

pub mod backup;
pub mod bank;
pub mod cli;
pub mod device;
pub mod eleven_gui;
pub mod error;
pub mod gx700;
pub mod gx700_gui;
pub mod library;
pub mod listing;
pub mod manage;
pub mod param;
pub mod port;
pub mod search;
pub mod sysex;
pub mod text;
pub mod tfx;
pub mod value;
pub mod wire;

use vstd::prelude::*;

verus! {

} // verus!
