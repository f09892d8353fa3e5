//! A toggleable overlay window for a tiling window manager.
//!
//! A [`Scratchpad`] manages the window of one program that it has the host
//! start on demand, and shows it above the layout, anchored to a part of the
//! screen. The host tells the overlay what happens (a key press, a window that
//! was created or removed, a layout that was applied); the overlay answers with
//! the [`Command`]s that the host is to carry out.

pub mod binary32;
pub mod controller;
pub mod error;
pub mod geometry;

pub use binary32::Binary32;
pub use controller::{Command, Scratchpad, State, WinId};
pub use error::Error;
pub use geometry::AnchorPosition::{Bottom, Center, Left, Right, Top};
pub use geometry::{Anchor, AnchorPosition, Region};
