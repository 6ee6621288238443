//! The tray menu: its handles live with the window system, outside the library.
use vstd::prelude::*;

verus! {

/// The handles of the tray menu's items.
pub struct TrayHandles;

} // verus!
