//! What the compositor tells of.

use vstd::prelude::*;

use crate::niri::{IpcLayout, IpcWindow};

verus! {

/// Something that happened.
#[allow(inconsistent_fields)]
#[derive(Debug, Clone)]
pub enum PiriEvent {
    WindowOpened { window: IpcWindow },
    WindowChanged { window: IpcWindow },
    WindowToggleFloating { window: IpcWindow },
    WindowClosed { id: u64 },
    WindowsChanged { windows: Vec<IpcWindow> },
    WindowLayoutsChanged { changes: Vec<(u64, IpcLayout)> },
    WindowFocusChanged { id: Option<u64> },
    WorkspaceActivated { id: u64, focused: bool },
    /// Anything else.
    Other,
}

} // verus!
