//! What a shortcut asks for, and whether anyone acted on it.

use vstd::prelude::*;

verus! {

#[derive(Debug, Clone, Copy, PartialEq, Eq, Structural, Hash)]
pub enum KeyboardAction {
    CancelOrClose,
    NavigateBack,
    BrowseUp,
    BrowseDown,
    BrowseLeft,
    BrowseRight,
    ActivateFocused,
    ToggleSelection,
    SelectAll,
    Search,
    OpenSettings,
    Delete,
    Restore,
    ViewerPrevious,
    ViewerNext,
    ViewerZoomIn,
    ViewerZoomOut,
    ViewerZoomReset,
    ViewerRotateLeft,
    ViewerRotateRight,
    ViewerFullscreenPreview,
    ViewerToggleDetails,
    ViewerToggleEdit,
    ViewerToggleFavorite,
    ViewerTogglePlayback,
}

#[derive(Debug, Clone, Copy, PartialEq, Eq, Structural)]
pub enum KeyboardResult {
    Handled,
    Ignored,
}

impl KeyboardResult {
    /// Did someone act on the shortcut?
    pub fn is_handled(self) -> (handled: bool)
        ensures
            handled == (self == KeyboardResult::Handled),
    {
        match self {
            KeyboardResult::Handled => true,
            KeyboardResult::Ignored => false,
        }
    }
}

} // verus!
