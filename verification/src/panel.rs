//! The context every editor panel receives each frame.

use vstd::prelude::*;

verus! {

/// Context passed to every panel on each frame.
///
/// The master editor builds it from the loaded workspace manifest.
#[derive(Debug)]
pub struct PanelContext {
    /// Human-readable project name, or `None` when no project is open.
    pub project_name: Option<String>,
    /// Path to the Nova-Forge repository root, or `None`.
    pub nova_forge_path: Option<String>,
    /// Path to the asset root directory, or `None`.
    pub asset_root: Option<String>,
    /// File picked in the workspace browser (or the asset editor), which
    /// the Game File Editor opens.
    pub selected_file: Option<String>,
}

impl Default for PanelContext {
    fn default() -> (c: Self)
        ensures
            c.project_name is None,
            c.nova_forge_path is None,
            c.asset_root is None,
            c.selected_file is None,
    {
        PanelContext { project_name: None, nova_forge_path: None, asset_root: None, selected_file: None }
    }
}

} // verus!
