//! Verified core of the NovaForge workspace: the project model, build
//! commands, asset scanning, and the state logic of the launcher, the master
//! editor and its panels. Reading and writing files, starting processes and
//! drawing are left to the host application, which hands the results to
//! these functions.

use vstd::prelude::*;

// Strings, paths, orders and numbers.
pub mod text;
pub mod paths;
pub mod ordering;
pub mod calendar;
pub mod file_size;
pub mod status;
pub mod selection;

// The project and its files.
pub mod project;
pub mod scan;
pub mod build_runner;

// The launcher and the master editor.
pub mod launcher;
pub mod editor_app;
pub mod panel;

// The panels.
pub mod browser;
pub mod asset_editor;
pub mod gamefile;
pub mod data_editor;
pub mod build_panel;
pub mod ai;
pub mod graph;
pub mod canvas;
pub mod scene;
pub mod timeline;

verus! {

} // verus!
