//! Project manifest model and asset scanning for a NovaForge workspace.

use vstd::prelude::*;

use crate::paths::{join, path_join};
use crate::text::{str_eq, to_lowercase, lowercase};

verus! {

/// Kind of a discovered asset file.
#[derive(Debug, Clone, Copy, PartialEq, Eq, Structural)]
pub enum AssetKind {
    Texture,
    Model,
    Sound,
    Scene,
    Other,
}

/// The asset kind of an already-lowercased file extension.
pub open spec fn extension_kind(e: Seq<char>) -> AssetKind {
    if e == "png"@ || e == "jpg"@ || e == "jpeg"@ || e == "webp"@ || e == "tga"@ || e == "bmp"@ {
        AssetKind::Texture
    } else if e == "vox"@ || e == "obj"@ || e == "gltf"@ || e == "glb"@ || e == "fbx"@ || e
        == "mesh"@ {
        AssetKind::Model
    } else if e == "ogg"@ || e == "wav"@ || e == "mp3"@ || e == "flac"@ {
        AssetKind::Sound
    } else if e == "ron"@ || e == "scene"@ {
        AssetKind::Scene
    } else {
        AssetKind::Other
    }
}

/// The icon glyph shown for an asset kind.
pub open spec fn kind_icon(kind: AssetKind) -> Seq<char> {
    match kind {
        AssetKind::Texture => "🖼"@,
        AssetKind::Model => "📦"@,
        AssetKind::Sound => "🔊"@,
        AssetKind::Scene => "🌐"@,
        AssetKind::Other => "📄"@,
    }
}

/// The name of an asset kind.
pub open spec fn kind_name(kind: AssetKind) -> Seq<char> {
    match kind {
        AssetKind::Texture => "Texture"@,
        AssetKind::Model => "Model"@,
        AssetKind::Sound => "Sound"@,
        AssetKind::Scene => "Scene"@,
        AssetKind::Other => "Other"@,
    }
}

impl AssetKind {
    /// Infer the kind from a file extension; letter case is ignored.
    pub fn from_extension(ext: &str) -> (kind: AssetKind)
        ensures
            kind == extension_kind(lowercase(ext@)),
    {
        let lower = to_lowercase(ext);
        AssetKind::from_lowercase_extension(lower.as_str())
    }

    /// The kind of an extension that is already in lowercase.
    pub fn from_lowercase_extension(ext: &str) -> (kind: AssetKind)
        ensures
            kind == extension_kind(ext@),
    {
        if str_eq(ext, "png") || str_eq(ext, "jpg") || str_eq(ext, "jpeg") || str_eq(ext, "webp")
            || str_eq(ext, "tga") || str_eq(ext, "bmp") {
            AssetKind::Texture
        } else if str_eq(ext, "vox") || str_eq(ext, "obj") || str_eq(ext, "gltf") || str_eq(
            ext,
            "glb",
        ) || str_eq(ext, "fbx") || str_eq(ext, "mesh") {
            AssetKind::Model
        } else if str_eq(ext, "ogg") || str_eq(ext, "wav") || str_eq(ext, "mp3") || str_eq(
            ext,
            "flac",
        ) {
            AssetKind::Sound
        } else if str_eq(ext, "ron") || str_eq(ext, "scene") {
            AssetKind::Scene
        } else {
            AssetKind::Other
        }
    }

    /// The kind's name, as `{:?}` prints it.
    pub fn name(self) -> (name: &'static str)
        ensures
            name@ == kind_name(self),
    {
        match self {
            AssetKind::Texture => "Texture",
            AssetKind::Model => "Model",
            AssetKind::Sound => "Sound",
            AssetKind::Scene => "Scene",
            AssetKind::Other => "Other",
        }
    }

    /// Icon glyph for display in UI.
    pub fn icon(self) -> (icon: &'static str)
        ensures
            icon@ == kind_icon(self),
    {
        match self {
            AssetKind::Texture => "🖼",
            AssetKind::Model => "📦",
            AssetKind::Sound => "🔊",
            AssetKind::Scene => "🌐",
            AssetKind::Other => "📄",
        }
    }
}

/// A discovered asset file under the asset root.
#[derive(Debug, Clone)]
pub struct AssetEntry {
    /// Display path relative to the asset root.
    pub relative_path: String,
    /// Inferred asset kind.
    pub kind: AssetKind,
}

impl View for AssetEntry {
    type V = (Seq<char>, AssetKind);

    open spec fn view(&self) -> (Seq<char>, AssetKind) {
        (self.relative_path@, self.kind)
    }
}

impl AssetEntry {
    /// Icon glyph of the entry's kind.
    pub fn icon(&self) -> (icon: &'static str)
        ensures
            icon@ == kind_icon(self.kind),
    {
        self.kind.icon()
    }
}

/// File name written at the root of a NovaForge project directory.
pub const MANIFEST_FILE: &'static str = "novaforge.workspace.toml";

/// Name of the Nova-Forge client binary.
pub const CLIENT_BINARY: &'static str = "nova-forge-voxygen";

/// Name of the Nova-Forge build script.
pub const BUILD_SCRIPT: &'static str = "nova-forge.sh";

/// Contents of `novaforge.workspace.toml`.
#[derive(Debug, Clone)]
pub struct WorkspaceManifest {
    /// Human-readable project name shown in the launcher and editor title bar.
    pub project_name: String,
    /// Absolute or relative path to the Nova-Forge repository root.
    pub nova_forge_path: String,
    /// Absolute or relative path to the asset root directory.
    pub asset_root: String,
    /// Last active scene file, relative to `asset_root`.
    pub active_scene: Option<String>,
    /// Recently opened scene files (most recent first).
    pub recent_scenes: Vec<String>,
}

/// The Nova-Forge repository root used when a manifest names none.
pub fn default_nova_forge_path() -> (p: String)
    ensures
        p@ == "../Nova-Forge"@,
{
    crate::text::owned("../Nova-Forge")
}

/// The asset root used when a manifest names none.
pub fn default_asset_root() -> (p: String)
    ensures
        p@ == "../Nova-Forge/assets"@,
{
    crate::text::owned("../Nova-Forge/assets")
}

impl Default for WorkspaceManifest {
    fn default() -> (m: Self)
        ensures
            m.project_name@ == "My NovaForge Project"@,
            m.nova_forge_path@ == "../Nova-Forge"@,
            m.asset_root@ == "../Nova-Forge/assets"@,
            m.active_scene.is_none(),
            m.recent_scenes@.len() == 0,
    {
        WorkspaceManifest {
            project_name: crate::text::owned("My NovaForge Project"),
            nova_forge_path: default_nova_forge_path(),
            asset_root: default_asset_root(),
            active_scene: None,
            recent_scenes: Vec::new(),
        }
    }
}

impl WorkspaceManifest {
    /// The file a manifest is read from when the user names `path`: the
    /// manifest file inside `path` when it is a directory, else `path` itself.
    pub fn manifest_file_path(path: &str, is_dir: bool) -> (p: String)
        ensures
            p@ == if is_dir { path_join(path@, MANIFEST_FILE@) } else { path@ },
    {
        if is_dir {
            join(path, MANIFEST_FILE)
        } else {
            crate::text::owned(path)
        }
    }

    /// Resolve the path to the Nova-Forge client binary.
    pub fn nova_forge_binary(&self) -> (p: String)
        ensures
            p@ == path_join(path_join(self.nova_forge_path@, "target/release"@), CLIENT_BINARY@),
    {
        let release = join(self.nova_forge_path.as_str(), "target/release");
        join(release.as_str(), CLIENT_BINARY)
    }

    /// Resolve the path to the `nova-forge.sh` build script.
    pub fn build_script(&self) -> (p: String)
        ensures
            p@ == path_join(self.nova_forge_path@, BUILD_SCRIPT@),
    {
        join(self.nova_forge_path.as_str(), BUILD_SCRIPT)
    }
}

} // verus!
