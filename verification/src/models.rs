//! Plain data shared by the instance-export helpers.
use vstd::prelude::*;

verus! {

/// How a file is offered in the export file tree.
#[derive(Debug, Clone, Copy, PartialEq, Eq, Structural)]
pub enum FileCategory {
    /// Shown and selected by default.
    Suggested,
    /// Shown but not selected by default.
    Normal,
}

/// One entry of the export file tree.
#[derive(Debug, Clone)]
pub struct ExportFileEntry {
    pub relative_path: String,
    pub is_directory: bool,
    pub category: FileCategory,
    pub file_size: u64,
}

/// Mod loader families known to the launcher.
#[derive(Debug, Clone, Copy, PartialEq, Eq, Structural)]
pub enum ModLoaderType {
    Unknown,
    Fabric,
    Forge,
    LegacyForge,
    NeoForge,
    Quilt,
}

/// Two loader types name the same mod loader: Forge and LegacyForge are
/// one loader (its old and new versions), every other type is its own.
pub open spec fn same_loader(a: ModLoaderType, b: ModLoaderType) -> bool {
    a == b || ((a == ModLoaderType::Forge || a == ModLoaderType::LegacyForge) && (b
        == ModLoaderType::Forge || b == ModLoaderType::LegacyForge))
}

/// A mod loader with its version.
#[derive(Debug, Clone)]
pub struct ModLoader {
    pub loader_type: ModLoaderType,
    pub version: String,
}

/// Metadata the user enters when exporting a modpack.
#[derive(Debug, Clone)]
pub struct ExportModpackMeta {
    pub name: String,
    pub version: String,
    pub author: String,
    pub description: Option<String>,
    pub min_memory: Option<u32>,
    pub no_create_remote_files: Option<bool>,
    pub skip_curseforge_remote_files: Option<bool>,
}

/// Errors of instance import and export.
#[derive(Debug, Clone, Copy, PartialEq, Eq, Structural)]
pub enum InstanceError {
    FileCreationFailed,
    FileNotFoundError,
    FolderCreationFailed,
    ModpackManifestParseError,
    ZipFileProcessFailed,
    ConflictNameError,
}

} // verus!
