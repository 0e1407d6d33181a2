//! Helpers shared by all modpack exporters: the default selection of the
//! export file tree, the remote-matching filter and the file hashes.
use vstd::prelude::*;
use crate::models::{ExportFileEntry, FileCategory};
use crate::text::{
    after_last, after_last_exec, before_first, before_first_exec, chars_eq, chars_of, ends_with,
    ends_with_lit, replace_char, replace_char_exec, starts_with, starts_with_lit, string_of,
    sub_chars,
};

verus! {

/// Progress stages reported while exporting.
#[derive(Debug, Clone, Copy, PartialEq, Eq, Structural)]
pub enum ExportStage {
    Matching,
    Packing,
    Copying,
    WritingManifest,
    Done,
}

/// Payload of the export progress event.
#[derive(Debug, Clone)]
pub struct ExportProgressPayload {
    pub current: usize,
    pub total: usize,
    pub file_name: String,
    pub stage: ExportStage,
}

/// Whether `s` is one of `names`.
pub open spec fn in_names(s: Seq<char>, names: Seq<&'static str>) -> bool {
    exists|i: int| 0 <= i < names.len() && names[i]@ == s
}

/// Top-level directories that are shown but not selected by default.
pub open spec fn normal_dir_names() -> Seq<&'static str> {
    seq![
        "blueprints",
        "fonts",
        "journeymap",
        "local",
        "logs",
        "versions",
        "assets",
        "libraries",
        "natives",
        "crash-reports",
        "screenshots",
        "saves",
        "xaero",
        "backup",
        "backups",
        "cache",
        "caches",
        "downloads",
        "launcher",
        "runtime",
        "runtimes",
        "server-resource-packs",
        ".fabric",
        ".mixin.out",
        "asm",
        "debug",
        "native_libs",
    ]
}

/// File names that are shown but not selected by default.
pub open spec fn normal_file_names() -> Seq<&'static str> {
    seq![
        "servers.dat",
        "options.txt",
        "optionsshaders.txt",
        "optionsof.txt",
        "servers.dat_old",
        "instance.cfg",
        ".DS_Store",
        "desktop.ini",
        "Thumbs.db",
        "hmclversion.cfg",
        "PCL.ini",
    ]
}

/// Stems of the `.json` files that are shown but not selected by default
/// (launcher and pack metadata).
pub open spec fn normal_json_stems() -> Seq<&'static str> {
    seq![
        "realms_persistence",
        "usernamecache",
        "usercache",
        "launcher_profiles",
        "manifest",
        "modrinth.index",
        "instance",
        "mmc-pack",
    ]
}

/// Whether a file name is `<stem>.json` for one of the metadata stems.
pub open spec fn is_normal_json(file_name: Seq<char>) -> bool {
    ends_with(file_name, ".json"@) && in_names(
        file_name.subrange(0, file_name.len() - 5),
        normal_json_stems(),
    )
}

/// Extensions of files that are shown but not selected by default.
pub open spec fn normal_ext_names() -> Seq<&'static str> {
    seq!["log", "old", "dat_old", "bak"]
}

/// Whether an entry is shown but not selected by default, given its path
/// relative to the instance root and its file name.
pub open spec fn spec_is_normal_unselected(rel: Seq<char>, file_name: Seq<char>, is_dir: bool) -> bool {
    ||| in_names(before_first(rel, '/'), normal_dir_names())
    ||| starts_with(rel, "mods/VoxelMods"@)
    ||| starts_with(rel, "mods\\VoxelMods"@)
    ||| (!is_dir && in_names(file_name, normal_file_names()))
    ||| (!is_dir && is_normal_json(file_name))
    ||| (!is_dir && starts_with(file_name, "._"@))
    ||| (!is_dir && in_names(after_last(rel, '.'), normal_ext_names()))
    ||| (is_dir && (ends_with(file_name, "-natives"@) || ends_with(file_name, "_natives"@)))
}

/// Category of an instance entry: the path's `\` are read as `/`, and the
/// file name is the text after the last `/`.
pub open spec fn spec_categorize(rel: Seq<char>, is_dir: bool) -> FileCategory {
    let r = replace_char(rel, '\\', '/');
    if spec_is_normal_unselected(r, after_last(r, '/'), is_dir) {
        FileCategory::Normal
    } else {
        FileCategory::Suggested
    }
}

/// Whether an instance path is looked up on remote platforms.
pub open spec fn spec_is_remotely_matchable(rel: Seq<char>) -> bool {
    let r = replace_char(rel, '\\', '/');
    starts_with(r, "mods/"@) || starts_with(r, "resourcepacks/"@) || starts_with(r, "shaderpacks/"@)
}

/// Whether `s` is one of `names`.
pub fn in_names_exec(s: &[char], names: &[&'static str]) -> (r: bool)
    ensures
        r == in_names(s@, names@),
{
    let mut i: usize = 0;
    while i < names.len()
        invariant
            i <= names@.len(),
            forall|j: int| 0 <= j < i ==> names@[j]@ != s@,
        decreases names@.len() - i,
    {
        let n = chars_of(names[i]);
        if chars_eq(s, n.as_slice()) {
            return true;
        }
        i = i + 1;
    }
    false
}

/// Returns true if the file should be shown but not selected by default.
fn is_normal_unselected(rel_path: &[char], file_name: &[char], is_dir: bool) -> (r: bool)
    ensures
        r == spec_is_normal_unselected(rel_path@, file_name@, is_dir),
{
    let normal_dirs: [&'static str; 27] = [
        "blueprints",
        "fonts",
        "journeymap",
        "local",
        "logs",
        "versions",
        "assets",
        "libraries",
        "natives",
        "crash-reports",
        "screenshots",
        "saves",
        "xaero",
        "backup",
        "backups",
        "cache",
        "caches",
        "downloads",
        "launcher",
        "runtime",
        "runtimes",
        "server-resource-packs",
        ".fabric",
        ".mixin.out",
        "asm",
        "debug",
        "native_libs",
    ];
    let normal_files: [&'static str; 11] = [
        "servers.dat",
        "options.txt",
        "optionsshaders.txt",
        "optionsof.txt",
        "servers.dat_old",
        "instance.cfg",
        ".DS_Store",
        "desktop.ini",
        "Thumbs.db",
        "hmclversion.cfg",
        "PCL.ini",
    ];
    let json_stems: [&'static str; 8] = [
        "realms_persistence",
        "usernamecache",
        "usercache",
        "launcher_profiles",
        "manifest",
        "modrinth.index",
        "instance",
        "mmc-pack",
    ];
    let normal_exts: [&'static str; 4] = ["log", "old", "dat_old", "bak"];
    assert(normal_dirs@ =~= normal_dir_names());
    assert(normal_files@ =~= normal_file_names());
    assert(json_stems@ =~= normal_json_stems());
    assert(normal_exts@ =~= normal_ext_names());

    let top_level = before_first_exec(rel_path, '/');
    if in_names_exec(top_level.as_slice(), normal_dirs.as_slice()) {
        return true;
    }
    if starts_with_lit(rel_path, "mods/VoxelMods") || starts_with_lit(rel_path, "mods\\VoxelMods") {
        return true;
    }
    if !is_dir && in_names_exec(file_name, normal_files.as_slice()) {
        return true;
    }
    if !is_dir && ends_with_lit(file_name, ".json") {
        proof {
            reveal_strlit(".json");
        }
        let stem = sub_chars(file_name, 0, file_name.len() - 5);
        if in_names_exec(stem.as_slice(), json_stems.as_slice()) {
            return true;
        }
    }
    if !is_dir && starts_with_lit(file_name, "._") {
        return true;
    }
    if !is_dir {
        let ext = after_last_exec(rel_path, '.');
        if in_names_exec(ext.as_slice(), normal_exts.as_slice()) {
            return true;
        }
    }
    if is_dir && (ends_with_lit(file_name, "-natives") || ends_with_lit(file_name, "_natives")) {
        return true;
    }
    false
}

/// Determine the FileCategory for a path relative to the instance root.
pub fn categorize(rel_path: &str, is_dir: bool) -> (c: FileCategory)
    ensures
        c == spec_categorize(rel_path@, is_dir),
{
    let raw = chars_of(rel_path);
    let rel = replace_char_exec(raw.as_slice(), '\\', '/');
    let file_name = after_last_exec(rel.as_slice(), '/');
    if is_normal_unselected(rel.as_slice(), file_name.as_slice(), is_dir) {
        return FileCategory::Normal;
    }
    FileCategory::Suggested
}

/// The export tree entry for a path found under the instance root: the
/// path's `\` become `/`, directories get size `0`.
pub fn export_entry(rel_path: &str, is_dir: bool, size: u64) -> (e: ExportFileEntry)
    ensures
        e.relative_path@ == replace_char(rel_path@, '\\', '/'),
        e.is_directory == is_dir,
        e.category == spec_categorize(rel_path@, is_dir),
        e.file_size == if is_dir { 0 } else { size },
{
    let raw = chars_of(rel_path);
    let rel = replace_char_exec(raw.as_slice(), '\\', '/');
    let category = categorize(rel_path, is_dir);
    ExportFileEntry {
        relative_path: string_of(rel.as_slice()),
        is_directory: is_dir,
        category,
        file_size: if is_dir { 0 } else { size },
    }
}

/// The file name of a `/`-separated relative path (the text after the last `/`).
pub fn file_name_of(rel_path: &str) -> (r: String)
    ensures
        r@ == after_last(rel_path@, '/'),
{
    let rel = chars_of(rel_path);
    let name = after_last_exec(rel.as_slice(), '/');
    string_of(name.as_slice())
}

/// Paths inside an instance that should be attempted for remote matching.
pub fn is_remotely_matchable(rel_path: &str) -> (r: bool)
    ensures
        r == spec_is_remotely_matchable(rel_path@),
{
    let raw = chars_of(rel_path);
    let rel = replace_char_exec(raw.as_slice(), '\\', '/');
    starts_with_lit(rel.as_slice(), "mods/") || starts_with_lit(rel.as_slice(), "resourcepacks/")
        || starts_with_lit(rel.as_slice(), "shaderpacks/")
}

/// Whether a selected file is looked up on the remote platforms: remote
/// files are wanted (`no_create_remote_files` is not set) and the file lies
/// in a remotely matchable directory.
pub fn should_match_remotely(no_create_remote_files: Option<bool>, rel_path: &str) -> (r: bool)
    ensures
        r == (no_create_remote_files != Some(true) && spec_is_remotely_matchable(rel_path@)),
{
    let no_create = match no_create_remote_files {
        Some(b) => b,
        None => false,
    };
    !no_create && is_remotely_matchable(rel_path)
}

/// Whether a directory entry is listed in the export tree: hidden entries
/// (whose name starts with `.`) are not.
pub fn is_listed_entry(file_name: &str) -> (r: bool)
    ensures
        r == !starts_with(file_name@, "."@),
{
    !starts_with_lit(chars_of(file_name).as_slice(), ".")
}

/// Categorisation and remote matching read `\\` and `/` alike: a path and
/// the same path with `/` separators get the same answers.
pub proof fn law_separators_alike(rel: Seq<char>, is_dir: bool)
    ensures
        spec_categorize(rel, is_dir) == spec_categorize(replace_char(rel, '\\', '/'), is_dir),
        spec_is_remotely_matchable(rel) == spec_is_remotely_matchable(
            replace_char(rel, '\\', '/'),
        ),
{
    let r = replace_char(rel, '\\', '/');
    assert(replace_char(r, '\\', '/') =~= r);
}

} // verus!
