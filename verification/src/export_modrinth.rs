//! The Modrinth export: download sources of matched files, the client
//! environment of disabled mods, the dependency table and the manifest.
use vstd::prelude::*;
use crate::models::{ExportModpackMeta, ModLoaderType};
use crate::paths::opt_chars;
use crate::export_common::file_name_of;
use crate::text::{after_last, append_chars, chars_of, ends_with, ends_with_lit, string_of};

verus! {

/// Hashes of a remote file.
#[derive(Debug, Clone)]
pub struct ModrinthExportHashes {
    pub sha1: String,
    pub sha512: String,
}

/// Client/server requirement of a remote file.
#[derive(Debug, Clone)]
pub struct ModrinthExportEnv {
    pub client: String,
    pub server: String,
}

/// A file of the pack downloaded from its sources.
#[derive(Debug, Clone)]
pub struct ModrinthExportFile {
    pub path: String,
    pub hashes: ModrinthExportHashes,
    pub env: Option<ModrinthExportEnv>,
    pub downloads: Vec<String>,
    pub file_size: u64,
}

/// `modrinth.index.json`; the dependency table is a list of distinct keys.
#[derive(Debug, Clone)]
pub struct ModrinthExportManifest {
    pub format_version: u32,
    pub game: String,
    pub version_id: String,
    pub name: String,
    pub summary: Option<String>,
    pub files: Vec<ModrinthExportFile>,
    pub dependencies: Vec<(String, String)>,
}

/// Where a selected file ends up: downloaded from its sources, or packed locally.
#[derive(Debug, Clone)]
pub enum ModrinthMatchResult {
    Remote(ModrinthExportFile),
    Local(String),
}

/// Dependency key of a mod loader in `modrinth.index.json`.
pub open spec fn spec_modrinth_loader_key(t: ModLoaderType) -> Option<&'static str> {
    match t {
        ModLoaderType::Fabric => Some("fabric-loader"),
        ModLoaderType::Forge | ModLoaderType::LegacyForge => Some("forge"),
        ModLoaderType::NeoForge => Some("neoforge"),
        ModLoaderType::Quilt => Some("quilt-loader"),
        _ => None,
    }
}

/// The character views of a list of strings.
pub open spec fn string_views(v: Seq<String>) -> Seq<Seq<char>> {
    v.map_values(|s: String| s@)
}

/// The download sources of a file that Modrinth knows: Modrinth's URL,
/// then CurseForge's beside it unless CurseForge is skipped. A file that
/// Modrinth does not know has none (it is packed locally).
pub open spec fn spec_downloads(
    modrinth_url: Option<Seq<char>>,
    curseforge_url: Option<Seq<char>>,
    skip_curseforge: bool,
) -> Seq<Seq<char>> {
    match modrinth_url {
        None => Seq::<Seq<char>>::empty(),
        Some(m) => match curseforge_url {
            Some(c) => if skip_curseforge {
                seq![m]
            } else {
                seq![m, c]
            },
            None => seq![m],
        },
    }
}

fn modrinth_loader_key(t: ModLoaderType) -> (r: Option<&'static str>)
    ensures
        r == spec_modrinth_loader_key(t),
{
    match t {
        ModLoaderType::Fabric => Some("fabric-loader"),
        ModLoaderType::Forge | ModLoaderType::LegacyForge => Some("forge"),
        ModLoaderType::NeoForge => Some("neoforge"),
        ModLoaderType::Quilt => Some("quilt-loader"),
        _ => None,
    }
}

/// A string copy of `s`.
fn owned(s: &str) -> (r: String)
    ensures
        r@ == s@,
{
    string_of(chars_of(s).as_slice())
}

/// The dependency table: Minecraft's version, then the mod loader's when it
/// is one Modrinth knows and its version is given.
pub fn modrinth_dependencies(
    mc_version: &str,
    mod_loader_type: ModLoaderType,
    mod_loader_version: &str,
) -> (d: Vec<(String, String)>)
    ensures
        d@.len() == if spec_modrinth_loader_key(mod_loader_type) is Some
            && mod_loader_version@.len() > 0 {
            2int
        } else {
            1int
        },
        d@[0].0@ == "minecraft"@,
        d@[0].1@ == mc_version@,
        d@.len() == 2 ==> d@[1].0@ == spec_modrinth_loader_key(mod_loader_type)->0@ && d@[1].1@
            == mod_loader_version@,
{
    let mut d: Vec<(String, String)> = Vec::new();
    d.push((owned("minecraft"), owned(mc_version)));
    if let Some(key) = modrinth_loader_key(mod_loader_type) {
        if !mod_loader_version.is_empty() {
            d.push((owned(key), owned(mod_loader_version)));
        }
    }
    d
}

/// Disabled mods (`.disabled` suffix) are optional on the client and not
/// supported on the server; other files carry no environment.
pub fn modrinth_env(rel_path: &str) -> (e: Option<ModrinthExportEnv>)
    ensures
        ends_with(rel_path@, ".disabled"@) ==> (e matches Some(v) && v.client@ == "optional"@
            && v.server@ == "unsupported"@),
        !ends_with(rel_path@, ".disabled"@) ==> e is None,
{
    let r = chars_of(rel_path);
    if ends_with_lit(r.as_slice(), ".disabled") {
        Some(ModrinthExportEnv { client: owned("optional"), server: owned("unsupported") })
    } else {
        None
    }
}

/// Whether CurseForge is asked for a file's download URL: only beside a
/// Modrinth match, and only when CurseForge is not skipped.
pub fn curseforge_lookup_wanted(modrinth_found: bool, skip_curseforge: bool) -> (r: bool)
    ensures
        r == (modrinth_found && !skip_curseforge),
{
    modrinth_found && !skip_curseforge
}

/// The download sources of a file.
pub fn modrinth_downloads(
    modrinth_url: Option<String>,
    curseforge_url: Option<String>,
    skip_curseforge: bool,
) -> (d: Vec<String>)
    ensures
        string_views(d@) == spec_downloads(
            opt_chars(modrinth_url),
            opt_chars(curseforge_url),
            skip_curseforge,
        ),
{
    let mut d: Vec<String> = Vec::new();
    if let Some(m) = modrinth_url {
        d.push(m);
        if !skip_curseforge {
            if let Some(c) = curseforge_url {
                d.push(c);
            }
        }
    }
    assert(string_views(d@) =~= spec_downloads(
        opt_chars(modrinth_url),
        opt_chars(curseforge_url),
        skip_curseforge,
    ));
    d
}

/// Where a selected file ends up: packed locally (`Local`) unless Modrinth
/// knows it; a file Modrinth knows is a remote entry with its download
/// sources (Modrinth's URL first), hashes, environment and size.
pub fn modrinth_match_outcome(
    rel_path: String,
    modrinth_url: Option<String>,
    curseforge_url: Option<String>,
    skip_curseforge: bool,
    sha1: String,
    sha512: String,
    file_size: u64,
) -> (r: ModrinthMatchResult)
    ensures
        modrinth_url is None ==> r == ModrinthMatchResult::Local(rel_path),
        modrinth_url is Some ==> (r matches ModrinthMatchResult::Remote(f) && f.path == rel_path
            && f.hashes.sha1 == sha1 && f.hashes.sha512 == sha512 && string_views(f.downloads@)
            == spec_downloads(opt_chars(modrinth_url), opt_chars(curseforge_url), skip_curseforge)
            && f.file_size == file_size && (ends_with(rel_path@, ".disabled"@) ==> (f.env matches Some(
            v) && v.client@ == "optional"@ && v.server@ == "unsupported"@)) && (!ends_with(
            rel_path@,
            ".disabled"@,
        ) ==> f.env is None)),
{
    if modrinth_url.is_none() {
        return ModrinthMatchResult::Local(rel_path);
    }
    let downloads = modrinth_downloads(modrinth_url, curseforge_url, skip_curseforge);
    let env = modrinth_env(rel_path.as_str());
    ModrinthMatchResult::Remote(
        ModrinthExportFile {
            path: rel_path,
            hashes: ModrinthExportHashes { sha1, sha512 },
            env,
            downloads,
            file_size,
        },
    )
}

/// The zip entry name of a locally packed file: `client-overrides/<rel>`.
pub fn client_override_entry_name(rel_path: &str) -> (r: String)
    ensures
        r@ == "client-overrides/"@ + rel_path@,
{
    let mut v = chars_of("client-overrides/");
    append_chars(&mut v, chars_of(rel_path).as_slice());
    string_of(v.as_slice())
}

/// The manifest of the pack.
pub fn modrinth_manifest(
    meta: &ExportModpackMeta,
    files: Vec<ModrinthExportFile>,
    dependencies: Vec<(String, String)>,
) -> (m: ModrinthExportManifest)
    ensures
        m.format_version == 1,
        m.game@ == "minecraft"@,
        m.version_id@ == meta.version@,
        m.name@ == meta.name@,
        opt_chars(m.summary) == opt_chars(meta.description),
        m.files@ == files@,
        m.dependencies@ == dependencies@,
{
    let summary = match &meta.description {
        Some(d) => Some(d.clone()),
        None => None,
    };
    ModrinthExportManifest {
        format_version: 1,
        game: owned("minecraft"),
        version_id: meta.version.clone(),
        name: meta.name.clone(),
        summary,
        files,
        dependencies,
    }
}

/// The remote files, in order.
pub open spec fn remote_files(r: Seq<ModrinthMatchResult>) -> Seq<ModrinthExportFile>
    decreases r.len(),
{
    if r.len() == 0 {
        Seq::<ModrinthExportFile>::empty()
    } else {
        match r.last() {
            ModrinthMatchResult::Remote(f) => remote_files(r.drop_last()).push(f),
            ModrinthMatchResult::Local(_) => remote_files(r.drop_last()),
        }
    }
}

/// The locally packed paths, in order.
pub open spec fn local_paths(r: Seq<ModrinthMatchResult>) -> Seq<Seq<char>>
    decreases r.len(),
{
    if r.len() == 0 {
        Seq::<Seq<char>>::empty()
    } else {
        match r.last() {
            ModrinthMatchResult::Remote(_) => local_paths(r.drop_last()),
            ModrinthMatchResult::Local(p) => local_paths(r.drop_last()).push(p@),
        }
    }
}

/// Splits the results into the remote files and the local paths, each in order.
pub fn split_modrinth_results(results: Vec<ModrinthMatchResult>) -> (r: (
    Vec<ModrinthExportFile>,
    Vec<String>,
))
    ensures
        r.0@ == remote_files(results@),
        string_views(r.1@) == local_paths(results@),
{
    let mut files: Vec<ModrinthExportFile> = Vec::new();
    let mut paths: Vec<String> = Vec::new();
    let mut rest = results;
    let ghost all = rest@;
    let mut taken: Vec<ModrinthMatchResult> = Vec::new();
    // Move the results into `taken` in reverse order ...
    while rest.len() > 0
        invariant
            rest@ == all.take(rest@.len() as int),
            rest@.len() + taken@.len() == all.len(),
            forall|j: int| 0 <= j < taken@.len() ==> #[trigger] taken@[j] == all[all.len() - 1 - j],
        decreases rest@.len(),
    {
        let x = rest.pop().unwrap();
        taken.push(x);
        assert(rest@ =~= all.take(rest@.len() as int));
    }
    // ... and take them back from the end, in the original order.
    while taken.len() > 0
        invariant
            taken@.len() <= all.len(),
            forall|j: int| 0 <= j < taken@.len() ==> #[trigger] taken@[j] == all[all.len() - 1 - j],
            files@ == remote_files(all.take(all.len() - taken@.len())),
            string_views(paths@) == local_paths(all.take(all.len() - taken@.len())),
        decreases taken@.len(),
    {
        let ghost m = all.len() - taken@.len();
        let x = taken.pop().unwrap();
        assert(x == all[m]);
        assert(all.take(m + 1).drop_last() =~= all.take(m));
        match x {
            ModrinthMatchResult::Remote(f) => {
                files.push(f);
            },
            ModrinthMatchResult::Local(p) => {
                let ghost old = paths@;
                paths.push(p);
                assert(string_views(paths@) =~= string_views(old).push(p@));
            },
        }
    }
    assert(all.take(all.len() as int) =~= all);
    (files, paths)
}

/// The file name shown in the progress of matching.
pub fn modrinth_progress_name(result: &ModrinthMatchResult) -> (r: String)
    ensures
        match result {
            ModrinthMatchResult::Remote(f) => r@ == after_last(f.path@, '/'),
            ModrinthMatchResult::Local(p) => r@ == after_last(p@, '/'),
        },
{
    match result {
        ModrinthMatchResult::Remote(f) => file_name_of(f.path.as_str()),
        ModrinthMatchResult::Local(p) => file_name_of(p.as_str()),
    }
}

/// Every matched file ends up exactly once: as a remote entry of the
/// manifest or as a locally packed path.
pub proof fn law_match_results_partition(results: Seq<ModrinthMatchResult>)
    ensures
        remote_files(results).len() + local_paths(results).len() == results.len(),
    decreases results.len(),
{
    if results.len() > 0 {
        law_match_results_partition(results.drop_last());
    }
}

/// The dependency table never names a key twice: no loader's key is
/// `minecraft`.
pub proof fn law_dependency_keys_distinct(t: ModLoaderType)
    ensures
        spec_modrinth_loader_key(t) matches Some(k) ==> k@ != "minecraft"@,
{
    reveal_strlit("minecraft");
    reveal_strlit("fabric-loader");
    reveal_strlit("forge");
    reveal_strlit("neoforge");
    reveal_strlit("quilt-loader");
    match t {
        ModLoaderType::Fabric => assert("fabric-loader"@.len() != "minecraft"@.len()),
        ModLoaderType::Forge | ModLoaderType::LegacyForge => assert("forge"@.len()
            != "minecraft"@.len()),
        ModLoaderType::NeoForge => assert("neoforge"@.len() != "minecraft"@.len()),
        ModLoaderType::Quilt => assert("quilt-loader"@.len() != "minecraft"@.len()),
        _ => {},
    }
}

/// Only files that Modrinth knows become remote entries: a file has
/// download sources exactly when Modrinth has a URL for it, and that URL
/// comes first; a CurseForge URL at most sits beside it.
pub proof fn law_remote_only_on_modrinth(
    modrinth_url: Option<Seq<char>>,
    curseforge_url: Option<Seq<char>>,
    skip_curseforge: bool,
)
    ensures
        (spec_downloads(modrinth_url, curseforge_url, skip_curseforge).len() > 0) <==> modrinth_url is Some,
        modrinth_url matches Some(m) ==> spec_downloads(modrinth_url, curseforge_url, skip_curseforge)[0] == m,
        spec_downloads(modrinth_url, curseforge_url, skip_curseforge).len() <= 2,
{
}

} // verus!
