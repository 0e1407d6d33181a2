//! The CurseForge export: which files are referenced remotely, the check of
//! a fingerprint match, and the manifest.
use vstd::prelude::*;
use crate::export_common::file_name_of;
use crate::hashes::{
    curseforge_fingerprint, fingerprint_content, hex_lower, murmur2_of, sha1_digest_of, sha1_hex,
};
use crate::models::{ExportModpackMeta, ModLoaderType};
use crate::text::{after_last, append_chars, chars_of, string_of};

verus! {

/// A file of the pack that CurseForge serves.
#[derive(Debug, Clone, Copy, PartialEq, Eq, Structural)]
pub struct CurseForgeFiles {
    pub project_id: u64,
    pub file_id: u64,
    pub required: bool,
}

/// A mod loader entry of the manifest.
#[derive(Debug, Clone)]
pub struct CurseForgeModLoader {
    pub id: String,
    pub primary: bool,
}

/// The `minecraft` section of the manifest.
#[derive(Debug, Clone)]
pub struct CurseForgeMinecraft {
    pub version: String,
    pub mod_loaders: Vec<CurseForgeModLoader>,
}

/// The pack description (`manifest` JSON file) of a CurseForge modpack.
#[derive(Debug, Clone)]
pub struct CurseForgeExportManifest {
    pub minecraft: CurseForgeMinecraft,
    pub manifest_type: String,
    pub manifest_version: u32,
    pub name: String,
    pub version: String,
    pub author: String,
    pub files: Vec<CurseForgeFiles>,
    pub overrides: String,
}

/// Where a selected file ends up: referenced on CurseForge, or packed locally.
#[derive(Debug, Clone)]
pub enum CurseForgeMatchResult {
    Remote(CurseForgeFiles),
    Local(String),
}

/// A hash CurseForge reports for a file (`algo == 1` is SHA-1).
#[derive(Debug, Clone)]
pub struct CurseForgeFileHash {
    pub algo: u32,
    pub value: String,
}

/// A file CurseForge reports as an exact fingerprint match.
#[derive(Debug, Clone)]
pub struct CurseForgeFingerprintFile {
    pub id: u64,
    pub mod_id: u64,
    pub hashes: Vec<CurseForgeFileHash>,
}

/// `str::to_lowercase` (Unicode lower case mapping), named: its result is a
/// function of the string alone.
pub uninterp spec fn unicode_lowercase_of(s: Seq<char>) -> Seq<char>;

/// `str::to_lowercase`. Claimed: the result depends on `s` alone.
#[verifier::external_body]
fn to_lowercase(s: &str) -> (r: String)
    ensures
        r@ == unicode_lowercase_of(s@),
{
    s.to_lowercase()
}

/// Index of the first hash with algorithm `algo`, or `hashes.len()`.
pub open spec fn first_hash_index(hashes: Seq<CurseForgeFileHash>, algo: u32) -> int
    decreases hashes.len(),
{
    if hashes.len() == 0 {
        0
    } else if hashes[0].algo == algo {
        0
    } else {
        1 + first_hash_index(hashes.drop_first(), algo)
    }
}

/// Outcome of a fingerprint lookup: the first exact match is accepted when
/// its first SHA-1 hash equals the local SHA-1, ignoring case; the result is
/// `(project id, file id)`.
pub open spec fn spec_verify_curseforge_match(
    exact_matches: Seq<CurseForgeFingerprintFile>,
    local_sha1: Seq<char>,
) -> Option<(u64, u64)> {
    if exact_matches.len() == 0 {
        None
    } else {
        let f = exact_matches[0];
        let k = first_hash_index(f.hashes@, 1);
        if k >= f.hashes@.len() {
            None
        } else if unicode_lowercase_of(f.hashes@[k].value@) != unicode_lowercase_of(local_sha1) {
            None
        } else {
            Some((f.mod_id, f.id))
        }
    }
}

/// The manifest id of a mod loader (`fabric-<v>`, `forge-<v>`, ...), empty
/// for loaders CurseForge does not know.
pub open spec fn spec_curseforge_loader_id(t: ModLoaderType, v: Seq<char>) -> Seq<char> {
    match t {
        ModLoaderType::Fabric => "fabric-"@ + v,
        ModLoaderType::Forge | ModLoaderType::LegacyForge => "forge-"@ + v,
        ModLoaderType::NeoForge => "neoforge-"@ + v,
        ModLoaderType::Quilt => "quilt-"@ + v,
        _ => Seq::<char>::empty(),
    }
}

/// The remote files, in order.
pub open spec fn remote_files(r: Seq<CurseForgeMatchResult>) -> Seq<CurseForgeFiles>
    decreases r.len(),
{
    if r.len() == 0 {
        Seq::<CurseForgeFiles>::empty()
    } else {
        match r.last() {
            CurseForgeMatchResult::Remote(f) => remote_files(r.drop_last()).push(f),
            CurseForgeMatchResult::Local(_) => remote_files(r.drop_last()),
        }
    }
}

/// The locally packed paths, in order.
pub open spec fn local_paths(r: Seq<CurseForgeMatchResult>) -> Seq<Seq<char>>
    decreases r.len(),
{
    if r.len() == 0 {
        Seq::<Seq<char>>::empty()
    } else {
        match r.last() {
            CurseForgeMatchResult::Remote(_) => local_paths(r.drop_last()),
            CurseForgeMatchResult::Local(p) => local_paths(r.drop_last()).push(p@),
        }
    }
}

/// The character views of a list of strings.
pub open spec fn string_views(v: Seq<String>) -> Seq<Seq<char>> {
    v.map_values(|s: String| s@)
}

/// Accept or reject the result of a fingerprint lookup.
pub fn verify_curseforge_match(
    exact_matches: &Vec<CurseForgeFingerprintFile>,
    local_sha1: &str,
) -> (r: Option<(u64, u64)>)
    ensures
        r == spec_verify_curseforge_match(exact_matches@, local_sha1@),
{
    if exact_matches.len() == 0 {
        return None;
    }
    let f = &exact_matches[0];
    let mut k: usize = 0;
    while k < f.hashes.len() && f.hashes[k].algo != 1
        invariant
            k <= f.hashes@.len(),
            forall|j: int| 0 <= j < k ==> f.hashes@[j].algo != 1,
        decreases f.hashes@.len() - k,
    {
        k = k + 1;
    }
    proof {
        lemma_first_hash_index(f.hashes@, 1, k as int);
    }
    if k >= f.hashes.len() {
        return None;
    }
    let remote = to_lowercase(f.hashes[k].value.as_str());
    let local = to_lowercase(local_sha1);
    let rc = chars_of(remote.as_str());
    let lc = chars_of(local.as_str());
    if !crate::text::chars_eq(rc.as_slice(), lc.as_slice()) {
        return None;
    }
    Some((f.mod_id, f.id))
}

/// Characterises `first_hash_index` by the position it returns.
proof fn lemma_first_hash_index(h: Seq<CurseForgeFileHash>, algo: u32, k: int)
    requires
        0 <= k <= h.len(),
        forall|j: int| 0 <= j < k ==> h[j].algo != algo,
        k == h.len() || h[k].algo == algo,
    ensures
        first_hash_index(h, algo) == k,
    decreases h.len(),
{
    if h.len() > 0 && k > 0 {
        assert forall|j: int| 0 <= j < k - 1 implies h.drop_first()[j].algo != algo by {
            assert(h.drop_first()[j] == h[j + 1]);
        }
        lemma_first_hash_index(h.drop_first(), algo, k - 1);
    }
}

/// Where a selected file ends up, given the outcome of its lookup.
pub fn curseforge_match_outcome(rel_path: String, lookup: Option<(u64, u64)>) -> (r:
    CurseForgeMatchResult)
    ensures
        match lookup {
            Some((p, f)) => r == CurseForgeMatchResult::Remote(
                CurseForgeFiles { project_id: p, file_id: f, required: true },
            ),
            None => r == CurseForgeMatchResult::Local(rel_path),
        },
{
    match lookup {
        Some((project_id, file_id)) => CurseForgeMatchResult::Remote(
            CurseForgeFiles { project_id, file_id, required: true },
        ),
        None => CurseForgeMatchResult::Local(rel_path),
    }
}

/// The file name shown in the progress of matching: empty for a remote file.
pub fn match_progress_name(result: &CurseForgeMatchResult) -> (r: String)
    ensures
        match result {
            CurseForgeMatchResult::Remote(_) => r@.len() == 0,
            CurseForgeMatchResult::Local(p) => r@ == after_last(p@, '/'),
        },
{
    match result {
        CurseForgeMatchResult::Remote(_) => string_of(Vec::<char>::new().as_slice()),
        CurseForgeMatchResult::Local(p) => file_name_of(p.as_str()),
    }
}

/// Splits the results into the remote files and the local paths, each in order.
pub fn split_match_results(results: Vec<CurseForgeMatchResult>) -> (r: (
    Vec<CurseForgeFiles>,
    Vec<String>,
))
    ensures
        r.0@ == remote_files(results@),
        string_views(r.1@) == local_paths(results@),
{
    let mut files: Vec<CurseForgeFiles> = Vec::new();
    let mut paths: Vec<String> = Vec::new();
    let mut i: usize = 0;
    while i < results.len()
        invariant
            i <= results@.len(),
            files@ == remote_files(results@.take(i as int)),
            string_views(paths@) == local_paths(results@.take(i as int)),
        decreases results@.len() - i,
    {
        assert(results@.take(i + 1).drop_last() =~= results@.take(i as int));
        match &results[i] {
            CurseForgeMatchResult::Remote(f) => {
                files.push(*f);
            },
            CurseForgeMatchResult::Local(p) => {
                let ghost old = paths@;
                paths.push(p.clone());
                assert(string_views(paths@) =~= string_views(old).push(p@));
            },
        }
        i = i + 1;
    }
    assert(results@.take(results@.len() as int) =~= results@);
    (files, paths)
}

/// The manifest id of a mod loader.
pub fn curseforge_loader_id(mod_loader_type: ModLoaderType, mod_loader_version: &str) -> (r: String)
    ensures
        r@ == spec_curseforge_loader_id(mod_loader_type, mod_loader_version@),
{
    let v = chars_of(mod_loader_version);
    let mut out: Vec<char> = match mod_loader_type {
        ModLoaderType::Fabric => chars_of("fabric-"),
        ModLoaderType::Forge | ModLoaderType::LegacyForge => chars_of("forge-"),
        ModLoaderType::NeoForge => chars_of("neoforge-"),
        ModLoaderType::Quilt => chars_of("quilt-"),
        _ => {
            return string_of(Vec::<char>::new().as_slice());
        },
    };
    append_chars(&mut out, v.as_slice());
    string_of(out.as_slice())
}

/// The mod loader list of the manifest: the loader as primary, or nothing
/// when its id is empty.
pub fn curseforge_mod_loaders(mod_loader_type: ModLoaderType, mod_loader_version: &str) -> (r: Vec<
    CurseForgeModLoader,
>)
    ensures
        spec_curseforge_loader_id(mod_loader_type, mod_loader_version@).len() == 0 ==> r@.len()
            == 0,
        spec_curseforge_loader_id(mod_loader_type, mod_loader_version@).len() > 0 ==> {
            &&& r@.len() == 1
            &&& r@[0].id@ == spec_curseforge_loader_id(mod_loader_type, mod_loader_version@)
            &&& r@[0].primary
        },
{
    let id = curseforge_loader_id(mod_loader_type, mod_loader_version);
    let mut r: Vec<CurseForgeModLoader> = Vec::new();
    if !id.as_str().is_empty() {
        r.push(CurseForgeModLoader { id, primary: true });
    }
    r
}

/// The zip entry name of a locally packed file: `overrides/<rel>`.
pub fn override_entry_name(rel_path: &str) -> (r: String)
    ensures
        r@ == "overrides/"@ + rel_path@,
{
    let mut v = chars_of("overrides/");
    append_chars(&mut v, chars_of(rel_path).as_slice());
    string_of(v.as_slice())
}

/// The manifest of the pack.
pub fn curseforge_manifest(
    meta: &ExportModpackMeta,
    mc_version: &str,
    mod_loaders: Vec<CurseForgeModLoader>,
    files: Vec<CurseForgeFiles>,
) -> (m: CurseForgeExportManifest)
    ensures
        m.minecraft.version@ == mc_version@,
        m.minecraft.mod_loaders@ == mod_loaders@,
        m.manifest_type@ == "minecraftModpack"@,
        m.manifest_version == 1,
        m.name@ == meta.name@,
        m.version@ == meta.version@,
        m.author@ == meta.author@,
        m.files@ == files@,
        m.overrides@ == "overrides"@,
{
    CurseForgeExportManifest {
        minecraft: CurseForgeMinecraft {
            version: string_of(chars_of(mc_version).as_slice()),
            mod_loaders,
        },
        manifest_type: string_of(chars_of("minecraftModpack").as_slice()),
        manifest_version: 1,
        name: meta.name.clone(),
        version: meta.version.clone(),
        author: meta.author.clone(),
        files,
        overrides: string_of(chars_of("overrides").as_slice()),
    }
}

/// What a CurseForge fingerprint lookup needs from a file's content: its
/// SHA-1 (lower-case hex) to check the match, and its fingerprint.
pub fn curseforge_lookup_keys(content: &[u8]) -> (r: (String, u64))
    ensures
        r.0@ == hex_lower(sha1_digest_of(content@)),
        r.1 == murmur2_of(fingerprint_content(content@), 1) as u64,
{
    let sha1 = sha1_hex(content);
    let fingerprint = curseforge_fingerprint(content);
    (sha1, fingerprint)
}

/// Every matched file ends up exactly once: as a remote entry of the
/// manifest or as a locally packed path.
pub proof fn law_match_results_partition(results: Seq<CurseForgeMatchResult>)
    ensures
        remote_files(results).len() + local_paths(results).len() == results.len(),
    decreases results.len(),
{
    if results.len() > 0 {
        law_match_results_partition(results.drop_last());
    }
}

} // verus!
