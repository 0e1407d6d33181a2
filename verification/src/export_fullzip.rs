//! The self-contained "full pack": which files go in, where they go in the
//! zip, the manifest, and where each zip entry goes back on import.
use vstd::prelude::*;
use crate::export_common::{in_names, in_names_exec};
use crate::models::{ExportModpackMeta, InstanceError, ModLoader, ModLoaderType};
use crate::paths::{
    dot_dot, join_path_chars, law_safe_join_stays_inside, normalize_chars, opt_chars,
    spec_join_path, spec_normalize_relative_path, spec_safe_join,
};
use crate::text::{
    after_last, after_last_exec, append_chars, append_lit, ascii_lowercase, ascii_lowercase_exec,
    before_first, before_first_exec, chars_eq, chars_of, copy_chars, starts_with,
    split, starts_with_chars, string_of, sub_chars, views,
};

verus! {

broadcast use vstd::seq_lib::group_seq_properties;

/// Manifest written at the zip root to identify an XMCL full pack and carry metadata.
#[derive(Debug, Clone)]
pub struct FullPackManifest {
    pub format_version: u32,
    pub name: String,
    pub version: String,
    pub description: Option<String>,
    pub author: Option<String>,
    pub minecraft_version: String,
    pub mod_loader: ModLoader,
    pub file_count: usize,
    pub total_size: u64,
}

/// Instance sub-directories shared at the game dir root when version isolation is off.
pub const SHARED_GAME_DIRS: [&'static str; 9] = [
    "mods",
    "resourcepacks",
    "shaderpacks",
    "saves",
    "schematics",
    "screenshots",
    "server-resource-packs",
    "config",
    "datapacks",
];

/// Root-level game files shared at the game dir root when version isolation is off.
pub const SHARED_GAME_FILES: [&'static str; 5] = [
    "options.txt",
    "optionsshaders.txt",
    "optionsof.txt",
    "servers.dat",
    "realms_persistence.json",
];

/// Files that are mandatory for the imported instance to launch; always packed,
/// never shown in the file selection tree.
pub const CORE_INSTANCE_FILES: [&'static str; 1] = ["xmclcfg.json"];

/// Name of the identification manifest at the zip root.
pub const FULL_PACK_MANIFEST_NAME: &'static str = "xmcl-full-pack.json";

/// Extensions of files that are already compressed and are stored as-is.
pub open spec fn stored_ext_names() -> Seq<&'static str> {
    seq![
        "jar",
        "zip",
        "gz",
        "7z",
        "png",
        "jpg",
        "jpeg",
        "gif",
        "webp",
        "ogg",
        "mp3",
        "mp4",
        "webm",
        "bin",
        "nib",
        "class",
        "pack",
        "icns",
        "ico",
    ]
}

/// A file is deflated unless its extension (text after the last `.`, in
/// ASCII lower case) names an already-compressed format.
pub open spec fn spec_should_compress(path: Seq<char>) -> bool {
    !in_names(ascii_lowercase(after_last(path, '.')), stored_ext_names())
}

/// A file the imported instance needs to launch: anything under
/// `xmclcfg.json`, or the client jar and json named after the instance.
pub open spec fn spec_is_core_file(name: Seq<char>, rel: Seq<char>) -> bool {
    ||| in_names(before_first(rel, '/'), seq!["xmclcfg.json"])
    ||| rel == name + ".jar"@
    ||| rel == name + ".json"@
}

/// Entries of the version directory offered for a full export: not under a
/// top-level directory whose name starts with `natives`, and not a core file.
pub open spec fn spec_is_full_export_entry(name: Seq<char>, rel: Seq<char>) -> bool {
    !starts_with(before_first(rel, '/'), "natives"@) && !spec_is_core_file(name, rel)
}

/// The candidate source files of a selected path, in the order they are
/// tried: under the version directory, then (isolation off) under the game
/// directory. `None` when the path could escape either directory.
pub open spec fn spec_source_candidates(
    version_path: Seq<char>,
    game_dir: Seq<char>,
    rel: Seq<char>,
    version_isolation: bool,
) -> Option<Seq<Seq<char>>> {
    match spec_normalize_relative_path(rel) {
        None => None,
        Some(n) => if version_isolation {
            Some(seq![spec_join_path(version_path, n)])
        } else {
            Some(seq![spec_join_path(version_path, n), spec_join_path(game_dir, n)])
        },
    }
}

/// The character views of a list of strings.
pub open spec fn string_views(v: Seq<String>) -> Seq<Seq<char>> {
    v.map_values(|s: String| s@)
}

/// State of the pack selection after reading `sel` in order: the set of
/// relative paths seen so far (the present core files first), and the packed
/// paths. A selected path is normalised (dropped when it cannot be), dropped
/// when already seen, recorded as seen, and packed unless it is a core file.
pub open spec fn spec_pack_plan(name: Seq<char>, core: Seq<Seq<char>>, sel: Seq<Seq<char>>) -> (
    Set<Seq<char>>,
    Seq<Seq<char>>,
)
    decreases sel.len(),
{
    if sel.len() == 0 {
        (core.to_set(), core)
    } else {
        let prev = spec_pack_plan(name, core, sel.drop_last());
        match spec_normalize_relative_path(sel.last()) {
            None => prev,
            Some(n) => if prev.0.contains(n) {
                prev
            } else if spec_is_core_file(name, n) {
                (prev.0.insert(n), prev.1)
            } else {
                (prev.0.insert(n), prev.1.push(n))
            },
        }
    }
}

/// The zip entry name of an instance file.
pub open spec fn spec_instance_entry_name(name: Seq<char>, rel: Seq<char>) -> Seq<char> {
    "instance/"@ + name + "/"@ + rel
}

/// Where a zip entry of a full pack is extracted to: instance files under
/// the version directory, `libraries/` and `assets/` under the shared
/// directories; any other entry, or one that could escape its directory, is
/// skipped (`None`).
pub open spec fn spec_route_pack_entry(
    entry: Seq<char>,
    name: Seq<char>,
    version_path: Seq<char>,
    libraries_dir: Seq<char>,
    assets_dir: Seq<char>,
) -> Option<Seq<char>> {
    let ip = "instance/"@ + name + "/"@;
    if starts_with(entry, ip) {
        spec_safe_join(version_path, entry.skip(ip.len() as int))
    } else if starts_with(entry, "libraries/"@) {
        spec_safe_join(libraries_dir, entry.skip("libraries/"@.len() as int))
    } else if starts_with(entry, "assets/"@) {
        spec_safe_join(assets_dir, entry.skip("assets/"@.len() as int))
    } else {
        None
    }
}

/// Sum of a list of sizes.
pub open spec fn sum_sizes(s: Seq<u64>) -> int
    decreases s.len(),
{
    if s.len() == 0 {
        0
    } else {
        sum_sizes(s.drop_last()) + s.last()
    }
}

// ---------------------------------------------------------------------------
// Executable functions
// ---------------------------------------------------------------------------

/// Files with these extensions are already compressed; store them as-is to save CPU time.
pub fn should_compress(path: &str) -> (r: bool)
    ensures
        r == spec_should_compress(path@),
{
    let stored: [&'static str; 19] = [
        "jar",
        "zip",
        "gz",
        "7z",
        "png",
        "jpg",
        "jpeg",
        "gif",
        "webp",
        "ogg",
        "mp3",
        "mp4",
        "webm",
        "bin",
        "nib",
        "class",
        "pack",
        "icns",
        "ico",
    ];
    assert(stored@ =~= stored_ext_names());
    let p = chars_of(path);
    let ext = after_last_exec(p.as_slice(), '.');
    let lower = ascii_lowercase_exec(ext.as_slice());
    !in_names_exec(lower.as_slice(), stored.as_slice())
}

/// Whether `rel` is a core file of the instance called `name`.
pub fn is_core_file(name: &str, rel: &str) -> (r: bool)
    ensures
        r == spec_is_core_file(name@, rel@),
{
    let core: [&'static str; 1] = ["xmclcfg.json"];
    assert(core@ =~= seq!["xmclcfg.json"]);
    let r = chars_of(rel);
    let first = before_first_exec(r.as_slice(), '/');
    if in_names_exec(first.as_slice(), core.as_slice()) {
        return true;
    }
    let n = chars_of(name);
    let mut jar = copy_chars(n.as_slice());
    append_lit(&mut jar, ".jar");
    let mut json = copy_chars(n.as_slice());
    append_lit(&mut json, ".json");
    chars_eq(r.as_slice(), jar.as_slice()) || chars_eq(r.as_slice(), json.as_slice())
}

/// Whether a scanned entry of the version directory is offered for a full
/// export.
pub fn is_full_export_entry(name: &str, rel: &str) -> (r: bool)
    ensures
        r == spec_is_full_export_entry(name@, rel@),
{
    let rc = chars_of(rel);
    let first = before_first_exec(rc.as_slice(), '/');
    let natives = chars_of("natives");
    !starts_with_chars(first.as_slice(), natives.as_slice()) && !is_core_file(name, rel)
}

/// The relative path of an entry found in a shared game directory `dir`.
pub fn shared_entry_path(dir: &str, rel: &str) -> (r: String)
    ensures
        r@ == dir@ + "/"@ + rel@,
{
    let mut v = chars_of(dir);
    append_lit(&mut v, "/");
    let rc = chars_of(rel);
    append_chars(&mut v, rc.as_slice());
    string_of(v.as_slice())
}

/// Map a selected relative path to the files it may come from, in the
/// order they are tried; the caller takes the first that is a file.
pub fn selected_source_path(
    version_path: &str,
    game_dir: &str,
    rel: &str,
    version_isolation: bool,
) -> (r: Option<Vec<String>>)
    ensures
        match r {
            Some(v) => spec_source_candidates(version_path@, game_dir@, rel@, version_isolation)
                == Some(string_views(v@)),
            None => spec_source_candidates(
                version_path@,
                game_dir@,
                rel@,
                version_isolation,
            ) is None,
        },
{
    let rc = chars_of(rel);
    let n = match normalize_chars(rc.as_slice()) {
        Some(n) => n,
        None => return None,
    };
    let vp = chars_of(version_path);
    let in_version = join_path_chars(vp.as_slice(), n.as_slice());
    let mut out: Vec<String> = Vec::new();
    out.push(string_of(in_version.as_slice()));
    if !version_isolation {
        let gd = chars_of(game_dir);
        let in_game = join_path_chars(gd.as_slice(), n.as_slice());
        out.push(string_of(in_game.as_slice()));
        assert(string_views(out@) =~= seq![in_version@, in_game@]);
    } else {
        assert(string_views(out@) =~= seq![in_version@]);
    }
    Some(out)
}

/// Index of the first `true` in `flags`, or `flags.len()`.
pub open spec fn first_true(flags: Seq<bool>) -> int
    decreases flags.len(),
{
    if flags.len() == 0 {
        0
    } else if flags[0] {
        0
    } else {
        1 + first_true(flags.drop_first())
    }
}

/// Which source candidate is packed: the first one that is an existing
/// file (`exists[i]` for candidate `i`), if any.
pub fn first_existing(exists: &Vec<bool>) -> (r: Option<usize>)
    ensures
        match r {
            Some(k) => k == first_true(exists@) && k < exists@.len(),
            None => first_true(exists@) == exists@.len(),
        },
{
    let mut k: usize = 0;
    while k < exists.len() && !exists[k]
        invariant
            k <= exists@.len(),
            forall|j: int| 0 <= j < k ==> !exists@[j],
        decreases exists@.len() - k,
    {
        k = k + 1;
    }
    proof {
        lemma_first_true(exists@, k as int);
    }
    if k < exists.len() {
        Some(k)
    } else {
        None
    }
}

/// Characterises `first_true` by the position it returns.
proof fn lemma_first_true(flags: Seq<bool>, k: int)
    requires
        0 <= k <= flags.len(),
        forall|j: int| 0 <= j < k ==> !flags[j],
        k == flags.len() || flags[k],
    ensures
        first_true(flags) == k,
    decreases flags.len(),
{
    if flags.len() > 0 && k > 0 {
        assert forall|j: int| 0 <= j < k - 1 implies !flags.drop_first()[j] by {
            assert(flags.drop_first()[j] == flags[j + 1]);
        }
        lemma_first_true(flags.drop_first(), k - 1);
    }
}

/// Whether `s` is among `list`.
fn contains_chars_in(list: &Vec<Vec<char>>, s: &[char]) -> (r: bool)
    ensures
        r == views(list@).contains(s@),
{
    let mut i: usize = 0;
    while i < list.len()
        invariant
            i <= list@.len(),
            forall|j: int| 0 <= j < i ==> views(list@)[j] != s@,
        decreases list@.len() - i,
    {
        if chars_eq(list[i].as_slice(), s) {
            assert(views(list@)[i as int] == s@);
            return true;
        }
        i = i + 1;
    }
    false
}

/// Converts strings to character vectors.
fn chars_list(v: &Vec<String>) -> (r: Vec<Vec<char>>)
    ensures
        views(r@) == string_views(v@),
{
    let mut r: Vec<Vec<char>> = Vec::new();
    let mut i: usize = 0;
    while i < v.len()
        invariant
            i <= v@.len(),
            views(r@) == string_views(v@).take(i as int),
        decreases v@.len() - i,
    {
        let c = chars_of(v[i].as_str());
        let ghost old = r@;
        r.push(c);
        assert(views(r@) =~= views(old).push(v@[i as int]@));
        assert(views(r@) =~= string_views(v@).take(i + 1));
        i = i + 1;
    }
    assert(string_views(v@).take(v@.len() as int) =~= string_views(v@));
    r
}

/// Converts character vectors to strings.
fn strings_of(v: &Vec<Vec<char>>) -> (r: Vec<String>)
    ensures
        string_views(r@) == views(v@),
{
    let mut r: Vec<String> = Vec::new();
    let mut i: usize = 0;
    while i < v.len()
        invariant
            i <= v@.len(),
            string_views(r@) == views(v@).take(i as int),
        decreases v@.len() - i,
    {
        let s = string_of(v[i].as_slice());
        let ghost old = r@;
        r.push(s);
        assert(string_views(r@) =~= string_views(old).push(v@[i as int]@));
        assert(string_views(r@) =~= views(v@).take(i + 1));
        i = i + 1;
    }
    assert(views(v@).take(v@.len() as int) =~= views(v@));
    r
}

/// The relative paths packed into the instance part of a full pack, given
/// the core files present (`core_present`, packed first) and the user's
/// selection: each selected path normalised, deduplicated against what was
/// seen before, and dropped when it is a core file.
pub fn plan_full_pack_files(name: &str, core_present: &Vec<String>, selected: &Vec<String>) -> (r:
    Vec<String>)
    ensures
        string_views(r@) == spec_pack_plan(name@, string_views(core_present@), string_views(
            selected@,
        )).1,
{
    let ghost core = string_views(core_present@);
    let ghost sel = string_views(selected@);
    let mut pack = chars_list(core_present);
    let mut seen = chars_list(core_present);
    let mut i: usize = 0;
    assert(sel.take(0) =~= Seq::<Seq<char>>::empty());
    while i < selected.len()
        invariant
            i <= selected@.len(),
            sel == string_views(selected@),
            core == string_views(core_present@),
            views(seen@).to_set() == spec_pack_plan(name@, core, sel.take(i as int)).0,
            views(pack@) == spec_pack_plan(name@, core, sel.take(i as int)).1,
        decreases selected@.len() - i,
    {
        assert(sel.take(i + 1).drop_last() =~= sel.take(i as int));
        assert(sel.take(i + 1).last() == selected@[i as int]@);
        let rc = chars_of(selected[i].as_str());
        match normalize_chars(rc.as_slice()) {
            None => {},
            Some(n) => {
                if !contains_chars_in(&seen, n.as_slice()) {
                    let ghost old_seen = views(seen@);
                    let ghost old_pack = views(pack@);
                    let seen_copy = copy_chars(n.as_slice());
                    seen.push(seen_copy);
                    assert(views(seen@) =~= old_seen.push(n@));
                    assert(views(seen@).to_set() =~= old_seen.to_set().insert(n@));
                    let ns = string_of(n.as_slice());
                    if !is_core_file(name, ns.as_str()) {
                        pack.push(n);
                        assert(views(pack@) =~= old_pack.push(ns@));
                    }
                }
            },
        }
        i = i + 1;
    }
    assert(sel.take(selected@.len() as int) =~= sel);
    strings_of(&pack)
}

/// The files that make an instance called `name` launchable, in the order
/// they are packed: the core files, then `<name>.jar` and `<name>.json`.
pub fn core_file_candidates(name: &str) -> (r: Vec<String>)
    ensures
        string_views(r@) == seq!["xmclcfg.json"@, name@ + ".jar"@, name@ + ".json"@],
{
    let mut r: Vec<String> = Vec::new();
    r.push(string_of(chars_of("xmclcfg.json").as_slice()));
    let n = chars_of(name);
    let mut jar = copy_chars(n.as_slice());
    append_lit(&mut jar, ".jar");
    r.push(string_of(jar.as_slice()));
    let mut json = copy_chars(n.as_slice());
    append_lit(&mut json, ".json");
    r.push(string_of(json.as_slice()));
    assert(string_views(r@) =~= seq!["xmclcfg.json"@, name@ + ".jar"@, name@ + ".json"@]);
    r
}


/// The zip entry name of an instance file: `instance/<name>/<rel>`.
pub fn instance_entry_name(name: &str, rel: &str) -> (r: String)
    ensures
        r@ == spec_instance_entry_name(name@, rel@),
{
    let mut v = chars_of("instance/");
    let n = chars_of(name);
    append_chars(&mut v, n.as_slice());
    append_lit(&mut v, "/");
    let rc = chars_of(rel);
    append_chars(&mut v, rc.as_slice());
    string_of(v.as_slice())
}

/// The zip entry name of a shared library file: `libraries/<rel>`.
pub fn library_entry_name(rel: &str) -> (r: String)
    ensures
        r@ == "libraries/"@ + rel@,
{
    let mut v = chars_of("libraries/");
    let rc = chars_of(rel);
    append_chars(&mut v, rc.as_slice());
    string_of(v.as_slice())
}

/// The zip entry name of a shared asset file: `assets/<rel>`.
pub fn asset_entry_name(rel: &str) -> (r: String)
    ensures
        r@ == "assets/"@ + rel@,
{
    let mut v = chars_of("assets/");
    let rc = chars_of(rel);
    append_chars(&mut v, rc.as_slice());
    string_of(v.as_slice())
}

/// `safe_join` on characters, to a string.
fn safe_join_chars(base: &[char], rel: &[char]) -> (r: Option<String>)
    ensures
        opt_chars(r) == spec_safe_join(base@, rel@),
{
    match normalize_chars(rel) {
        Some(n) => {
            let j = join_path_chars(base, n.as_slice());
            Some(string_of(j.as_slice()))
        },
        None => None,
    }
}

/// Where a zip entry of a full pack is extracted to (`None`: skipped).
pub fn route_pack_entry(
    entry_name: &str,
    name: &str,
    version_path: &str,
    libraries_dir: &str,
    assets_dir: &str,
) -> (r: Option<String>)
    ensures
        opt_chars(r) == spec_route_pack_entry(
            entry_name@,
            name@,
            version_path@,
            libraries_dir@,
            assets_dir@,
        ),
{
    let e = chars_of(entry_name);
    let mut ip = chars_of("instance/");
    let n = chars_of(name);
    append_chars(&mut ip, n.as_slice());
    append_lit(&mut ip, "/");
    if starts_with_chars(e.as_slice(), ip.as_slice()) {
        let rest = sub_chars(e.as_slice(), ip.len(), e.len());
        assert(rest@ =~= e@.skip(ip@.len() as int));
        let vp = chars_of(version_path);
        return safe_join_chars(vp.as_slice(), rest.as_slice());
    }
    let lib = chars_of("libraries/");
    if starts_with_chars(e.as_slice(), lib.as_slice()) {
        let rest = sub_chars(e.as_slice(), lib.len(), e.len());
        assert(rest@ =~= e@.skip(lib@.len() as int));
        let ld = chars_of(libraries_dir);
        return safe_join_chars(ld.as_slice(), rest.as_slice());
    }
    let assets = chars_of("assets/");
    if starts_with_chars(e.as_slice(), assets.as_slice()) {
        let rest = sub_chars(e.as_slice(), assets.len(), e.len());
        assert(rest@ =~= e@.skip(assets@.len() as int));
        let ad = chars_of(assets_dir);
        return safe_join_chars(ad.as_slice(), rest.as_slice());
    }
    None
}

/// Progress for the shared libraries and assets is reported for every 25th
/// file and for the last one.
pub fn should_report_copy_progress(i: usize, total: usize) -> (r: bool)
    requires
        i < total,
    ensures
        r == (i % 25 == 0 || i + 1 == total),
{
    i % 25 == 0 || i + 1 == total
}

/// Total size of the packed files; `None` when it does not fit in a `u64`.
pub fn total_size(sizes: &Vec<u64>) -> (t: Option<u64>)
    ensures
        t matches Some(v) ==> v == sum_sizes(sizes@),
        t is None ==> sum_sizes(sizes@) > u64::MAX,
{
    let mut t: u64 = 0;
    let mut i: usize = 0;
    while i < sizes.len()
        invariant
            i <= sizes@.len(),
            t == sum_sizes(sizes@.take(i as int)),
        decreases sizes@.len() - i,
    {
        proof {
            assert(sizes@.take(i + 1).drop_last() =~= sizes@.take(i as int));
            lemma_sum_prefix(sizes@, i + 1);
        }
        match t.checked_add(sizes[i]) {
            Some(v) => t = v,
            None => return None,
        }
        i = i + 1;
    }
    assert(sizes@.take(sizes@.len() as int) =~= sizes@);
    Some(t)
}

/// A prefix sums to no more than the whole list.
proof fn lemma_sum_prefix(s: Seq<u64>, k: int)
    requires
        0 <= k <= s.len(),
    ensures
        sum_sizes(s.take(k)) <= sum_sizes(s),
    decreases s.len() - k,
{
    if k < s.len() {
        lemma_sum_prefix(s, k + 1);
        assert(s.take(k + 1).drop_last() =~= s.take(k));
    } else {
        assert(s.take(k) =~= s);
    }
}

/// The manifest of a full pack.
pub fn full_pack_manifest(
    name: &str,
    meta: &ExportModpackMeta,
    mc_version: &str,
    mod_loader_type: ModLoaderType,
    mod_loader_version: &str,
    file_count: usize,
    total_size: u64,
) -> (m: FullPackManifest)
    ensures
        m.format_version == 1,
        m.name@ == name@,
        m.version@ == meta.version@,
        opt_chars(m.description) == opt_chars(meta.description),
        opt_chars(m.author) == Some(meta.author@),
        m.minecraft_version@ == mc_version@,
        m.mod_loader.loader_type == mod_loader_type,
        m.mod_loader.version@ == mod_loader_version@,
        m.file_count == file_count,
        m.total_size == total_size,
{
    let description = match &meta.description {
        Some(d) => Some(d.clone()),
        None => None,
    };
    FullPackManifest {
        format_version: 1,
        name: string_of(chars_of(name).as_slice()),
        version: meta.version.clone(),
        description,
        author: Some(meta.author.clone()),
        minecraft_version: string_of(chars_of(mc_version).as_slice()),
        mod_loader: ModLoader {
            loader_type: mod_loader_type,
            version: string_of(chars_of(mod_loader_version).as_slice()),
        },
        file_count,
        total_size,
    }
}

/// Only format version 1 is imported.
pub fn check_full_pack_format(format_version: u32) -> (r: Result<(), InstanceError>)
    ensures
        r is Ok <==> format_version == 1,
        r is Err ==> r == Err::<(), InstanceError>(InstanceError::ModpackManifestParseError),
{
    if format_version != 1 {
        Err(InstanceError::ModpackManifestParseError)
    } else {
        Ok(())
    }
}

/// A JSON text with its top-level field `key` set to the string `value`,
/// pretty-printed, if the text parses (a text that is no object keeps its
/// fields).
pub uninterp spec fn json_with_field_of(text: Seq<char>, key: Seq<char>, value: Seq<char>) -> Option<
    Seq<char>,
>;

/// `serde_json::from_str` into a `serde_json::Value`, `Map::insert` of the
/// field when the value is an object, then `serde_json::to_string_pretty`.
/// Claimed: the result depends on the three strings alone.
#[verifier::external_body]
fn json_with_field(text: &str, key: &str, value: &str) -> (r: Option<String>)
    ensures
        opt_chars(r) == json_with_field_of(text@, key@, value@),
{
    let mut v: serde_json::Value = serde_json::from_str(text).ok()?;
    if let Some(obj) = v.as_object_mut() {
        obj.insert(key.to_string(), serde_json::Value::String(value.to_string()));
    }
    Some(serde_json::to_string_pretty(&v).unwrap_or_else(|_| text.to_string()))
}

/// The text of an imported instance's `xmclcfg.json` with its `id` set to
/// the instance's new id; `None` when the text is no JSON, and the file is
/// then left as it is.
pub fn instance_config_with_id(raw: &str, new_id: &str) -> (r: Option<String>)
    ensures
        opt_chars(r) == json_with_field_of(raw@, "id"@, new_id@),
{
    json_with_field(raw, "id", new_id)
}

/// The id of an imported instance: `<gameDirectoryName>:<instanceName>`.
pub fn full_pack_instance_id(directory_name: &str, name: &str) -> (r: String)
    ensures
        r@ == directory_name@ + ":"@ + name@,
{
    let mut v = chars_of(directory_name);
    append_lit(&mut v, ":");
    let n = chars_of(name);
    append_chars(&mut v, n.as_slice());
    string_of(v.as_slice())
}

// ---------------------------------------------------------------------------
// Laws
// ---------------------------------------------------------------------------

/// What export writes under `instance/<name>/` is extracted on import to the
/// same relative path under the version directory.
pub proof fn law_instance_entry_roundtrip(
    name: Seq<char>,
    rel: Seq<char>,
    version_path: Seq<char>,
    libraries_dir: Seq<char>,
    assets_dir: Seq<char>,
)
    ensures
        spec_route_pack_entry(
            spec_instance_entry_name(name, rel),
            name,
            version_path,
            libraries_dir,
            assets_dir,
        ) == spec_safe_join(version_path, rel),
{
    let ip = "instance/"@ + name + "/"@;
    let e = spec_instance_entry_name(name, rel);
    assert(e =~= ip + rel);
    assert(e.subrange(0, ip.len() as int) =~= ip);
    assert(e.skip(ip.len() as int) =~= rel);
}

/// What export writes under `libraries/` and `assets/` is extracted on
/// import to the same relative path under the shared directories.
pub proof fn law_shared_entry_roundtrip(
    name: Seq<char>,
    rel: Seq<char>,
    version_path: Seq<char>,
    libraries_dir: Seq<char>,
    assets_dir: Seq<char>,
)
    ensures
        spec_route_pack_entry("libraries/"@ + rel, name, version_path, libraries_dir, assets_dir)
            == spec_safe_join(libraries_dir, rel),
        spec_route_pack_entry("assets/"@ + rel, name, version_path, libraries_dir, assets_dir)
            == spec_safe_join(assets_dir, rel),
{
    reveal_strlit("instance/");
    reveal_strlit("libraries/");
    reveal_strlit("assets/");
    let ip = "instance/"@ + name + "/"@;
    let l = "libraries/"@ + rel;
    let a = "assets/"@ + rel;
    assert(ip[0] == 'i');
    assert(l[0] == 'l');
    assert(a[0] == 'a');
    assert(!starts_with(l, ip)) by {
        if starts_with(l, ip) {
            assert(l.subrange(0, ip.len() as int)[0] == ip[0]);
        }
    }
    assert(!starts_with(a, ip)) by {
        if starts_with(a, ip) {
            assert(a.subrange(0, ip.len() as int)[0] == ip[0]);
        }
    }
    assert(l.subrange(0, 10) =~= "libraries/"@);
    assert(l.skip(10) =~= rel);
    assert(!starts_with(a, "libraries/"@)) by {
        if starts_with(a, "libraries/"@) {
            assert(a.subrange(0, 10)[0] == 'l');
        }
    }
    assert(a.subrange(0, 7) =~= "assets/"@);
    assert(a.skip(7) =~= rel);
}

/// Import writes nowhere but under its three directories: an entry it
/// extracts lands under the version directory (instance entries), the
/// libraries directory or the assets directory, joined with a normalised
/// relative path that holds no `..`.
pub proof fn law_import_stays_inside(
    entry: Seq<char>,
    name: Seq<char>,
    version_path: Seq<char>,
    libraries_dir: Seq<char>,
    assets_dir: Seq<char>,
)
    requires
        spec_route_pack_entry(entry, name, version_path, libraries_dir, assets_dir) is Some,
    ensures
        ({
            let t = spec_route_pack_entry(entry, name, version_path, libraries_dir, assets_dir)->0;
            let ip = "instance/"@ + name + "/"@;
            &&& starts_with(entry, ip) ==> starts_with(t, version_path)
            &&& !starts_with(entry, ip) && starts_with(entry, "libraries/"@) ==> starts_with(
                t,
                libraries_dir,
            )
            &&& !starts_with(entry, ip) && !starts_with(entry, "libraries/"@) ==> starts_with(
                t,
                assets_dir,
            )
            &&& exists|base: Seq<char>, n: Seq<char>|
                #![trigger spec_join_path(base, n)]
                t == spec_join_path(base, n) && spec_normalize_relative_path(n) == Some(n)
                    && !split(n, '/').contains(dot_dot())
        }),
{
    let ip = "instance/"@ + name + "/"@;
    let t = spec_route_pack_entry(entry, name, version_path, libraries_dir, assets_dir)->0;
    if starts_with(entry, ip) {
        let rel = entry.skip(ip.len() as int);
        law_safe_join_stays_inside(version_path, rel);
        let n = spec_normalize_relative_path(rel)->0;
        assert(t == spec_join_path(version_path, n));
    } else if starts_with(entry, "libraries/"@) {
        let rel = entry.skip("libraries/"@.len() as int);
        law_safe_join_stays_inside(libraries_dir, rel);
        let n = spec_normalize_relative_path(rel)->0;
        assert(t == spec_join_path(libraries_dir, n));
    } else {
        let rel = entry.skip("assets/"@.len() as int);
        law_safe_join_stays_inside(assets_dir, rel);
        let n = spec_normalize_relative_path(rel)->0;
        assert(t == spec_join_path(assets_dir, n));
    }
}

/// The packed list holds no path twice when the present core files are
/// distinct, and every packed path beyond them is normalised and no core file.
pub proof fn law_pack_plan_distinct(name: Seq<char>, core: Seq<Seq<char>>, sel: Seq<Seq<char>>)
    requires
        core.no_duplicates(),
    ensures
        spec_pack_plan(name, core, sel).1.no_duplicates(),
        spec_pack_plan(name, core, sel).1.len() >= core.len(),
        spec_pack_plan(name, core, sel).1.take(core.len() as int) == core,
        forall|i: int|
            core.len() <= i < spec_pack_plan(name, core, sel).1.len() ==> {
                let p = #[trigger] spec_pack_plan(name, core, sel).1[i];
                &&& spec_normalize_relative_path(p) == Some(p)
                &&& !spec_is_core_file(name, p)
            },
    decreases sel.len(),
{
    if sel.len() > 0 {
        law_pack_plan_distinct(name, core, sel.drop_last());
        lemma_pack_plan_seen(name, core, sel.drop_last());
        let prev = spec_pack_plan(name, core, sel.drop_last());
        match spec_normalize_relative_path(sel.last()) {
            None => {},
            Some(n) => {
                crate::paths::law_normalize_idempotent(sel.last());
                if !prev.0.contains(n) && !spec_is_core_file(name, n) {
                    assert(!prev.1.contains(n));
                    assert(prev.1.push(n).take(core.len() as int) =~= prev.1.take(
                        core.len() as int,
                    ));
                }
            },
        }
    } else {
        assert(core.take(core.len() as int) =~= core);
    }
}

/// Every packed path has been seen.
proof fn lemma_pack_plan_seen(name: Seq<char>, core: Seq<Seq<char>>, sel: Seq<Seq<char>>)
    ensures
        forall|i: int|
            0 <= i < spec_pack_plan(name, core, sel).1.len() ==> spec_pack_plan(
                name,
                core,
                sel,
            ).0.contains(#[trigger] spec_pack_plan(name, core, sel).1[i]),
    decreases sel.len(),
{
    if sel.len() > 0 {
        lemma_pack_plan_seen(name, core, sel.drop_last());
        let prev = spec_pack_plan(name, core, sel.drop_last());
        let cur = spec_pack_plan(name, core, sel);
        assert forall|i: int| 0 <= i < cur.1.len() implies cur.0.contains(#[trigger] cur.1[i]) by {
            if i < prev.1.len() {
                assert(cur.1[i] == prev.1[i]);
                assert(prev.0.contains(prev.1[i]));
            }
        }
    } else {
        assert forall|i: int| 0 <= i < core.len() implies core.to_set().contains(
            #[trigger] core[i],
        ) by {
            assert(core.contains(core[i]));
        }
    }
}

/// The paths seen while planning: the present core files and the
/// normalisations of the selected paths.
proof fn lemma_pack_plan_seen_exact(name: Seq<char>, core: Seq<Seq<char>>, sel: Seq<Seq<char>>)
    ensures
        forall|x: Seq<char>|
            #![trigger spec_pack_plan(name, core, sel).0.contains(x)]
            spec_pack_plan(name, core, sel).0.contains(x) <==> (core.contains(x) || exists|i: int|
                0 <= i < sel.len() && spec_normalize_relative_path(sel[i]) == Some(x)),
    decreases sel.len(),
{
    if sel.len() > 0 {
        let init = sel.drop_last();
        lemma_pack_plan_seen_exact(name, core, init);
        let prev = spec_pack_plan(name, core, init);
        let cur = spec_pack_plan(name, core, sel);
        assert forall|x: Seq<char>| cur.0.contains(x) <==> (core.contains(x) || exists|i: int|
            0 <= i < sel.len() && spec_normalize_relative_path(sel[i]) == Some(x)) by {
            if exists|i: int| 0 <= i < init.len() && spec_normalize_relative_path(init[i]) == Some(x) {
                let i = choose|i: int|
                    0 <= i < init.len() && spec_normalize_relative_path(init[i]) == Some(x);
                assert(sel[i] == init[i]);
            }
            if exists|i: int| 0 <= i < sel.len() && spec_normalize_relative_path(sel[i]) == Some(x) {
                let i = choose|i: int|
                    0 <= i < sel.len() && spec_normalize_relative_path(sel[i]) == Some(x);
                if i < init.len() {
                    assert(init[i] == sel[i]);
                } else {
                    assert(sel[i] == sel.last());
                }
            }
        }
    } else {
        assert forall|x: Seq<char>| core.to_set().contains(x) <==> core.contains(x) by {}
    }
}

/// Packing a further selected path: when it normalises to a path that is no
/// core file, not among the present core files and not the normalisation of
/// an earlier selected path, that path is packed right after everything
/// planned before. In particular one such path selected alone is packed
/// after the core files.
pub proof fn law_pack_plan_appends(
    name: Seq<char>,
    core: Seq<Seq<char>>,
    sel: Seq<Seq<char>>,
    p: Seq<char>,
)
    requires
        spec_normalize_relative_path(p) is Some,
        !spec_is_core_file(name, spec_normalize_relative_path(p)->0),
        !core.contains(spec_normalize_relative_path(p)->0),
        forall|i: int|
            0 <= i < sel.len() ==> spec_normalize_relative_path(#[trigger] sel[i])
                != spec_normalize_relative_path(p),
    ensures
        spec_pack_plan(name, core, sel.push(p)).1 == spec_pack_plan(name, core, sel).1.push(
            spec_normalize_relative_path(p)->0,
        ),
        spec_pack_plan(name, core, seq![p]).1 == core.push(spec_normalize_relative_path(p)->0),
{
    let n = spec_normalize_relative_path(p)->0;
    lemma_pack_plan_seen_exact(name, core, sel);
    let prev = spec_pack_plan(name, core, sel);
    if prev.0.contains(n) {
        let i = choose|i: int| 0 <= i < sel.len() && spec_normalize_relative_path(sel[i]) == Some(n);
        assert(spec_normalize_relative_path(sel[i]) != spec_normalize_relative_path(p));
    }
    assert(sel.push(p).drop_last() =~= sel);
    assert(sel.push(p).last() == p);
    let e = Seq::<Seq<char>>::empty();
    lemma_pack_plan_seen_exact(name, core, e);
    assert(e.push(p) =~= seq![p]);
    assert(e.push(p).drop_last() =~= e);
    assert(!spec_pack_plan(name, core, e).0.contains(n));
}

/// Packing a selected path that cannot be normalised, or whose
/// normalisation is a core file or was seen before, changes nothing packed.
pub proof fn law_pack_plan_skips(
    name: Seq<char>,
    core: Seq<Seq<char>>,
    sel: Seq<Seq<char>>,
    p: Seq<char>,
)
    requires
        spec_normalize_relative_path(p) is None || spec_is_core_file(
            name,
            spec_normalize_relative_path(p)->0,
        ) || core.contains(spec_normalize_relative_path(p)->0) || exists|i: int|
            0 <= i < sel.len() && spec_normalize_relative_path(sel[i])
                == spec_normalize_relative_path(p),
    ensures
        spec_pack_plan(name, core, sel.push(p)).1 == spec_pack_plan(name, core, sel).1,
{
    lemma_pack_plan_seen_exact(name, core, sel);
    assert(sel.push(p).drop_last() =~= sel);
    assert(sel.push(p).last() == p);
    if spec_normalize_relative_path(p) is Some {
        let n = spec_normalize_relative_path(p)->0;
        if exists|i: int| 0 <= i < sel.len() && spec_normalize_relative_path(sel[i])
            == spec_normalize_relative_path(p) {
            let i = choose|i: int|
                0 <= i < sel.len() && spec_normalize_relative_path(sel[i])
                    == spec_normalize_relative_path(p);
            assert(spec_pack_plan(name, core, sel).0.contains(n));
        }
    }
}

/// Export then import: every file the full pack packs (the present core
/// files, then the selection as planned) is written under
/// `instance/<name>/` and extracted on import to the same relative path
/// joined onto the version directory.
pub proof fn law_full_pack_roundtrip(
    name: Seq<char>,
    core: Seq<Seq<char>>,
    sel: Seq<Seq<char>>,
    version_path: Seq<char>,
    libraries_dir: Seq<char>,
    assets_dir: Seq<char>,
)
    requires
        core.no_duplicates(),
        forall|i: int| 0 <= i < core.len() ==> spec_normalize_relative_path(#[trigger] core[i]) == Some(core[i]),
    ensures
        forall|i: int|
            0 <= i < spec_pack_plan(name, core, sel).1.len() ==> spec_route_pack_entry(
                spec_instance_entry_name(name, #[trigger] spec_pack_plan(name, core, sel).1[i]),
                name,
                version_path,
                libraries_dir,
                assets_dir,
            ) == Some(spec_join_path(version_path, spec_pack_plan(name, core, sel).1[i])),
{
    let plan = spec_pack_plan(name, core, sel).1;
    law_pack_plan_distinct(name, core, sel);
    assert forall|i: int| 0 <= i < plan.len() implies spec_route_pack_entry(
        spec_instance_entry_name(name, #[trigger] plan[i]),
        name,
        version_path,
        libraries_dir,
        assets_dir,
    ) == Some(spec_join_path(version_path, plan[i])) by {
        law_instance_entry_roundtrip(name, plan[i], version_path, libraries_dir, assets_dir);
        if i < core.len() {
            assert(plan.take(core.len() as int)[i] == plan[i]);
            assert(core[i] == plan[i]);
        }
    }
}

/// Core files are never offered in the full-export file tree (they are
/// always packed instead).
pub proof fn law_core_files_not_listed(name: Seq<char>, rel: Seq<char>)
    ensures
        spec_is_core_file(name, rel) ==> !spec_is_full_export_entry(name, rel),
{
}

} // verus!
