//! The MultiMC export: the component list of `mmc-pack.json` and the text
//! of `instance.cfg`.
use vstd::prelude::*;
use crate::export_curseforge::spec_curseforge_loader_id;
use crate::export_modrinth::spec_modrinth_loader_key;
use crate::models::{same_loader, ModLoaderType};
use crate::paths::opt_chars;
use crate::text::{
    append_chars, append_lit, chars_of, contains_str, decimal, occurs_at, push_decimal, starts_with,
    string_of,
};

verus! {

/// One component of a MultiMC `mmc-pack.json`.
#[derive(Debug, Clone)]
pub struct MultiMcComponent {
    pub uid: String,
    pub version: Option<String>,
    pub cached_name: Option<String>,
    pub cached_version: Option<String>,
    pub important: Option<bool>,
    pub cached_requires: Option<Vec<String>>,
    pub cached_volatile: Option<bool>,
    pub dependency_only: Option<bool>,
}

/// MultiMC uid and display name of a mod loader.
pub open spec fn spec_loader_uid(t: ModLoaderType) -> Option<(&'static str, &'static str)> {
    match t {
        ModLoaderType::Fabric => Some(("net.fabricmc.fabric-loader", "Fabric Loader")),
        ModLoaderType::Forge | ModLoaderType::LegacyForge => Some(("net.minecraftforge", "Forge")),
        ModLoaderType::NeoForge => Some(("net.neoforged", "NeoForge")),
        ModLoaderType::Quilt => Some(("org.quiltmc.quilt-loader", "Quilt Loader")),
        _ => None,
    }
}

/// Minimum memory written to `instance.cfg`: the user's value, 512 MiB by default.
pub open spec fn spec_min_memory(min_memory: Option<u32>) -> int {
    match min_memory {
        Some(m) => m as int,
        None => 512,
    }
}

/// Maximum memory: twice the minimum, and at least 4096 MiB.
pub open spec fn spec_max_memory(min_memory: Option<u32>) -> int {
    let m = spec_min_memory(min_memory);
    if m * 2 > 4096 {
        m * 2
    } else {
        4096
    }
}

/// Text of `instance.cfg`.
pub open spec fn spec_instance_cfg(name: Seq<char>, min_memory: Option<u32>) -> Seq<char> {
    "InstanceType=OneSix\nname="@ + name + "\nJvmArgs=\nMaxMemAlloc="@ + decimal(
        spec_max_memory(min_memory) as nat,
    ) + "\nMinMemAlloc="@ + decimal(spec_min_memory(min_memory) as nat) + "\n"@
}

fn loader_uid(loader_type: ModLoaderType) -> (r: Option<(&'static str, &'static str)>)
    ensures
        r == spec_loader_uid(loader_type),
{
    match loader_type {
        ModLoaderType::Fabric => Some(("net.fabricmc.fabric-loader", "Fabric Loader")),
        ModLoaderType::Forge | ModLoaderType::LegacyForge => Some(("net.minecraftforge", "Forge")),
        ModLoaderType::NeoForge => Some(("net.neoforged", "NeoForge")),
        ModLoaderType::Quilt => Some(("org.quiltmc.quilt-loader", "Quilt Loader")),
        _ => None,
    }
}

/// A string copy of `s`.
fn owned(s: &str) -> (r: String)
    ensures
        r@ == s@,
{
    string_of(chars_of(s).as_slice())
}

/// The components of the pack: Minecraft itself, then the mod loader when
/// it is one MultiMC knows and its version is given.
pub fn multimc_components(
    mc_version: &str,
    mod_loader_type: ModLoaderType,
    mod_loader_version: &str,
) -> (v: Vec<MultiMcComponent>)
    ensures
        v@.len() == if spec_loader_uid(mod_loader_type) is Some && mod_loader_version@.len() > 0 {
            2int
        } else {
            1int
        },
        v@[0].uid@ == "net.minecraft"@,
        opt_chars(v@[0].version) == Some(mc_version@),
        opt_chars(v@[0].cached_name) == Some("Minecraft"@),
        opt_chars(v@[0].cached_version) == Some(mc_version@),
        v@[0].important == Some(true),
        v@[0].cached_requires is None,
        v@[0].cached_volatile is None,
        v@[0].dependency_only is None,
        v@.len() == 2 ==> {
            let (uid, name) = spec_loader_uid(mod_loader_type)->0;
            &&& v@[1].uid@ == uid@
            &&& opt_chars(v@[1].version) == Some(mod_loader_version@)
            &&& opt_chars(v@[1].cached_name) == Some(name@)
            &&& opt_chars(v@[1].cached_version) == Some(mod_loader_version@)
            &&& v@[1].important is None
            &&& v@[1].cached_requires is None
            &&& v@[1].cached_volatile is None
            &&& v@[1].dependency_only is None
        },
{
    let mut components: Vec<MultiMcComponent> = Vec::new();
    components.push(
        MultiMcComponent {
            uid: owned("net.minecraft"),
            version: Some(owned(mc_version)),
            cached_name: Some(owned("Minecraft")),
            cached_version: Some(owned(mc_version)),
            important: Some(true),
            cached_requires: None,
            cached_volatile: None,
            dependency_only: None,
        },
    );
    if let Some((uid, name)) = loader_uid(mod_loader_type) {
        if !mod_loader_version.is_empty() {
            components.push(
                MultiMcComponent {
                    uid: owned(uid),
                    version: Some(owned(mod_loader_version)),
                    cached_name: Some(owned(name)),
                    cached_version: Some(owned(mod_loader_version)),
                    important: None,
                    cached_requires: None,
                    cached_volatile: None,
                    dependency_only: None,
                },
            );
        }
    }
    components
}

/// Text of `instance.cfg` for an instance called `name`.
pub fn instance_cfg(name: &str, min_memory: Option<u32>) -> (r: String)
    ensures
        r@ == spec_instance_cfg(name@, min_memory),
{
    let min_mem: u64 = match min_memory {
        Some(m) => m as u64,
        None => 512,
    };
    let doubled: u64 = min_mem * 2;
    let max_mem: u64 = if doubled > 4096 {
        doubled
    } else {
        4096
    };
    let mut v = chars_of("InstanceType=OneSix\nname=");
    let n = chars_of(name);
    append_chars(&mut v, n.as_slice());
    append_lit(&mut v, "\nJvmArgs=\nMaxMemAlloc=");
    push_decimal(&mut v, max_mem);
    append_lit(&mut v, "\nMinMemAlloc=");
    push_decimal(&mut v, min_mem);
    append_lit(&mut v, "\n");
    string_of(v.as_slice())
}

/// The zip entry name of a packed instance file: `.minecraft/<rel>`.
pub fn minecraft_entry_name(rel_path: &str) -> (r: String)
    ensures
        r@ == ".minecraft/"@ + rel_path@,
{
    let mut v = chars_of(".minecraft/");
    append_chars(&mut v, chars_of(rel_path).as_slice());
    string_of(v.as_slice())
}

/// The maximum memory written is never below the minimum, nor below 4096 MiB.
pub proof fn law_max_memory_covers_min(min_memory: Option<u32>)
    ensures
        spec_max_memory(min_memory) >= spec_min_memory(min_memory),
        spec_max_memory(min_memory) >= 4096,
{
}

/// What each exporter writes for a loader: the Modrinth dependency key,
/// the MultiMC uid and display name, and the CurseForge loader id.
proof fn lemma_loader_entries(t: ModLoaderType, v: Seq<char>)
    ensures
        t == ModLoaderType::Unknown ==> spec_modrinth_loader_key(t) is None && spec_loader_uid(t) is None
            && spec_curseforge_loader_id(t, v).len() == 0,
        t == ModLoaderType::Fabric ==> spec_modrinth_loader_key(t) == Some("fabric-loader")
            && spec_loader_uid(t) == Some(("net.fabricmc.fabric-loader", "Fabric Loader"))
            && spec_curseforge_loader_id(t, v) == "fabric-"@ + v,
        t == ModLoaderType::Forge || t == ModLoaderType::LegacyForge ==> spec_modrinth_loader_key(t)
            == Some("forge") && spec_loader_uid(t) == Some(("net.minecraftforge", "Forge"))
            && spec_curseforge_loader_id(t, v) == "forge-"@ + v,
        t == ModLoaderType::NeoForge ==> spec_modrinth_loader_key(t) == Some("neoforge")
            && spec_loader_uid(t) == Some(("net.neoforged", "NeoForge"))
            && spec_curseforge_loader_id(t, v) == "neoforge-"@ + v,
        t == ModLoaderType::Quilt ==> spec_modrinth_loader_key(t) == Some("quilt-loader")
            && spec_loader_uid(t) == Some(("org.quiltmc.quilt-loader", "Quilt Loader"))
            && spec_curseforge_loader_id(t, v) == "quilt-"@ + v,
{
}

/// The three exporters agree on the mod loaders: each knows exactly the
/// loaders other than `Unknown` (the CurseForge id is non-empty for them
/// when a version is given), each tells different loaders apart and gives
/// Forge and LegacyForge the same entry, the Modrinth key occurs in the
/// MultiMC uid, and the CurseForge id is `<word>-<version>` for a word that
/// begins the Modrinth key.
pub proof fn law_loader_tables_agree(t: ModLoaderType, u: ModLoaderType, v: Seq<char>)
    requires
        v.len() > 0,
    ensures
        spec_modrinth_loader_key(t) is Some <==> t != ModLoaderType::Unknown,
        spec_loader_uid(t) is Some <==> t != ModLoaderType::Unknown,
        spec_curseforge_loader_id(t, v).len() > 0 <==> t != ModLoaderType::Unknown,
        t != ModLoaderType::Unknown && u != ModLoaderType::Unknown ==> {
            &&& (spec_modrinth_loader_key(t)->0@ == spec_modrinth_loader_key(u)->0@ <==> same_loader(t, u))
            &&& ((spec_loader_uid(t)->0).0@ == (spec_loader_uid(u)->0).0@ <==> same_loader(t, u))
            &&& (spec_curseforge_loader_id(t, v) == spec_curseforge_loader_id(u, v) <==> same_loader(t, u))
        },
        t != ModLoaderType::Unknown ==> contains_str(
            (spec_loader_uid(t)->0).0@,
            spec_modrinth_loader_key(t)->0@,
        ),
        t != ModLoaderType::Unknown ==> exists|w: Seq<char>|
            #![trigger starts_with(spec_modrinth_loader_key(t)->0@, w)]
            w.len() > 0 && starts_with(spec_modrinth_loader_key(t)->0@, w)
                && spec_curseforge_loader_id(t, v) == w + "-"@ + v,
{
    reveal_strlit("fabric-loader");
    reveal_strlit("forge");
    reveal_strlit("neoforge");
    reveal_strlit("quilt-loader");
    reveal_strlit("net.fabricmc.fabric-loader");
    reveal_strlit("net.minecraftforge");
    reveal_strlit("net.neoforged");
    reveal_strlit("org.quiltmc.quilt-loader");
    reveal_strlit("fabric-");
    reveal_strlit("forge-");
    reveal_strlit("neoforge-");
    reveal_strlit("quilt-");
    reveal_strlit("fabric");
    reveal_strlit("quilt");
    reveal_strlit("-");
    lemma_loader_entries(t, v);
    lemma_loader_entries(u, v);
    let fab = "fabric-"@ + v;
    let frg = "forge-"@ + v;
    let neo = "neoforge-"@ + v;
    let qlt = "quilt-"@ + v;
    assert(fab[0] == 'f' && fab[1] == 'a');
    assert(frg[0] == 'f' && frg[1] == 'o');
    assert(neo[0] == 'n');
    assert(qlt[0] == 'q');
    match t {
        ModLoaderType::Fabric => {
            let key = "fabric-loader"@;
            let uid = "net.fabricmc.fabric-loader"@;
            assert(uid.subrange(13, 26) =~= key);
            assert(occurs_at(uid, key, 13));
            let w = "fabric"@;
            assert(key.subrange(0, 6) =~= w);
            assert(fab =~= w + "-"@ + v);
            assert(starts_with(key, w));
        },
        ModLoaderType::Forge | ModLoaderType::LegacyForge => {
            let key = "forge"@;
            let uid = "net.minecraftforge"@;
            assert(uid.subrange(13, 18) =~= key);
            assert(occurs_at(uid, key, 13));
            assert(key.subrange(0, 5) =~= key);
            assert(frg =~= key + "-"@ + v);
            assert(starts_with(key, key));
        },
        ModLoaderType::NeoForge => {
            let key = "neoforge"@;
            let uid = "net.neoforged"@;
            assert(uid.subrange(4, 12) =~= key);
            assert(occurs_at(uid, key, 4));
            assert(key.subrange(0, 8) =~= key);
            assert(neo =~= key + "-"@ + v);
            assert(starts_with(key, key));
        },
        ModLoaderType::Quilt => {
            let key = "quilt-loader"@;
            let uid = "org.quiltmc.quilt-loader"@;
            assert(uid.subrange(12, 24) =~= key);
            assert(occurs_at(uid, key, 12));
            let w = "quilt"@;
            assert(key.subrange(0, 5) =~= w);
            assert(qlt =~= w + "-"@ + v);
            assert(starts_with(key, w));
        },
        ModLoaderType::Unknown => {},
    }
}

} // verus!
