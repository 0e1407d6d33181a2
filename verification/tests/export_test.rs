use xmcl::export_common::{
    categorize, export_entry, file_name_of, is_listed_entry, is_remotely_matchable,
    should_match_remotely,
};
use xmcl::export_curseforge::{
    curseforge_loader_id, curseforge_match_outcome, curseforge_mod_loaders, match_progress_name,
    split_match_results, verify_curseforge_match, CurseForgeFileHash,
    CurseForgeFiles, CurseForgeFingerprintFile, CurseForgeMatchResult,
};
use xmcl::export_fullzip::{
    check_full_pack_format, core_file_candidates, full_pack_instance_id, instance_config_with_id,
    instance_entry_name, is_core_file,
    is_full_export_entry, plan_full_pack_files, route_pack_entry, selected_source_path,
    first_existing, should_compress, should_report_copy_progress, total_size,
};
use xmcl::export_modrinth::{
    client_override_entry_name, curseforge_lookup_wanted, modrinth_dependencies, modrinth_downloads, modrinth_env,
    modrinth_match_outcome, split_modrinth_results, ModrinthMatchResult,
};
use xmcl::export_multimc::{instance_cfg, minecraft_entry_name, multimc_components};
use xmcl::models::{FileCategory, InstanceError, ModLoaderType};

#[test]
fn categorize_normal_directories() {
    assert_eq!(categorize("logs", true), FileCategory::Normal);
    assert_eq!(categorize("logs/latest.log", false), FileCategory::Normal);
    assert_eq!(categorize("saves/World/level.dat", false), FileCategory::Normal);
    assert_eq!(categorize(".fabric", true), FileCategory::Normal);
}

#[test]
fn categorize_suggested_content() {
    assert_eq!(categorize("mods", true), FileCategory::Suggested);
    assert_eq!(categorize("mods/sodium.jar", false), FileCategory::Suggested);
    assert_eq!(categorize("config/sodium.json", false), FileCategory::Suggested);
}

#[test]
fn categorize_normal_files_and_extensions() {
    assert_eq!(categorize("options.txt", false), FileCategory::Normal);
    assert_eq!(categorize("config/._hidden", false), FileCategory::Normal);
    assert_eq!(categorize("config/old.bak", false), FileCategory::Normal);
    assert_eq!(categorize("servers.dat_old", false), FileCategory::Normal);
    // a directory called like a normal file is still suggested
    assert_eq!(categorize("options.txt", true), FileCategory::Suggested);
}

#[test]
fn categorize_voxel_mods_and_natives() {
    assert_eq!(categorize("mods/VoxelMods/x.json", false), FileCategory::Normal);
    assert_eq!(categorize("mods\\VoxelMods\\x.json", false), FileCategory::Normal);
    assert_eq!(categorize("lwjgl-natives", true), FileCategory::Normal);
    assert_eq!(categorize("bin/x_natives", true), FileCategory::Normal);
    assert_eq!(categorize("lwjgl-natives", false), FileCategory::Suggested);
}

#[test]
fn categorize_backslashes_like_slashes() {
    assert_eq!(categorize("logs\\latest.txt", false), categorize("logs/latest.txt", false));
    assert_eq!(categorize("mods\\a.jar", false), FileCategory::Suggested);
}

#[test]
fn entry_sizes_and_paths() {
    let e = export_entry("config\\a.toml", false, 42);
    assert_eq!(e.relative_path, "config/a.toml");
    assert_eq!(e.file_size, 42);
    assert!(!e.is_directory);
    let d = export_entry("config", true, 4096);
    assert_eq!(d.file_size, 0);
    assert_eq!(d.category, FileCategory::Suggested);
}

#[test]
fn file_names() {
    assert_eq!(file_name_of("mods/a.jar"), "a.jar");
    assert_eq!(file_name_of("a.jar"), "a.jar");
    assert_eq!(file_name_of("mods/"), "");
}

#[test]
fn remote_lookup_gate_and_hidden_entries() {
    assert!(should_match_remotely(None, "mods/a.jar"));
    assert!(should_match_remotely(Some(false), "shaderpacks\\s.zip"));
    assert!(!should_match_remotely(Some(true), "mods/a.jar"));
    assert!(!should_match_remotely(None, "config/a.toml"));
    assert!(is_listed_entry("mods"));
    assert!(!is_listed_entry(".fabric"));
    assert!(!is_listed_entry(".DS_Store"));
}

#[test]
fn remote_matching_directories() {
    assert!(is_remotely_matchable("mods/a.jar"));
    assert!(is_remotely_matchable("resourcepacks\\pack.zip"));
    assert!(is_remotely_matchable("shaderpacks/s.zip"));
    assert!(!is_remotely_matchable("config/a.toml"));
    assert!(!is_remotely_matchable("mods"));
}

#[test]
fn compression_by_extension() {
    assert!(!should_compress("mods/a.jar"));
    assert!(!should_compress("X.PNG"));
    assert!(should_compress("config/a.toml"));
    assert!(should_compress("noext"));
    assert!(!should_compress("jar"));
}

#[test]
fn core_files() {
    assert!(is_core_file("1.20", "xmclcfg.json"));
    assert!(is_core_file("1.20", "xmclcfg.json/inner"));
    assert!(is_core_file("1.20", "1.20.jar"));
    assert!(is_core_file("1.20", "1.20.json"));
    assert!(!is_core_file("1.20", "mods/1.20.jar"));
    assert!(!is_full_export_entry("1.20", "1.20.jar"));
    assert!(!is_full_export_entry("1.20", "natives-linux/x.so"));
    assert!(is_full_export_entry("1.20", "mods/a.jar"));
}

#[test]
fn source_candidates() {
    assert_eq!(
        selected_source_path("/g/versions/v", "/g", "mods/a.jar", true),
        Some(vec!["/g/versions/v/mods/a.jar".to_string()])
    );
    assert_eq!(
        selected_source_path("/g/versions/v", "/g", "mods/a.jar", false),
        Some(vec!["/g/versions/v/mods/a.jar".to_string(), "/g/mods/a.jar".to_string()])
    );
    assert_eq!(selected_source_path("/g/versions/v", "/g", "../a", false), None);
}

#[test]
fn pack_plan_dedups_and_skips_core() {
    let core = vec!["xmclcfg.json".to_string(), "v.jar".to_string()];
    let sel = vec![
        "mods/a.jar".to_string(),
        "./mods/a.jar".to_string(),
        "v.json".to_string(),
        "../evil".to_string(),
        "config/c.toml".to_string(),
        "v.jar".to_string(),
    ];
    assert_eq!(
        plan_full_pack_files("v", &core, &sel),
        vec![
            "xmclcfg.json".to_string(),
            "v.jar".to_string(),
            "mods/a.jar".to_string(),
            "config/c.toml".to_string(),
        ]
    );
}

#[test]
fn pack_entry_roundtrip() {
    let name = instance_entry_name("v", "mods/a.jar");
    assert_eq!(name, "instance/v/mods/a.jar");
    assert_eq!(
        route_pack_entry(&name, "v", "/g/versions/v", "/g/libraries", "/g/assets"),
        Some("/g/versions/v/mods/a.jar".to_string())
    );
    assert_eq!(
        route_pack_entry("libraries/org/x.jar", "v", "/g/versions/v", "/g/libraries", "/g/assets"),
        Some("/g/libraries/org/x.jar".to_string())
    );
    assert_eq!(
        route_pack_entry("assets/indexes/1.json", "v", "/g/versions/v", "/g/libraries", "/g/assets"),
        Some("/g/assets/indexes/1.json".to_string())
    );
    assert_eq!(
        route_pack_entry("xmcl-full-pack.json", "v", "/g/versions/v", "/g/libraries", "/g/assets"),
        None
    );
    assert_eq!(
        route_pack_entry("instance/v/../../x", "v", "/g/versions/v", "/g/libraries", "/g/assets"),
        None
    );
    assert_eq!(
        route_pack_entry("instance/w/a", "v", "/g/versions/v", "/g/libraries", "/g/assets"),
        None
    );
}

#[test]
fn full_pack_misc() {
    assert_eq!(check_full_pack_format(1), Ok(()));
    assert_eq!(check_full_pack_format(2), Err(InstanceError::ModpackManifestParseError));
    assert_eq!(full_pack_instance_id("Main", "v"), "Main:v");
    assert!(should_report_copy_progress(0, 3));
    assert!(!should_report_copy_progress(1, 3));
    assert!(should_report_copy_progress(2, 3));
    assert!(should_report_copy_progress(25, 100));
    assert_eq!(total_size(&vec![1, 2, 3]), Some(6));
    assert_eq!(total_size(&vec![]), Some(0));
    assert_eq!(total_size(&vec![u64::MAX, 1]), None);
    assert_eq!(total_size(&vec![u64::MAX - 1, 1]), Some(u64::MAX));
    assert_eq!(first_existing(&vec![false, true, true]), Some(1));
    assert_eq!(first_existing(&vec![true]), Some(0));
    assert_eq!(first_existing(&vec![false, false]), None);
    assert_eq!(first_existing(&vec![]), None);
}

#[test]
fn multimc_cfg_text() {
    assert_eq!(
        instance_cfg("Pack", None),
        "InstanceType=OneSix\nname=Pack\nJvmArgs=\nMaxMemAlloc=4096\nMinMemAlloc=512\n"
    );
    assert_eq!(
        instance_cfg("P", Some(3000)),
        "InstanceType=OneSix\nname=P\nJvmArgs=\nMaxMemAlloc=6000\nMinMemAlloc=3000\n"
    );
    assert_eq!(
        instance_cfg("P", Some(0)),
        "InstanceType=OneSix\nname=P\nJvmArgs=\nMaxMemAlloc=4096\nMinMemAlloc=0\n"
    );
}

#[test]
fn multimc_component_list() {
    let c = multimc_components("1.20.1", ModLoaderType::Fabric, "0.15.0");
    assert_eq!(c.len(), 2);
    assert_eq!(c[0].uid, "net.minecraft");
    assert_eq!(c[0].important, Some(true));
    assert_eq!(c[1].uid, "net.fabricmc.fabric-loader");
    assert_eq!(c[1].cached_name.as_deref(), Some("Fabric Loader"));
    assert_eq!(multimc_components("1.20.1", ModLoaderType::Forge, "").len(), 1);
    assert_eq!(multimc_components("1.20.1", ModLoaderType::Unknown, "1").len(), 1);
    let q = multimc_components("1.20.1", ModLoaderType::LegacyForge, "14.23");
    assert_eq!(q[1].uid, "net.minecraftforge");
}

#[test]
fn curseforge_loader_entries() {
    assert_eq!(curseforge_loader_id(ModLoaderType::NeoForge, "20.4"), "neoforge-20.4");
    assert_eq!(curseforge_loader_id(ModLoaderType::Quilt, "0.1"), "quilt-0.1");
    assert_eq!(curseforge_loader_id(ModLoaderType::Unknown, "0.1"), "");
    assert_eq!(curseforge_mod_loaders(ModLoaderType::Unknown, "1").len(), 0);
    let l = curseforge_mod_loaders(ModLoaderType::Fabric, "0.15");
    assert_eq!(l.len(), 1);
    assert_eq!(l[0].id, "fabric-0.15");
    assert!(l[0].primary);
}

fn fp_file(hashes: Vec<(u32, &str)>) -> CurseForgeFingerprintFile {
    CurseForgeFingerprintFile {
        id: 7,
        mod_id: 9,
        hashes: hashes
            .into_iter()
            .map(|(algo, v)| CurseForgeFileHash { algo, value: v.to_string() })
            .collect(),
    }
}

#[test]
fn curseforge_match_verification() {
    let ok = vec![fp_file(vec![(2, "zz"), (1, "ABCDEF")])];
    assert_eq!(verify_curseforge_match(&ok, "abcdef"), Some((9, 7)));
    let wrong = vec![fp_file(vec![(1, "abcdee")])];
    assert_eq!(verify_curseforge_match(&wrong, "abcdef"), None);
    let no_sha1 = vec![fp_file(vec![(2, "abcdef")])];
    assert_eq!(verify_curseforge_match(&no_sha1, "abcdef"), None);
    assert_eq!(verify_curseforge_match(&vec![], "abcdef"), None);
}

#[test]
fn curseforge_results() {
    let r = curseforge_match_outcome("mods/a.jar".to_string(), Some((1, 2)));
    assert!(matches!(r, CurseForgeMatchResult::Remote(CurseForgeFiles { project_id: 1, file_id: 2, required: true })));
    assert_eq!(match_progress_name(&r), "");
    let l = curseforge_match_outcome("mods/b.jar".to_string(), None);
    assert_eq!(match_progress_name(&l), "b.jar");
    let (files, paths) = split_match_results(vec![r, l, CurseForgeMatchResult::Local("c".to_string())]);
    assert_eq!(files.len(), 1);
    assert_eq!(paths, vec!["mods/b.jar".to_string(), "c".to_string()]);
}

#[test]
fn modrinth_parts() {
    let d = modrinth_dependencies("1.20.1", ModLoaderType::Quilt, "0.2");
    assert_eq!(d, vec![("minecraft".to_string(), "1.20.1".to_string()), ("quilt-loader".to_string(), "0.2".to_string())]);
    assert_eq!(modrinth_dependencies("1.20.1", ModLoaderType::Forge, "").len(), 1);
    assert!(modrinth_env("mods/a.jar.disabled").is_some());
    assert_eq!(modrinth_env("mods/a.jar.disabled").unwrap().server, "unsupported");
    assert!(modrinth_env("mods/a.jar").is_none());
    assert_eq!(
        modrinth_downloads(Some("m".to_string()), Some("c".to_string()), false),
        vec!["m".to_string(), "c".to_string()]
    );
    assert_eq!(
        modrinth_downloads(Some("m".to_string()), Some("c".to_string()), true),
        vec!["m".to_string()]
    );
    assert_eq!(modrinth_downloads(None, Some("c".to_string()), true), Vec::<String>::new());
    assert_eq!(modrinth_downloads(None, Some("c".to_string()), false), Vec::<String>::new());
    assert!(curseforge_lookup_wanted(true, false));
    assert!(!curseforge_lookup_wanted(true, true));
    assert!(!curseforge_lookup_wanted(false, false));
    assert_eq!(client_override_entry_name("config/a"), "client-overrides/config/a");
}

#[test]
fn modrinth_results() {
    let local = modrinth_match_outcome("a".to_string(), None, None, false, "s1".to_string(), "s5".to_string(), 3);
    assert!(matches!(local, ModrinthMatchResult::Local(ref p) if p == "a"));
    // A file CurseForge knows but Modrinth does not is packed locally.
    let cf_only = modrinth_match_outcome(
        "mods/c.jar".to_string(),
        None,
        Some("cf".to_string()),
        false,
        "s1".to_string(),
        "s5".to_string(),
        3,
    );
    assert!(matches!(cf_only, ModrinthMatchResult::Local(ref p) if p == "mods/c.jar"));
    let remote = modrinth_match_outcome(
        "mods/b.jar.disabled".to_string(),
        Some("m".to_string()),
        Some("cf".to_string()),
        false,
        "s1".to_string(),
        "s5".to_string(),
        3,
    );
    match &remote {
        ModrinthMatchResult::Remote(f) => {
            assert_eq!(f.file_size, 3);
            assert_eq!(f.downloads, vec!["m".to_string(), "cf".to_string()]);
            assert_eq!(f.hashes.sha1, "s1");
            assert!(f.env.is_some());
        }
        _ => panic!("expected a remote file"),
    }
    let (files, paths) = split_modrinth_results(vec![local, remote, ModrinthMatchResult::Local("z".to_string())]);
    assert_eq!(files.len(), 1);
    assert_eq!(files[0].path, "mods/b.jar.disabled");
    assert_eq!(paths, vec!["a".to_string(), "z".to_string()]);
}

#[test]
fn imported_config_gets_new_id() {
    assert_eq!(
        instance_config_with_id("{\"id\":\"Old:v\",\"x\":1}", "Main:v"),
        Some("{\n  \"id\": \"Main:v\",\n  \"x\": 1\n}".to_string())
    );
    assert_eq!(
        instance_config_with_id("{}", "Main:v"),
        Some("{\n  \"id\": \"Main:v\"\n}".to_string())
    );
    assert_eq!(instance_config_with_id("not json", "Main:v"), None);
}

#[test]
fn core_files_to_probe() {
    assert_eq!(
        core_file_candidates("1.20.1-fabric"),
        vec!["xmclcfg.json", "1.20.1-fabric.jar", "1.20.1-fabric.json"]
    );
    assert_eq!(minecraft_entry_name("mods/a.jar"), ".minecraft/mods/a.jar");
}

#[test]
fn metadata_json_files_are_normal() {
    assert_eq!(categorize("modrinth.index.json", false), FileCategory::Normal);
    assert_eq!(categorize("usercache.json", false), FileCategory::Normal);
    assert_eq!(categorize("config/usercache.json", false), FileCategory::Normal);
    assert_eq!(categorize("mmc-pack.json", true), FileCategory::Suggested);
    assert_eq!(categorize("config/mod.json", false), FileCategory::Suggested);
    assert_eq!(categorize(".json", false), FileCategory::Suggested);
}
