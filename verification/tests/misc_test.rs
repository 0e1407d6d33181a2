use xmcl::error::XMCLError;
use xmcl::export_curseforge::curseforge_lookup_keys;
use xmcl::hashes::{curseforge_fingerprint, filter_fingerprint_whitespace, sha1_hex, sha512_hex};
use xmcl::openlist::{
    browse_params, download_already_complete, download_source, openlist_raw_url, task_group_prefix,
    BrowseRequest,
};
use xmcl::proxy::{proxy_plan, proxy_test_passed, proxy_url, ProxyPlan, ProxyType};

#[test]
fn sha_digests_in_hex() {
    assert_eq!(sha1_hex(b"abc"), "a9993e364706816aba3e25717850c26c9cd0d89d");
    assert_eq!(
        sha512_hex(b"abc"),
        "ddaf35a193617abacc417349ae20413112e6fa4e89a97ea20a9eeee64b55d39a2192992a274fc1a836ba3c23a3feebbd454d4423643ce80e2a9ac94fa54ca49f"
    );
}

#[test]
fn fingerprint_ignores_whitespace() {
    assert_eq!(filter_fingerprint_whitespace(b"a b\tc\r\nd"), b"abcd".to_vec());
    assert_eq!(curseforge_fingerprint(b"a b\nc"), curseforge_fingerprint(b"abc"));
    assert_ne!(curseforge_fingerprint(b"abc"), curseforge_fingerprint(b"abd"));
    assert_eq!(curseforge_fingerprint(b"abc"), murmur2::murmur2(b"abc", 1) as u64);
    let (sha1, fp) = curseforge_lookup_keys(b"abc");
    assert_eq!(sha1, "a9993e364706816aba3e25717850c26c9cd0d89d");
    assert_eq!(fp, curseforge_fingerprint(b"abc"));
}

#[test]
fn proxy_decisions() {
    assert!(matches!(proxy_plan(false, true, ProxyType::Http, "h", 1), ProxyPlan::NotTested));
    assert!(matches!(proxy_plan(true, true, ProxyType::Http, "", 0), ProxyPlan::SystemProxy));
    assert!(matches!(proxy_plan(true, false, ProxyType::Http, "", 8080), ProxyPlan::NotTested));
    assert!(matches!(proxy_plan(true, false, ProxyType::Http, "h", 0), ProxyPlan::NotTested));
    match proxy_plan(true, false, ProxyType::Socks, "127.0.0.1", 1080) {
        ProxyPlan::Manual(u) => assert_eq!(u, "socks5://127.0.0.1:1080"),
        _ => panic!("expected a manual proxy"),
    }
    assert_eq!(proxy_url(ProxyType::Http, "proxy", 65535), "http://proxy:65535");
    assert!(proxy_test_passed(Some(204)));
    assert!(!proxy_test_passed(Some(407)));
    assert!(!proxy_test_passed(None));
}

#[test]
fn openlist_decisions() {
    let req = BrowseRequest { path: "/packs".to_string(), page: None, per_page: Some(20) };
    assert_eq!(browse_params(&req), ("/packs".to_string(), 1, 20));
    assert!(download_already_complete(Some(10), 10));
    assert!(!download_already_complete(Some(9), 10));
    assert!(!download_already_complete(None, 10));
    assert_eq!(
        openlist_raw_url(403, "denied", None),
        Err(XMCLError("获取文件信息失败: denied (403)".to_string()))
    );
    assert_eq!(
        openlist_raw_url(-1, "x", Some("u".to_string())),
        Err(XMCLError("获取文件信息失败: x (-1)".to_string()))
    );
    assert_eq!(
        openlist_raw_url(200, "ok", None),
        Err(XMCLError("API 响应中未找到 raw_url 字段".to_string()))
    );
    assert_eq!(openlist_raw_url(200, "ok", Some("https://f/raw".to_string())), Ok("https://f/raw".to_string()));
    assert_eq!(task_group_prefix("pack.zip"), "openlist:pack.zip");
}

#[test]
fn download_source_url() {
    assert_eq!(download_source("https://f.example/raw?x=1"), Ok("https://f.example/raw?x=1".to_string()));
    assert_eq!(download_source("HTTPS://F.example"), Ok("https://f.example/".to_string()));
    match download_source("no url") {
        Err(e) => assert!(e.0.starts_with("无效的下载 URL: ") && e.0.len() > "无效的下载 URL: ".len()),
        Ok(_) => panic!("expected an error"),
    }
}
