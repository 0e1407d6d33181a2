use xmcl::account::{
    add_new_player, auth_servers_need_refresh, check_offline_skin_preset, check_password_relogin,
    classify_new_players, find_relogin_player, oauth_provider, parse_auth_server_url,
    push_selected_player, remove_auth_server, remove_player, replace_player, stored_player,
    AccountError, AccountInfo, AuthServerInfo, NewPlayersOutcome, OAuthProvider, PlayerInfo,
    PlayerType,
};

fn player(id: &str, t: PlayerType, server: Option<&str>) -> PlayerInfo {
    PlayerInfo {
        id: id.to_string(),
        name: format!("name-{}", id),
        uuid: format!("uuid-{}", id),
        player_type: t,
        auth_account: None,
        auth_server_url: server.map(|s| s.to_string()),
    }
}

fn account(players: Vec<PlayerInfo>, servers: Vec<&str>) -> AccountInfo {
    AccountInfo {
        players,
        auth_servers: servers
            .into_iter()
            .map(|u| AuthServerInfo { auth_url: u.to_string(), has_metadata: true })
            .collect(),
        is_oauth_processing: false,
    }
}

fn ids(a: &AccountInfo) -> Vec<String> {
    a.players.iter().map(|p| p.id.clone()).collect()
}

#[test]
fn add_player_selects_it() {
    let mut a = account(vec![player("a", PlayerType::Offline, None)], vec![]);
    let mut sel = "a".to_string();
    assert_eq!(add_new_player(&mut a, &mut sel, player("b", PlayerType::Offline, None)), Ok(()));
    assert_eq!(ids(&a), vec!["a", "b"]);
    assert_eq!(sel, "b");
}

#[test]
fn add_duplicate_player_is_refused() {
    let mut a = account(vec![player("a", PlayerType::Offline, None)], vec![]);
    let mut sel = "a".to_string();
    assert_eq!(
        add_new_player(&mut a, &mut sel, player("a", PlayerType::Microsoft, None)),
        Err(AccountError::Duplicate)
    );
    assert_eq!(ids(&a), vec!["a"]);
    assert_eq!(sel, "a");
}

#[test]
fn delete_selected_player_falls_back() {
    let mut a = account(
        vec![player("a", PlayerType::Offline, None), player("b", PlayerType::Offline, None)],
        vec![],
    );
    let mut sel = "a".to_string();
    assert_eq!(remove_player(&mut a, &mut sel, &"a".to_string()), Ok(()));
    assert_eq!(ids(&a), vec!["b"]);
    assert_eq!(sel, "b");
    assert_eq!(remove_player(&mut a, &mut sel, &"b".to_string()), Ok(()));
    assert_eq!(sel, "");
    assert_eq!(remove_player(&mut a, &mut sel, &"b".to_string()), Err(AccountError::NotFound));
}

#[test]
fn delete_other_player_keeps_selection() {
    let mut a = account(
        vec![player("a", PlayerType::Offline, None), player("b", PlayerType::Offline, None)],
        vec![],
    );
    let mut sel = "a".to_string();
    assert_eq!(remove_player(&mut a, &mut sel, &"b".to_string()), Ok(()));
    assert_eq!(sel, "a");
}

#[test]
fn delete_auth_server_removes_its_players() {
    let mut a = account(
        vec![
            player("a", PlayerType::ThirdParty, Some("https://s1")),
            player("b", PlayerType::Offline, None),
            player("c", PlayerType::ThirdParty, Some("https://s2")),
        ],
        vec!["https://s1", "https://s2"],
    );
    let mut sel = "a".to_string();
    assert_eq!(remove_auth_server(&mut a, &mut sel, &"https://s1".to_string()), Ok(()));
    assert_eq!(ids(&a), vec!["b", "c"]);
    assert_eq!(sel, "b");
    assert_eq!(a.auth_servers.len(), 1);
    assert_eq!(
        remove_auth_server(&mut a, &mut sel, &"https://s1".to_string()),
        Err(AccountError::NotFound)
    );
    assert_eq!(ids(&a), vec!["b", "c"]);
}

#[test]
fn replace_and_lookup() {
    let mut a = account(vec![player("a", PlayerType::Microsoft, None)], vec![]);
    let mut p = player("a", PlayerType::Microsoft, None);
    p.name = "renamed".to_string();
    assert!(replace_player(&mut a, &"a".to_string(), p));
    assert_eq!(a.players[0].name, "renamed");
    assert!(!replace_player(&mut a, &"z".to_string(), player("z", PlayerType::Offline, None)));
    assert_eq!(stored_player(&a, &"a".to_string()).unwrap().name, "renamed");
    assert_eq!(stored_player(&a, &"z".to_string()).unwrap_err(), AccountError::NotFound);
}

#[test]
fn oauth_routes() {
    assert_eq!(oauth_provider(PlayerType::ThirdParty), Ok(OAuthProvider::AuthlibInjector));
    assert_eq!(oauth_provider(PlayerType::Microsoft), Ok(OAuthProvider::Microsoft));
    assert_eq!(oauth_provider(PlayerType::Offline), Err(AccountError::Invalid));
    assert_eq!(check_password_relogin(&player("a", PlayerType::Offline, None)), Err(AccountError::Invalid));
    assert_eq!(check_password_relogin(&player("a", PlayerType::ThirdParty, None)), Ok(()));
}

#[test]
fn relogin_player_by_uuid() {
    let c = vec![player("a", PlayerType::ThirdParty, None), player("b", PlayerType::ThirdParty, None)];
    assert_eq!(find_relogin_player(c.clone(), &"uuid-b".to_string()).unwrap().id, "b");
    assert_eq!(find_relogin_player(c, &"uuid-x".to_string()).unwrap_err(), AccountError::NotFound);
}

#[test]
fn classify_login_results() {
    let existing = vec![player("a", PlayerType::ThirdParty, None)];
    assert!(matches!(classify_new_players(&existing, vec![], false), Err(AccountError::NotFound)));
    assert!(matches!(
        classify_new_players(&existing, vec![player("a", PlayerType::ThirdParty, None)], false),
        Err(AccountError::Duplicate)
    ));
    match classify_new_players(
        &existing,
        vec![player("a", PlayerType::ThirdParty, None), player("b", PlayerType::ThirdParty, None)],
        false,
    ) {
        Ok(NewPlayersOutcome::AddSingle(p)) => assert_eq!(p.id, "b"),
        _ => panic!("expected a single player"),
    }
    match classify_new_players(
        &existing,
        vec![player("b", PlayerType::ThirdParty, None), player("c", PlayerType::ThirdParty, None)],
        false,
    ) {
        Ok(NewPlayersOutcome::Choose(v)) => assert_eq!(v.len(), 2),
        _ => panic!("expected a choice"),
    }
    match classify_new_players(
        &existing,
        vec![player("b", PlayerType::ThirdParty, None), player("c", PlayerType::ThirdParty, None)],
        true,
    ) {
        Ok(NewPlayersOutcome::AddSingle(p)) => assert_eq!(p.id, "b"),
        _ => panic!("expected a single player"),
    }
}

#[test]
fn push_selected() {
    let mut a = account(vec![], vec![]);
    let mut sel = String::new();
    push_selected_player(&mut a, &mut sel, player("q", PlayerType::ThirdParty, None));
    assert_eq!(sel, "q");
    assert_eq!(ids(&a), vec!["q"]);
}

#[test]
fn skin_presets() {
    let a = account(
        vec![player("a", PlayerType::Offline, None), player("m", PlayerType::Microsoft, None)],
        vec![],
    );
    assert_eq!(check_offline_skin_preset(&a, &"a".to_string(), "steve"), Ok(0));
    assert_eq!(check_offline_skin_preset(&a, &"a".to_string(), "alex"), Ok(0));
    assert_eq!(check_offline_skin_preset(&a, &"a".to_string(), "herobrine"), Err(AccountError::TextureError));
    assert_eq!(check_offline_skin_preset(&a, &"m".to_string(), "steve"), Err(AccountError::Invalid));
    assert_eq!(check_offline_skin_preset(&a, &"x".to_string(), "steve"), Err(AccountError::NotFound));
}

#[test]
fn server_metadata_refresh() {
    let mut a = account(vec![], vec!["https://s1"]);
    assert!(!auth_servers_need_refresh(&a));
    a.auth_servers[0].has_metadata = false;
    assert!(auth_servers_need_refresh(&a));
}

#[test]
fn auth_server_url_gets_a_scheme() {
    assert_eq!(parse_auth_server_url("https://littleskin.cn/api/yggdrasil"), Ok("https://littleskin.cn/api/yggdrasil".to_string()));
    assert_eq!(parse_auth_server_url("littleskin.cn"), Ok("https://littleskin.cn/".to_string()));
    assert_eq!(parse_auth_server_url("[::1"), Err(AccountError::Invalid));
}
