use xmcl::account::AccountError;
use xmcl::cauc::{
    after_auth_attempt, attempts_result, auth_status_error, bind_succeeded, candidate_usernames,
    classify_login_status, cookie_header, cookies_from_headers, extract_csrf_token,
    fetched_player_name, should_fetch_player_name,
    json_login_requires_bind, login_flow_step, merge_cookie, merge_cookie_headers,
    parse_set_cookie, player_name_from_user_page, profiles_to_fetch, redirect_final_requires_bind,
    redirect_requires_bind, xsrf_token, AuthAttemptDecision, LoginFlowStep, LoginStatusKind,
};

fn pair(k: &str, v: &str) -> (String, String) {
    (k.to_string(), v.to_string())
}

#[test]
fn set_cookie_headers() {
    assert_eq!(
        parse_set_cookie("laravel_session= abc ; path=/; httponly"),
        Some(pair("laravel_session", "abc"))
    );
    assert_eq!(parse_set_cookie("no_attributes=1"), None);
    assert_eq!(parse_set_cookie("garbage"), None);
    assert_eq!(parse_set_cookie("k=a=b; path=/"), Some(pair("k", "a=b")));
}

#[test]
fn cookie_jar_building() {
    let headers = vec![
        "a=1; path=/".to_string(),
        "bad".to_string(),
        "b=2; path=/".to_string(),
    ];
    let mut jar = cookies_from_headers(&headers);
    assert_eq!(jar, vec![pair("a", "1"), pair("b", "2")]);
    assert_eq!(cookie_header(&jar), "a=1; b=2");
    merge_cookie_headers(&mut jar, &vec!["b=3; path=/".to_string(), "c=4;".to_string()]);
    assert_eq!(jar, vec![pair("a", "1"), pair("b", "3"), pair("c", "4")]);
    merge_cookie(&mut jar, "a".to_string(), "9".to_string());
    assert_eq!(jar[0], pair("a", "9"));
    assert_eq!(cookie_header(&vec![]), "");
}

#[test]
fn xsrf_token_is_decoded() {
    let jar = vec![pair("session", "x"), pair("xsrf-token", "eyJp%3D%3D")];
    assert_eq!(xsrf_token(&jar), Some("eyJp==".to_string()));
    assert_eq!(xsrf_token(&vec![pair("session", "x")]), None);
}

#[test]
fn csrf_token_extraction() {
    let html = r#"<form><input type="hidden" name="_token" value="tok123"></form>"#;
    assert_eq!(extract_csrf_token(html), Some("tok123".to_string()));
    assert_eq!(extract_csrf_token("<html></html>"), None);
    let twice = r#"name="_token" value="abcname="_token" value="def""#;
    assert_eq!(extract_csrf_token(twice), Some("abc".to_string()));
}

#[test]
fn nickname_on_user_page() {
    let html = r#"<span data-mark="nickname">  Steve </span>"#;
    assert_eq!(player_name_from_user_page(html), Ok("Steve".to_string()));
    assert_eq!(player_name_from_user_page("<p>no name</p>"), Err(AccountError::Invalid));
}

#[test]
fn login_status_and_redirects() {
    assert_eq!(classify_login_status(302), LoginStatusKind::Redirect);
    assert_eq!(classify_login_status(200), LoginStatusKind::Success);
    assert_eq!(classify_login_status(422), LoginStatusKind::Failure);
    assert!(redirect_requires_bind("https://skin.cauc.fun/user/player/bind"));
    assert!(!redirect_requires_bind("https://skin.cauc.fun/user"));
    assert!(redirect_final_requires_bind("https://skin.cauc.fun/user", false));
    assert!(!redirect_final_requires_bind("https://skin.cauc.fun/user", true));
    assert!(!redirect_final_requires_bind("https://skin.cauc.fun/", false));
    assert_eq!(json_login_requires_bind(r#"{"redirect":"/user/player/bind"}"#), Ok(true));
    assert_eq!(json_login_requires_bind(r#"{"redirect":"/user"}"#), Ok(false));
    assert_eq!(json_login_requires_bind(r#"{"ok":1}"#), Err(AccountError::Invalid));
    assert_eq!(json_login_requires_bind("not json"), Err(AccountError::Invalid));
}

#[test]
fn bind_and_auth_statuses() {
    assert!(bind_succeeded(200));
    assert!(bind_succeeded(302));
    assert!(!bind_succeeded(419));
    assert_eq!(auth_status_error(200), None);
    assert_eq!(auth_status_error(403), Some(AccountError::Invalid));
    assert_eq!(auth_status_error(502), Some(AccountError::NetworkError));
}

#[test]
fn usernames_to_try() {
    assert_eq!(
        candidate_usernames(&Some("  Steve ".to_string()), &"2021001".to_string()),
        vec!["Steve".to_string(), "2021001".to_string()]
    );
    assert_eq!(
        candidate_usernames(&Some("ABC".to_string()), &"abc".to_string()),
        vec!["ABC".to_string()]
    );
    assert_eq!(candidate_usernames(&Some("   ".to_string()), &"s".to_string()), vec!["s".to_string()]);
    assert_eq!(candidate_usernames(&None, &"s".to_string()), vec!["s".to_string()]);
}

#[test]
fn attempts_and_profiles() {
    assert_eq!(after_auth_attempt(Ok(())), AuthAttemptDecision::Accept);
    assert_eq!(after_auth_attempt(Err(AccountError::Invalid)), AuthAttemptDecision::TryNext);
    assert_eq!(
        after_auth_attempt(Err(AccountError::NetworkError)),
        AuthAttemptDecision::Fail(AccountError::NetworkError)
    );
    assert_eq!(profiles_to_fetch(Some("p".to_string()), None), Ok((vec!["p".to_string()], true)));
    assert_eq!(profiles_to_fetch(None, Some(vec![])), Err(AccountError::NotFound));
    assert_eq!(profiles_to_fetch(None, None), Err(AccountError::NotFound));
    assert_eq!(
        profiles_to_fetch(None, Some(vec!["a".to_string(), "b".to_string()])),
        Ok((vec!["a".to_string(), "b".to_string()], false))
    );
}

#[test]
fn login_flow_steps() {
    assert!(matches!(login_flow_step(true, Some("n".to_string())), LoginFlowStep::BindThenAuthenticate(ref n) if n == "n"));
    assert!(matches!(login_flow_step(true, None), LoginFlowStep::RequiresBind));
    assert!(matches!(login_flow_step(false, Some("n".to_string())), LoginFlowStep::Authenticate));
}

#[test]
fn user_page_fetch_after_redirect() {
    assert!(should_fetch_player_name("https://skin.cauc.fun/user"));
    assert!(!should_fetch_player_name("https://skin.cauc.fun/user/player/bind"));
    assert_eq!(fetched_player_name(Some(Ok("Steve".to_string()))), Some("Steve".to_string()));
    assert_eq!(fetched_player_name(Some(Err(AccountError::NetworkError))), None);
    assert_eq!(fetched_player_name(None), None);
}

#[test]
fn username_attempts() {
    let (invalid, network) = (AccountError::Invalid, AccountError::NetworkError);
    assert_eq!(attempts_result(&vec![Ok(())]), Ok(0));
    assert_eq!(attempts_result(&vec![Err(invalid), Ok(())]), Ok(1));
    assert_eq!(attempts_result(&vec![Err(invalid), Err(invalid)]), Err(invalid));
    assert_eq!(attempts_result(&vec![]), Err(invalid));
    assert_eq!(attempts_result(&vec![Err(network), Ok(())]), Err(network));
    assert_eq!(attempts_result(&vec![Err(invalid), Err(network)]), Err(network));
}

#[test]
fn nickname_takes_first_marker_with_a_name() {
    let html = r#"<i data-mark="nickname"></i><b data-mark="nickname"> Alex </b>"#;
    assert_eq!(player_name_from_user_page(html), Ok("Alex".to_string()));
    assert_eq!(player_name_from_user_page(r#"data-mark="nickname">Steve"#), Err(AccountError::Invalid));
    assert_eq!(
        player_name_from_user_page("data-mark=\"nickname\">Ste\nve<"),
        Ok("Ste\nve".to_string())
    );
}
