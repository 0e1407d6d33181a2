//! The CAUC skin-site login: cookies, tokens, the decisions between the
//! HTTP exchanges, and the choice of usernames to authenticate with.
use vstd::prelude::*;
use crate::account::AccountError;
use crate::paths::opt_chars;
use crate::text::{
    before_first, before_first_exec, chars_of, contains_lit, contains_str, eq_ignore_ascii_case,
    eq_ignore_ascii_case_exec, find_str, find_str_exec, first_index_of, find_first, join,
    join_exec, string_of, sub_chars, trim, trim_exec, views, append_chars,
    append_lit, occurs_at,
};

verus! {

/// Base URL of the CAUC skin site.
pub const CAUC_BASE_URL: &'static str = "https://skin.cauc.fun";

/// URL of the site's Yggdrasil API.
pub const CAUC_YGGDRASIL_URL: &'static str = "https://skin.cauc.fun/api/yggdrasil";

/// What survives of a CAUC login between the steps (the HTTP client is
/// kept beside it by the caller).
#[derive(Debug, Clone)]
pub struct CaucSession {
    pub student_id: String,
    pub cookie_jar: Vec<(String, String)>,
    pub requires_bind: bool,
    pub xsrf_token: Option<String>,
    pub player_name: Option<String>,
}

/// How the login form answered.
#[derive(Debug, Clone, Copy, PartialEq, Eq, Structural)]
pub enum LoginStatusKind {
    Redirect,
    Success,
    Failure,
}

/// What to do after one authentication attempt.
#[derive(Debug, Clone, Copy, PartialEq, Eq, Structural)]
pub enum AuthAttemptDecision {
    /// The credentials were accepted.
    Accept,
    /// The credentials were rejected; try the next username.
    TryNext,
    /// Give up with this error.
    Fail(AccountError),
}

/// The next step of the login flow after the form login.
#[derive(Debug, Clone)]
pub enum LoginFlowStep {
    /// Bind this player name, then authenticate.
    BindThenAuthenticate(String),
    /// The user has to choose a player name first.
    RequiresBind,
    /// Authenticate right away.
    Authenticate,
}

// ---------------------------------------------------------------------------
// Outside functions
// ---------------------------------------------------------------------------

/// The marker in front of the player name on the user page.
pub open spec fn nickname_marker() -> Seq<char> {
    "data-mark=\"nickname\">"@
}

/// The name right after a marker at position `i`: the non-empty run of
/// characters other than `<` that follows the marker, when a `<` ends it.
pub open spec fn name_after_marker(html: Seq<char>, i: int) -> Option<Seq<char>> {
    let after = html.skip(i + nickname_marker().len());
    let k = first_index_of(after, '<');
    if occurs_at(html, nickname_marker(), i) && 0 < k < after.len() {
        Some(after.take(k as int))
    } else {
        None
    }
}

/// The first name found at position `i` or later.
pub open spec fn nickname_from(html: Seq<char>, i: int) -> Option<Seq<char>>
    decreases html.len() + 1 - i,
{
    if i < 0 || i > html.len() {
        None
    } else {
        match name_after_marker(html, i) {
            Some(n) => Some(n),
            None => nickname_from(html, i + 1),
        }
    }
}

/// The first capture group of `data-mark="nickname">([^<]+)<` in a page:
/// the name after the leftmost marker that is followed by a name and a `<`.
pub open spec fn spec_nickname_capture(html: Seq<char>) -> Option<Seq<char>> {
    nickname_from(html, 0)
}

/// Percent-decoding of a string (`urlencoding::decode`): `None` when the
/// decoded bytes are not UTF-8.
pub uninterp spec fn url_decoded_of(s: Seq<char>) -> Option<Seq<char>>;

/// The string value of the top-level field `key` of a JSON text, if the
/// text parses and the field is a string.
pub uninterp spec fn json_string_field_of(text: Seq<char>, key: Seq<char>) -> Option<Seq<char>>;

/// `regex::Regex::new` on the constant nickname pattern, then
/// `Regex::captures` and the first group. Claimed: the leftmost match of the
/// pattern starts at the leftmost marker followed by a non-empty run of
/// characters other than `<` and a `<` (the greedy `[^<]+` takes the whole
/// run), and the group is that run.
#[verifier::external_body]
fn nickname_capture(html: &str) -> (r: Option<String>)
    ensures
        opt_chars(r) == spec_nickname_capture(html@),
{
    let re = regex::Regex::new(r#"data-mark="nickname">([^<]+)<"#).ok()?;
    re.captures(html)?.get(1).map(|m| m.as_str().to_string())
}

/// `urlencoding::decode`. Claimed: the result depends on `s` alone, and a
/// string without `%` decodes to itself (the crate returns it borrowed).
#[verifier::external_body]
fn url_decode(s: &str) -> (r: Option<String>)
    ensures
        opt_chars(r) == url_decoded_of(s@),
        !s@.contains('%') ==> opt_chars(r) == Some(s@),
{
    urlencoding::decode(s).ok().map(|c| c.into_owned())
}

/// `serde_json::from_str::<serde_json::Value>`, then the string field `key`.
/// Claimed: the result depends on the text and the key alone.
#[verifier::external_body]
fn json_string_field(text: &str, key: &str) -> (r: Option<String>)
    ensures
        opt_chars(r) == json_string_field_of(text@, key@),
{
    let v: serde_json::Value = serde_json::from_str(text).ok()?;
    v.get(key)?.as_str().map(|s| s.to_string())
}

// ---------------------------------------------------------------------------
// Specifications
// ---------------------------------------------------------------------------

/// `key=value`
pub open spec fn cookie_pair(kv: (String, String)) -> Seq<char> {
    kv.0@ + "="@ + kv.1@
}

/// The `Cookie` header of a cookie jar: its pairs joined with `; `.
pub open spec fn spec_cookie_header(jar: Seq<(String, String)>) -> Seq<char> {
    join(jar.map_values(|kv: (String, String)| cookie_pair(kv)), "; "@)
}

/// The `(name, value)` of a `Set-Cookie` header: the trimmed text before
/// the first `=`, and the trimmed text between it and the next `;`. `None`
/// without `=`, or without `;` after it.
pub open spec fn spec_parse_set_cookie(h: Seq<char>) -> Option<(Seq<char>, Seq<char>)> {
    let i = first_index_of(h, '=');
    if i >= h.len() {
        None
    } else {
        let rest = h.skip(i as int + 1);
        let j = first_index_of(rest, ';');
        if j >= rest.len() {
            None
        } else {
            Some((trim(h.take(i as int)), trim(rest.take(j as int))))
        }
    }
}

/// A cookie jar as `(name, value)` character sequences.
pub open spec fn jar_views(jar: Seq<(String, String)>) -> Seq<(Seq<char>, Seq<char>)> {
    jar.map_values(|kv: (String, String)| (kv.0@, kv.1@))
}

/// Index of the first cookie named `key`, or the jar's length.
pub open spec fn first_cookie_index(jar: Seq<(Seq<char>, Seq<char>)>, key: Seq<char>) -> int
    decreases jar.len(),
{
    if jar.len() == 0 {
        0
    } else if jar[0].0 == key {
        0
    } else {
        1 + first_cookie_index(jar.drop_first(), key)
    }
}

/// Index of the first cookie whose name is `XSRF-TOKEN` ignoring ASCII
/// case, or the jar's length.
pub open spec fn first_xsrf_index(jar: Seq<(String, String)>) -> int
    decreases jar.len(),
{
    if jar.len() == 0 {
        0
    } else if eq_ignore_ascii_case(jar[0].0@, "XSRF-TOKEN"@) {
        0
    } else {
        1 + first_xsrf_index(jar.drop_first())
    }
}

/// The XSRF token of a jar: the percent-decoded value of its first
/// `XSRF-TOKEN` cookie.
pub open spec fn spec_xsrf_token(jar: Seq<(String, String)>) -> Option<Seq<char>> {
    let k = first_xsrf_index(jar);
    if k < jar.len() {
        url_decoded_of(jar[k].1@)
    } else {
        None
    }
}

/// The marker in front of the CSRF token in the login page.
pub open spec fn csrf_marker() -> Seq<char> {
    "name=\"_token\" value=\""@
}

/// `html.split(marker).nth(1)` followed by `.split('"').next()`: the text
/// after the first marker, up to the next marker, then up to the first `"`.
pub open spec fn spec_extract_csrf_token(html: Seq<char>) -> Option<Seq<char>> {
    match find_str(html, csrf_marker()) {
        None => None,
        Some(p) => {
            let after = html.skip(p as int + csrf_marker().len());
            let piece = match find_str(after, csrf_marker()) {
                Some(q) => after.take(q as int),
                None => after,
            };
            Some(before_first(piece, '"'))
        },
    }
}

/// The usernames tried, in order: the trimmed player name when there is a
/// non-empty one, then the student id unless it equals a name already
/// listed, ignoring ASCII case.
pub open spec fn spec_candidate_usernames(player_name: Option<Seq<char>>, student_id: Seq<char>) -> Seq<
    Seq<char>,
> {
    let first = candidate_head(player_name);
    if lists_name(first, student_id) {
        first
    } else {
        first.push(student_id)
    }
}

/// The trimmed player name, when there is a non-empty one.
pub open spec fn candidate_head(player_name: Option<Seq<char>>) -> Seq<Seq<char>> {
    match player_name {
        Some(n) => if trim(n).len() > 0 {
            seq![trim(n)]
        } else {
            Seq::<Seq<char>>::empty()
        },
        None => Seq::<Seq<char>>::empty(),
    }
}

/// Whether `names` lists `name`, ignoring ASCII case.
pub open spec fn lists_name(names: Seq<Seq<char>>, name: Seq<char>) -> bool {
    exists|i: int| 0 <= i < names.len() && eq_ignore_ascii_case(names[i], name)
}

// ---------------------------------------------------------------------------
// Executable functions
// ---------------------------------------------------------------------------

/// The `Cookie` header of a cookie jar.
pub fn cookie_header(jar: &Vec<(String, String)>) -> (r: String)
    ensures
        r@ == spec_cookie_header(jar@),
{
    let mut pairs: Vec<Vec<char>> = Vec::new();
    let mut i: usize = 0;
    while i < jar.len()
        invariant
            i <= jar@.len(),
            views(pairs@) == jar@.take(i as int).map_values(
                |kv: (String, String)| cookie_pair(kv),
            ),
        decreases jar@.len() - i,
    {
        let mut p = chars_of(jar[i].0.as_str());
        append_lit(&mut p, "=");
        append_chars(&mut p, chars_of(jar[i].1.as_str()).as_slice());
        let ghost old = pairs@;
        pairs.push(p);
        assert(views(pairs@) =~= views(old).push(cookie_pair(jar@[i as int])));
        assert(jar@.take(i + 1).map_values(|kv: (String, String)| cookie_pair(kv)) =~= jar@.take(
            i as int,
        ).map_values(|kv: (String, String)| cookie_pair(kv)).push(cookie_pair(jar@[i as int])));
        i = i + 1;
    }
    assert(jar@.take(jar@.len() as int) =~= jar@);
    let sep = chars_of("; ");
    let joined = join_exec(&pairs, sep.as_slice());
    string_of(joined.as_slice())
}

/// Read a `Set-Cookie` header into `(name, value)`.
pub fn parse_set_cookie(header: &str) -> (r: Option<(String, String)>)
    ensures
        match r {
            Some((k, v)) => spec_parse_set_cookie(header@) == Some((k@, v@)),
            None => spec_parse_set_cookie(header@) is None,
        },
{
    let h = chars_of(header);
    let i = find_first(h.as_slice(), '=');
    if i >= h.len() {
        return None;
    }
    let rest = sub_chars(h.as_slice(), i + 1, h.len());
    assert(rest@ =~= h@.skip(i + 1));
    let j = find_first(rest.as_slice(), ';');
    if j >= rest.len() {
        return None;
    }
    let key = sub_chars(h.as_slice(), 0, i);
    assert(key@ =~= h@.take(i as int));
    let value = sub_chars(rest.as_slice(), 0, j);
    assert(value@ =~= rest@.take(j as int));
    let k = trim_exec(key.as_slice());
    let v = trim_exec(value.as_slice());
    Some((string_of(k.as_slice()), string_of(v.as_slice())))
}

/// Characterises `first_cookie_index`.
proof fn lemma_first_cookie_index(jar: Seq<(Seq<char>, Seq<char>)>, key: Seq<char>, k: int)
    requires
        0 <= k <= jar.len(),
        forall|j: int| 0 <= j < k ==> jar[j].0 != key,
        k == jar.len() || jar[k].0 == key,
    ensures
        first_cookie_index(jar, key) == k,
    decreases jar.len(),
{
    if jar.len() > 0 && k > 0 {
        assert forall|j: int| 0 <= j < k - 1 implies jar.drop_first()[j].0 != key by {
            assert(jar.drop_first()[j] == jar[j + 1]);
        }
        lemma_first_cookie_index(jar.drop_first(), key, k - 1);
    }
}

/// Characterises `first_xsrf_index`.
proof fn lemma_first_xsrf_index(jar: Seq<(String, String)>, k: int)
    requires
        0 <= k <= jar.len(),
        forall|j: int| 0 <= j < k ==> !eq_ignore_ascii_case(jar[j].0@, "XSRF-TOKEN"@),
        k == jar.len() || eq_ignore_ascii_case(jar[k].0@, "XSRF-TOKEN"@),
    ensures
        first_xsrf_index(jar) == k,
    decreases jar.len(),
{
    if jar.len() > 0 && k > 0 {
        assert forall|j: int| 0 <= j < k - 1 implies !eq_ignore_ascii_case(
            jar.drop_first()[j].0@,
            "XSRF-TOKEN"@,
        ) by {
            assert(jar.drop_first()[j] == jar[j + 1]);
        }
        lemma_first_xsrf_index(jar.drop_first(), k - 1);
    }
}

/// The jar after a response set cookie `key` to `value`: the first cookie of
/// that name takes the value, or the cookie is appended.
pub open spec fn spec_merge_cookie(
    jar: Seq<(Seq<char>, Seq<char>)>,
    key: Seq<char>,
    value: Seq<char>,
) -> Seq<(Seq<char>, Seq<char>)> {
    let k = first_cookie_index(jar, key);
    if k < jar.len() {
        jar.update(k, (jar[k].0, value))
    } else {
        jar.push((key, value))
    }
}

/// Update or add a cookie.
pub fn merge_cookie(jar: &mut Vec<(String, String)>, key: String, value: String)
    ensures
        jar_views(final(jar)@) == spec_merge_cookie(jar_views(old(jar)@), key@, value@),
{
    let mut i: usize = 0;
    while i < jar.len() && jar[i].0 != key
        invariant
            i <= jar@.len(),
            forall|j: int| 0 <= j < i ==> jar@[j].0@ != key@,
        decreases jar@.len() - i,
    {
        i = i + 1;
    }
    proof {
        lemma_first_cookie_index(jar_views(jar@), key@, i as int);
    }
    let ghost old = jar@;
    if i < jar.len() {
        let name = jar[i].0.clone();
        jar.set(i, (name, value));
        assert(jar_views(jar@) =~= jar_views(old).update(i as int, (jar_views(old)[i as int].0, value@)));
    } else {
        jar.push((key, value));
        assert(jar_views(jar@) =~= jar_views(old).push((key@, value@)));
    }
}

/// The cookies set by a list of `Set-Cookie` headers, in order (headers
/// that do not read as `name=value;…` are skipped).
pub open spec fn spec_cookies_from_headers(headers: Seq<Seq<char>>) -> Seq<(Seq<char>, Seq<char>)>
    decreases headers.len(),
{
    if headers.len() == 0 {
        Seq::<(Seq<char>, Seq<char>)>::empty()
    } else {
        let prev = spec_cookies_from_headers(headers.drop_last());
        match spec_parse_set_cookie(headers.last()) {
            Some(kv) => prev.push(kv),
            None => prev,
        }
    }
}

/// The jar after merging the cookies of a list of `Set-Cookie` headers, in order.
pub open spec fn spec_merge_headers(
    jar: Seq<(Seq<char>, Seq<char>)>,
    headers: Seq<Seq<char>>,
) -> Seq<(Seq<char>, Seq<char>)>
    decreases headers.len(),
{
    if headers.len() == 0 {
        jar
    } else {
        let prev = spec_merge_headers(jar, headers.drop_last());
        match spec_parse_set_cookie(headers.last()) {
            Some(kv) => spec_merge_cookie(prev, kv.0, kv.1),
            None => prev,
        }
    }
}

/// The character views of a list of strings.
pub open spec fn header_views(v: Seq<String>) -> Seq<Seq<char>> {
    v.map_values(|s: String| s@)
}

/// The cookie jar built from the login page's `Set-Cookie` headers.
pub fn cookies_from_headers(headers: &Vec<String>) -> (jar: Vec<(String, String)>)
    ensures
        jar_views(jar@) == spec_cookies_from_headers(header_views(headers@)),
{
    let ghost hv = header_views(headers@);
    let mut jar: Vec<(String, String)> = Vec::new();
    let mut i: usize = 0;
    while i < headers.len()
        invariant
            i <= headers@.len(),
            hv == header_views(headers@),
            jar_views(jar@) == spec_cookies_from_headers(hv.take(i as int)),
        decreases headers@.len() - i,
    {
        assert(hv.take(i + 1).drop_last() =~= hv.take(i as int));
        assert(hv.take(i + 1).last() == headers@[i as int]@);
        if let Some((k, v)) = parse_set_cookie(headers[i].as_str()) {
            let ghost old = jar@;
            jar.push((k, v));
            assert(jar_views(jar@) =~= jar_views(old).push((k@, v@)));
        }
        i = i + 1;
    }
    assert(hv.take(headers@.len() as int) =~= hv);
    jar
}

/// Merge the cookies of a response's `Set-Cookie` headers into the jar.
pub fn merge_cookie_headers(jar: &mut Vec<(String, String)>, headers: &Vec<String>)
    ensures
        jar_views(final(jar)@) == spec_merge_headers(jar_views(old(jar)@), header_views(headers@)),
{
    let ghost hv = header_views(headers@);
    let ghost start = jar_views(jar@);
    let mut i: usize = 0;
    assert(hv.take(0) =~= Seq::<Seq<char>>::empty());
    while i < headers.len()
        invariant
            i <= headers@.len(),
            hv == header_views(headers@),
            start == jar_views(old(jar)@),
            jar_views(jar@) == spec_merge_headers(start, hv.take(i as int)),
        decreases headers@.len() - i,
    {
        assert(hv.take(i + 1).drop_last() =~= hv.take(i as int));
        assert(hv.take(i + 1).last() == headers@[i as int]@);
        if let Some((k, v)) = parse_set_cookie(headers[i].as_str()) {
            merge_cookie(jar, k, v);
        }
        i = i + 1;
    }
    assert(hv.take(headers@.len() as int) =~= hv);
}

/// The XSRF token of a cookie jar.
pub fn xsrf_token(jar: &Vec<(String, String)>) -> (r: Option<String>)
    ensures
        opt_chars(r) == spec_xsrf_token(jar@),
{
    let name = chars_of("XSRF-TOKEN");
    let mut i: usize = 0;
    while i < jar.len() && !eq_ignore_ascii_case_exec(
        chars_of(jar[i].0.as_str()).as_slice(),
        name.as_slice(),
    )
        invariant
            i <= jar@.len(),
            name@ == "XSRF-TOKEN"@,
            forall|j: int| 0 <= j < i ==> !eq_ignore_ascii_case(jar@[j].0@, "XSRF-TOKEN"@),
        decreases jar@.len() - i,
    {
        i = i + 1;
    }
    proof {
        lemma_first_xsrf_index(jar@, i as int);
    }
    if i < jar.len() {
        url_decode(jar[i].1.as_str())
    } else {
        None
    }
}

/// The CSRF token of the login page, if it has one.
pub fn extract_csrf_token(html: &str) -> (r: Option<String>)
    ensures
        opt_chars(r) == spec_extract_csrf_token(html@),
{
    let h = chars_of(html);
    let marker = chars_of("name=\"_token\" value=\"");
    let p = match find_str_exec(h.as_slice(), marker.as_slice()) {
        Some(p) => p,
        None => return None,
    };
    proof {
        assert(crate::text::occurs_at(h@, marker@, p as int)) by {
            lemma_find_str_occurs(h@, marker@);
        }
    }
    let hl = h.len();
    let ml = marker.len();
    assert(p + ml <= hl);
    let after = sub_chars(h.as_slice(), p + ml, hl);
    assert(after@ =~= h@.skip(p + marker@.len()));
    let piece = match find_str_exec(after.as_slice(), marker.as_slice()) {
        Some(q) => {
            proof {
                lemma_find_str_occurs(after@, marker@);
            }
            let x = sub_chars(after.as_slice(), 0, q);
            assert(x@ =~= after@.take(q as int));
            x
        },
        None => after,
    };
    let token = before_first_exec(piece.as_slice(), '"');
    Some(string_of(token.as_slice()))
}

/// Where `find_str` finds `p`, `p` occurs.
proof fn lemma_find_str_occurs(s: Seq<char>, p: Seq<char>)
    ensures
        find_str(s, p) matches Some(i) ==> crate::text::occurs_at(s, p, i as int),
    decreases s.len(),
{
    if !crate::text::occurs_at(s, p, 0) && s.len() > 0 {
        lemma_find_str_occurs(s.drop_first(), p);
        if let Some(i) = find_str(s.drop_first(), p) {
            assert(s.subrange(i as int + 1, i as int + 1 + p.len()) =~= s.drop_first().subrange(
                i as int,
                i as int + p.len(),
            ));
        }
    }
}

/// The player name on the user page (`data-mark="nickname">…<`), trimmed;
/// `Invalid` when the page has none.
pub fn player_name_from_user_page(html: &str) -> (r: Result<String, AccountError>)
    ensures
        match spec_nickname_capture(html@) {
            Some(n) => r matches Ok(s) && s@ == trim(n),
            None => r == Err::<String, AccountError>(AccountError::Invalid),
        },
{
    match nickname_capture(html) {
        Some(name) => {
            let t = trim_exec(chars_of(name.as_str()).as_slice());
            Ok(string_of(t.as_slice()))
        },
        None => Err(AccountError::Invalid),
    }
}

/// Classify the status of the login form's answer.
pub fn classify_login_status(status: u16) -> (r: LoginStatusKind)
    ensures
        300 <= status <= 399 ==> r == LoginStatusKind::Redirect,
        200 <= status <= 299 ==> r == LoginStatusKind::Success,
        !(200 <= status <= 399) ==> r == LoginStatusKind::Failure,
{
    if 300 <= status && status <= 399 {
        LoginStatusKind::Redirect
    } else if 200 <= status && status <= 299 {
        LoginStatusKind::Success
    } else {
        LoginStatusKind::Failure
    }
}

/// A redirect to the binding page means a player name must be bound.
pub fn redirect_requires_bind(location: &str) -> (r: bool)
    ensures
        r == contains_str(location@, "/user/player/bind"@),
{
    contains_lit(chars_of(location).as_slice(), "/user/player/bind")
}

/// After a redirect, the player name is fetched from `/user` only when the
/// redirect does not go to the binding page.
pub fn should_fetch_player_name(location: &str) -> (r: bool)
    ensures
        r == !contains_str(location@, "/user/player/bind"@),
{
    !redirect_requires_bind(location)
}

/// The player name a `/user` fetch gives: the name when the fetch was made
/// and succeeded; nothing when it failed or was not made.
pub fn fetched_player_name(fetched: Option<Result<String, AccountError>>) -> (r: Option<String>)
    ensures
        match fetched {
            Some(Ok(n)) => r == Some(n),
            _ => r is None,
        },
{
    match fetched {
        Some(Ok(n)) => Some(n),
        _ => None,
    }
}

/// After a redirect: binding is required when the redirect goes to the
/// binding page, or to a `/user` page that shows no player name.
pub fn redirect_final_requires_bind(location: &str, player_name_found: bool) -> (r: bool)
    ensures
        r == (contains_str(location@, "/user/player/bind"@) || (contains_str(location@, "/user"@)
            && !player_name_found)),
{
    let l = chars_of(location);
    contains_lit(l.as_slice(), "/user/player/bind") || (contains_lit(l.as_slice(), "/user")
        && !player_name_found)
}

/// After a `200` answer: the `redirect` field of its JSON body, if any,
/// tells whether binding is required; without one the login is invalid.
pub fn json_login_requires_bind(body: &str) -> (r: Result<bool, AccountError>)
    ensures
        match json_string_field_of(body@, "redirect"@) {
            Some(u) => r == Ok::<bool, AccountError>(contains_str(u, "/user/player/bind"@)),
            None => r == Err::<bool, AccountError>(AccountError::Invalid),
        },
{
    match json_string_field(body, "redirect") {
        Some(u) => Ok(redirect_requires_bind(u.as_str())),
        None => Err(AccountError::Invalid),
    }
}

/// A bind request succeeded when it was answered with success or a redirect.
pub fn bind_succeeded(status: u16) -> (r: bool)
    ensures
        r == (200 <= status <= 399),
{
    200 <= status && status <= 399
}

/// The error of an authentication answer: none on success, `Invalid` for a
/// client error, `NetworkError` otherwise.
pub fn auth_status_error(status: u16) -> (r: Option<AccountError>)
    ensures
        200 <= status <= 299 ==> r is None,
        400 <= status <= 499 ==> r == Some(AccountError::Invalid),
        !(200 <= status <= 299) && !(400 <= status <= 499) ==> r == Some(
            AccountError::NetworkError,
        ),
{
    if 200 <= status && status <= 299 {
        None
    } else if 400 <= status && status <= 499 {
        Some(AccountError::Invalid)
    } else {
        Some(AccountError::NetworkError)
    }
}

/// The usernames tried against the Yggdrasil API, in order.
pub fn candidate_usernames(player_name: &Option<String>, student_id: &String) -> (r: Vec<String>)
    ensures
        views_of_strings(r@) == spec_candidate_usernames(opt_chars(*player_name), student_id@),
{
    let mut c: Vec<String> = Vec::new();
    if let Some(n) = player_name {
        let t = trim_exec(chars_of(n.as_str()).as_slice());
        if t.len() > 0 {
            c.push(string_of(t.as_slice()));
        }
    }
    let ghost first = views_of_strings(c@);
    assert(first =~= candidate_head(opt_chars(*player_name)));
    let sid = chars_of(student_id.as_str());
    let mut found = false;
    if c.len() > 0 {
        found = eq_ignore_ascii_case_exec(chars_of(c[0].as_str()).as_slice(), sid.as_slice());
        assert(first.len() == 1 && first[0] == c@[0]@);
        if found {
            assert(eq_ignore_ascii_case(first[0], student_id@));
        }
    }
    assert(found == lists_name(first, student_id@));
    if !found {
        c.push(student_id.clone());
        assert(views_of_strings(c@) =~= first.push(student_id@));
    }
    c
}

/// The character views of a list of strings.
pub open spec fn views_of_strings(v: Seq<String>) -> Seq<Seq<char>> {
    v.map_values(|s: String| s@)
}

/// What to do after one authentication attempt: accept on success, try the
/// next username when the credentials were rejected, give up otherwise.
pub fn after_auth_attempt(outcome: Result<(), AccountError>) -> (r: AuthAttemptDecision)
    ensures
        outcome is Ok ==> r == AuthAttemptDecision::Accept,
        outcome == Err::<(), AccountError>(AccountError::Invalid) ==> r
            == AuthAttemptDecision::TryNext,
        outcome is Err && outcome->Err_0 != AccountError::Invalid ==> r == AuthAttemptDecision::Fail(
            outcome->Err_0,
        ),
{
    match outcome {
        Ok(()) => AuthAttemptDecision::Accept,
        Err(AccountError::Invalid) => AuthAttemptDecision::TryNext,
        Err(e) => AuthAttemptDecision::Fail(e),
    }
}

/// The result of trying the candidate usernames in turn, given the outcomes
/// of the attempts made: the index of the first accepted attempt when every
/// earlier one was rejected (`Invalid`); the first error other than
/// `Invalid`, when it comes before any acceptance; `Invalid` when every
/// attempt was rejected. Attempts after the deciding one play no part.
pub fn attempts_result(outcomes: &Vec<Result<(), AccountError>>) -> (r: Result<usize, AccountError>)
    ensures
        match r {
            Ok(i) => i < outcomes@.len() && outcomes@[i as int] is Ok && forall|j: int|
                0 <= j < i ==> outcomes@[j] == Err::<(), AccountError>(AccountError::Invalid),
            Err(e) => if e == AccountError::Invalid {
                forall|j: int|
                    0 <= j < outcomes@.len() ==> outcomes@[j] == Err::<(), AccountError>(
                        AccountError::Invalid,
                    )
            } else {
                exists|k: int|
                    0 <= k < outcomes@.len() && outcomes@[k] == Err::<(), AccountError>(e)
                        && forall|j: int|
                        0 <= j < k ==> outcomes@[j] == Err::<(), AccountError>(
                            AccountError::Invalid,
                        )
            },
        },
{
    let mut i: usize = 0;
    while i < outcomes.len()
        invariant
            i <= outcomes@.len(),
            forall|j: int|
                0 <= j < i ==> outcomes@[j] == Err::<(), AccountError>(AccountError::Invalid),
        decreases outcomes@.len() - i,
    {
        match outcomes[i] {
            Ok(()) => return Ok(i),
            Err(AccountError::Invalid) => {},
            Err(e) => {
                assert(outcomes@[i as int] == Err::<(), AccountError>(e));
                return Err(e);
            },
        }
        i = i + 1;
    }
    Err(AccountError::Invalid)
}

/// The profiles to fetch after authenticating: the selected one alone (and
/// the server has selected), else all available ones; `NotFound` when there
/// are none.
pub fn profiles_to_fetch(selected: Option<String>, available: Option<Vec<String>>) -> (r: Result<
    (Vec<String>, bool),
    AccountError,
>)
    ensures
        selected matches Some(id) ==> (r matches Ok((v, s)) && v@ == seq![id] && s),
        selected is None && (available is None || available->0@.len() == 0) ==> r == Err::<
            (Vec<String>, bool),
            AccountError,
        >(AccountError::NotFound),
        selected is None && (available matches Some(a) && a@.len() > 0) ==> (r matches Ok((v, s))
            && v@ == available->0@ && !s),
{
    match selected {
        Some(id) => {
            let mut v: Vec<String> = Vec::new();
            v.push(id);
            assert(v@ =~= seq![id]);
            Ok((v, true))
        },
        None => match available {
            Some(a) => {
                if a.len() == 0 {
                    Err(AccountError::NotFound)
                } else {
                    Ok((a, false))
                }
            },
            None => Err(AccountError::NotFound),
        },
    }
}

/// The step after the form login.
pub fn login_flow_step(requires_bind: bool, player_name: Option<String>) -> (r: LoginFlowStep)
    ensures
        requires_bind && player_name is Some ==> (r matches LoginFlowStep::BindThenAuthenticate(n)
            && n == player_name->0),
        requires_bind && player_name is None ==> r matches LoginFlowStep::RequiresBind,
        !requires_bind ==> r matches LoginFlowStep::Authenticate,
{
    if requires_bind {
        match player_name {
            Some(name) => LoginFlowStep::BindThenAuthenticate(name),
            None => LoginFlowStep::RequiresBind,
        }
    } else {
        LoginFlowStep::Authenticate
    }
}

// ---------------------------------------------------------------------------
// Laws
// ---------------------------------------------------------------------------

/// Distinct cookie names stay distinct when a cookie is merged, and the
/// merged cookie then carries the new value.
pub proof fn law_merge_cookie(jar: Seq<(Seq<char>, Seq<char>)>, key: Seq<char>, value: Seq<char>)
    requires
        forall|i: int, j: int| 0 <= i < j < jar.len() ==> #[trigger] jar[i].0 != #[trigger] jar[j].0,
    ensures
        ({
            let m = spec_merge_cookie(jar, key, value);
            &&& forall|i: int, j: int| 0 <= i < j < m.len() ==> #[trigger] m[i].0 != #[trigger] m[j].0
            &&& first_cookie_index(m, key) < m.len()
            &&& m[first_cookie_index(m, key)].1 == value
            &&& m.len() == jar.len() || m.len() == jar.len() + 1
        }),
{
    lemma_first_cookie_index_bound(jar, key);
    let k = first_cookie_index(jar, key);
    let m = spec_merge_cookie(jar, key, value);
    if k < jar.len() {
        assert forall|i: int| 0 <= i < m.len() implies (#[trigger] m[i]).0 == jar[i].0 by {}
        assert forall|i: int, j: int| 0 <= i < j < m.len() implies #[trigger] m[i].0
            != #[trigger] m[j].0 by {
            assert(m[i].0 == jar[i].0);
            assert(m[j].0 == jar[j].0);
        }
        assert forall|j: int| 0 <= j < k implies m[j].0 != key by {
            assert(m[j] == jar[j]);
            lemma_before_first_cookie(jar, key, j);
        }
        lemma_first_cookie_index(m, key, k);
    } else {
        assert forall|j: int| 0 <= j < jar.len() implies m[j].0 != key by {
            assert(m[j] == jar[j]);
            lemma_before_first_cookie(jar, key, j);
        }
        assert forall|i: int, j: int| 0 <= i < j < m.len() implies #[trigger] m[i].0
            != #[trigger] m[j].0 by {
            assert(m[i] == jar[i]);
            if j < jar.len() {
                assert(m[j] == jar[j]);
            }
        }
        lemma_first_cookie_index(m, key, jar.len() as int);
    }
}

/// The first index of a cookie name is in range and names that cookie.
proof fn lemma_first_cookie_index_bound(jar: Seq<(Seq<char>, Seq<char>)>, key: Seq<char>)
    ensures
        0 <= first_cookie_index(jar, key) <= jar.len(),
        first_cookie_index(jar, key) < jar.len() ==> jar[first_cookie_index(jar, key)].0 == key,
    decreases jar.len(),
{
    if jar.len() > 0 && jar[0].0 != key {
        lemma_first_cookie_index_bound(jar.drop_first(), key);
    }
}

/// No cookie before the first index has the name.
proof fn lemma_before_first_cookie(jar: Seq<(Seq<char>, Seq<char>)>, key: Seq<char>, j: int)
    requires
        0 <= j < first_cookie_index(jar, key),
    ensures
        jar[j].0 != key,
    decreases jar.len(),
{
    lemma_first_cookie_index_bound(jar, key);
    if j > 0 {
        assert(jar[0].0 != key);
        lemma_before_first_cookie(jar.drop_first(), key, j - 1);
        assert(jar.drop_first()[j - 1] == jar[j]);
    }
}

/// Merging the cookies of any list of headers keeps cookie names distinct.
pub proof fn law_merge_headers_distinct(jar: Seq<(Seq<char>, Seq<char>)>, headers: Seq<Seq<char>>)
    requires
        forall|i: int, j: int| 0 <= i < j < jar.len() ==> #[trigger] jar[i].0 != #[trigger] jar[j].0,
    ensures
        ({
            let m = spec_merge_headers(jar, headers);
            forall|i: int, j: int| 0 <= i < j < m.len() ==> #[trigger] m[i].0 != #[trigger] m[j].0
        }),
    decreases headers.len(),
{
    if headers.len() > 0 {
        law_merge_headers_distinct(jar, headers.drop_last());
        let prev = spec_merge_headers(jar, headers.drop_last());
        if let Some(kv) = spec_parse_set_cookie(headers.last()) {
            law_merge_cookie(prev, kv.0, kv.1);
        }
    }
}

/// The student id is always among the usernames tried, up to ASCII case,
/// and the list has one or two entries.
pub proof fn law_candidates_cover_student_id(player_name: Option<Seq<char>>, student_id: Seq<char>)
    ensures
        ({
            let c = spec_candidate_usernames(player_name, student_id);
            &&& 1 <= c.len() <= 2
            &&& exists|i: int| 0 <= i < c.len() && eq_ignore_ascii_case(c[i], student_id)
        }),
{
    let c = spec_candidate_usernames(player_name, student_id);
    let first = candidate_head(player_name);
    if !lists_name(first, student_id) {
        assert(c[first.len() as int] == student_id);
        assert(eq_ignore_ascii_case(c[first.len() as int], student_id));
    }
}

} // verus!
