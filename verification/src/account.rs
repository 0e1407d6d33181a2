//! The account list and the selected player: what each account command
//! decides and how it changes the stored state.
use vstd::prelude::*;
use crate::paths::opt_chars;
use crate::text::{append_chars, chars_of, string_of};

verus! {

/// How a player logs in.
#[derive(Debug, Clone, Copy, PartialEq, Eq, Structural)]
pub enum PlayerType {
    Offline,
    Microsoft,
    ThirdParty,
}

/// Errors of the account commands.
#[derive(Debug, Clone, Copy, PartialEq, Eq, Structural)]
pub enum AccountError {
    Duplicate,
    Expired,
    Invalid,
    NotFound,
    TextureError,
    AuthServerError,
    NetworkError,
    ParseError,
    Cancelled,
    NoDownloadApi,
    SaveError,
}

/// A stored player.
#[derive(Debug, Clone)]
pub struct PlayerInfo {
    pub id: String,
    pub name: String,
    pub uuid: String,
    pub player_type: PlayerType,
    pub auth_account: Option<String>,
    pub auth_server_url: Option<String>,
}

/// A stored authentication server; `has_metadata` is false while its
/// metadata is still null.
#[derive(Debug, Clone)]
pub struct AuthServerInfo {
    pub auth_url: String,
    pub has_metadata: bool,
}

/// The stored account state.
#[derive(Debug, Clone)]
pub struct AccountInfo {
    pub players: Vec<PlayerInfo>,
    pub auth_servers: Vec<AuthServerInfo>,
    pub is_oauth_processing: bool,
}

/// Which OAuth flow serves a player type.
#[derive(Debug, Clone, Copy, PartialEq, Eq, Structural)]
pub enum OAuthProvider {
    AuthlibInjector,
    Microsoft,
}

/// What to do with the players a login returned.
#[derive(Debug, Clone)]
pub enum NewPlayersOutcome {
    /// Store this player and select it.
    AddSingle(PlayerInfo),
    /// Let the user choose among these players.
    Choose(Vec<PlayerInfo>),
}

// ---------------------------------------------------------------------------
// Model
// ---------------------------------------------------------------------------

/// The ids of a list of players.
pub open spec fn ids(players: Seq<PlayerInfo>) -> Seq<Seq<char>> {
    players.map_values(|p: PlayerInfo| p.id@)
}

/// Whether some player has id `id`.
pub open spec fn has_id(players: Seq<PlayerInfo>, id: Seq<char>) -> bool {
    exists|i: int| 0 <= i < players.len() && players[i].id@ == id
}

/// The selected player id names a stored player, or nothing is selected.
pub open spec fn selection_valid(players: Seq<PlayerInfo>, selected: Seq<char>) -> bool {
    selected.len() == 0 || has_id(players, selected)
}

/// No two stored players share an id.
pub open spec fn ids_unique(players: Seq<PlayerInfo>) -> bool {
    forall|i: int, j: int|
        0 <= i < j < players.len() ==> #[trigger] players[i].id@ != #[trigger] players[j].id@
}

/// The id selected when the selected player goes away: the first remaining
/// player's, or nothing.
pub open spec fn fallback_selection(players: Seq<PlayerInfo>) -> Seq<char> {
    if players.len() > 0 {
        players[0].id@
    } else {
        Seq::<char>::empty()
    }
}

/// Filter predicate: the player's id differs from `id`.
pub open spec fn id_differs(id: Seq<char>) -> spec_fn(PlayerInfo) -> bool {
    |p: PlayerInfo| p.id@ != id
}

/// Players kept when the player `id` is deleted.
pub open spec fn without_id(players: Seq<PlayerInfo>, id: Seq<char>) -> Seq<PlayerInfo> {
    players.filter(id_differs(id))
}

/// Whether a player logs in through the authentication server `url`.
pub open spec fn uses_server(p: PlayerInfo, url: Seq<char>) -> bool {
    match p.auth_server_url {
        Some(u) => u@ == url,
        None => false,
    }
}

/// Filter predicate: the player does not use the server `url`.
pub open spec fn not_using(url: Seq<char>) -> spec_fn(PlayerInfo) -> bool {
    |p: PlayerInfo| !uses_server(p, url)
}

/// Filter predicate: the server's url differs from `url`.
pub open spec fn url_differs(url: Seq<char>) -> spec_fn(AuthServerInfo) -> bool {
    |s: AuthServerInfo| s.auth_url@ != url
}

/// Players kept when the authentication server `url` is deleted.
pub open spec fn without_server_players(players: Seq<PlayerInfo>, url: Seq<char>) -> Seq<PlayerInfo> {
    players.filter(not_using(url))
}

/// Servers kept when the authentication server `url` is deleted.
pub open spec fn without_server(servers: Seq<AuthServerInfo>, url: Seq<char>) -> Seq<AuthServerInfo> {
    servers.filter(url_differs(url))
}

/// Index of the first player with id `id`, or `players.len()`.
pub open spec fn first_player_index(players: Seq<PlayerInfo>, id: Seq<char>) -> int
    decreases players.len(),
{
    if players.len() == 0 {
        0
    } else if players[0].id@ == id {
        0
    } else {
        1 + first_player_index(players.drop_first(), id)
    }
}

/// Adding a player: refused as a duplicate when its id is stored already;
/// otherwise appended and selected.
pub open spec fn spec_add_player(players: Seq<PlayerInfo>, selected: Seq<char>, p: PlayerInfo) -> (
    Seq<PlayerInfo>,
    Seq<char>,
    Result<(), AccountError>,
) {
    if has_id(players, p.id@) {
        (players, selected, Err(AccountError::Duplicate))
    } else {
        (players.push(p), p.id@, Ok(()))
    }
}

/// Deleting a player: every player with the id goes; `NotFound` when there
/// is none. A deleted selection falls back to the first remaining player.
pub open spec fn spec_delete_player(players: Seq<PlayerInfo>, selected: Seq<char>, id: Seq<char>) -> (
    Seq<PlayerInfo>,
    Seq<char>,
    Result<(), AccountError>,
) {
    let kept = without_id(players, id);
    if kept.len() == players.len() {
        (players, selected, Err(AccountError::NotFound))
    } else if selected == id {
        (kept, fallback_selection(kept), Ok(()))
    } else {
        (kept, selected, Ok(()))
    }
}

/// Deleting an authentication server: `NotFound` when no server has the
/// url; otherwise the server and every player using it go, and a deleted
/// selection falls back to the first remaining player.
pub open spec fn spec_delete_auth_server(
    servers: Seq<AuthServerInfo>,
    players: Seq<PlayerInfo>,
    selected: Seq<char>,
    url: Seq<char>,
) -> (Seq<AuthServerInfo>, Seq<PlayerInfo>, Seq<char>, Result<(), AccountError>) {
    let kept_servers = without_server(servers, url);
    if kept_servers.len() == servers.len() {
        (servers, players, selected, Err(AccountError::NotFound))
    } else {
        let kept = without_server_players(players, url);
        let reset = exists|i: int|
            0 <= i < players.len() && uses_server(players[i], url) && players[i].id@ == selected;
        (kept_servers, kept, if reset {
            fallback_selection(kept)
        } else {
            selected
        }, Ok(()))
    }
}

/// Replacing the first player with id `id` (after a relogin or refresh);
/// nothing changes when there is none.
pub open spec fn spec_replace_player(players: Seq<PlayerInfo>, id: Seq<char>, p: PlayerInfo) -> Seq<
    PlayerInfo,
> {
    let k = first_player_index(players, id);
    if k < players.len() {
        players.update(k, p)
    } else {
        players
    }
}

/// Filter predicate: no stored player has the player's id.
pub open spec fn not_stored(existing: Seq<PlayerInfo>) -> spec_fn(PlayerInfo) -> bool {
    |p: PlayerInfo| !has_id(existing, p.id@)
}

/// The players a login returned that are not stored yet.
pub open spec fn new_only(existing: Seq<PlayerInfo>, candidates: Seq<PlayerInfo>) -> Seq<PlayerInfo> {
    candidates.filter(not_stored(existing))
}

/// Texture presets an offline player can take.
pub open spec fn texture_roles() -> Seq<&'static str> {
    seq!["steve", "alex"]
}

// ---------------------------------------------------------------------------
// Lemmas
// ---------------------------------------------------------------------------

/// Characterises `first_player_index` by the position it returns.
proof fn lemma_first_player_index(players: Seq<PlayerInfo>, id: Seq<char>, k: int)
    requires
        0 <= k <= players.len(),
        forall|j: int| 0 <= j < k ==> players[j].id@ != id,
        k == players.len() || players[k].id@ == id,
    ensures
        first_player_index(players, id) == k,
    decreases players.len(),
{
    if players.len() > 0 && k > 0 {
        assert forall|j: int| 0 <= j < k - 1 implies players.drop_first()[j].id@ != id by {
            assert(players.drop_first()[j] == players[j + 1]);
        }
        lemma_first_player_index(players.drop_first(), id, k - 1);
    }
}

/// An element of a filtered sequence is an element of the sequence.
proof fn lemma_filter_subset<A>(s: Seq<A>, pred: spec_fn(A) -> bool, i: int)
    requires
        0 <= i < s.filter(pred).len(),
    ensures
        s.contains(s.filter(pred)[i]),
        pred(s.filter(pred)[i]),
{
    s.lemma_filter_pred(pred, i);
    assert(s.filter(pred).contains(s.filter(pred)[i]));
    s.lemma_filter_contains_rev(pred, s.filter(pred)[i]);
}

/// Filtering keeps distinct ids distinct.
proof fn lemma_filter_ids_unique(s: Seq<PlayerInfo>, pred: spec_fn(PlayerInfo) -> bool)
    requires
        ids_unique(s),
    ensures
        ids_unique(s.filter(pred)),
    decreases s.len(),
{
    reveal(Seq::filter);
    if s.len() > 0 {
        lemma_filter_ids_unique(s.drop_last(), pred);
        let f = s.drop_last().filter(pred);
        if pred(s.last()) {
            assert forall|i: int, j: int|
                0 <= i < j < s.filter(pred).len() implies #[trigger] s.filter(pred)[i].id@
                != #[trigger] s.filter(pred)[j].id@ by {
                if j == f.len() {
                    lemma_filter_subset(s.drop_last(), pred, i);
                    let k = choose|k: int| 0 <= k < s.drop_last().len() && s.drop_last()[k] == f[i];
                    assert(s[k] == f[i]);
                    assert(s[s.len() - 1] == s.last());
                } else {
                    assert(s.filter(pred)[i] == f[i]);
                    assert(s.filter(pred)[j] == f[j]);
                }
            }
        }
        assert forall|i: int, j: int| 0 <= i < j < s.drop_last().len() implies #[trigger] s.drop_last()[i].id@
            != #[trigger] s.drop_last()[j].id@ by {
            assert(s.drop_last()[i] == s[i]);
            assert(s.drop_last()[j] == s[j]);
        }
    }
}

// ---------------------------------------------------------------------------
// Executable functions
// ---------------------------------------------------------------------------

/// A field-by-field copy of a player.
pub fn copy_player(p: &PlayerInfo) -> (q: PlayerInfo)
    ensures
        q == *p,
{
    PlayerInfo {
        id: p.id.clone(),
        name: p.name.clone(),
        uuid: p.uuid.clone(),
        player_type: p.player_type,
        auth_account: match &p.auth_account {
            Some(a) => Some(a.clone()),
            None => None,
        },
        auth_server_url: match &p.auth_server_url {
            Some(a) => Some(a.clone()),
            None => None,
        },
    }
}

/// A field-by-field copy of a server entry.
fn copy_server(s: &AuthServerInfo) -> (r: AuthServerInfo)
    ensures
        r == *s,
{
    AuthServerInfo { auth_url: s.auth_url.clone(), has_metadata: s.has_metadata }
}

/// Whether some player has id `id`.
pub fn contains_player_id(players: &Vec<PlayerInfo>, id: &String) -> (r: bool)
    ensures
        r == has_id(players@, id@),
{
    let mut i: usize = 0;
    while i < players.len()
        invariant
            i <= players@.len(),
            forall|j: int| 0 <= j < i ==> players@[j].id@ != id@,
        decreases players@.len() - i,
    {
        if players[i].id == *id {
            return true;
        }
        i = i + 1;
    }
    false
}

/// Index of the first player with id `id`, if any.
pub fn find_player_index(players: &Vec<PlayerInfo>, id: &String) -> (r: Option<usize>)
    ensures
        match r {
            Some(k) => k == first_player_index(players@, id@) && k < players@.len(),
            None => first_player_index(players@, id@) == players@.len(),
        },
{
    let mut i: usize = 0;
    while i < players.len() && players[i].id != *id
        invariant
            i <= players@.len(),
            forall|j: int| 0 <= j < i ==> players@[j].id@ != id@,
        decreases players@.len() - i,
    {
        i = i + 1;
    }
    proof {
        lemma_first_player_index(players@, id@, i as int);
    }
    if i < players.len() {
        Some(i)
    } else {
        None
    }
}

/// The first remaining player's id, or an empty id.
fn fallback_selection_exec(players: &Vec<PlayerInfo>) -> (r: String)
    ensures
        r@ == fallback_selection(players@),
{
    if players.len() > 0 {
        players[0].id.clone()
    } else {
        string_of(Vec::<char>::new().as_slice())
    }
}

/// The players whose id differs from `id`.
fn players_without_id(players: &Vec<PlayerInfo>, id: &String) -> (r: Vec<PlayerInfo>)
    ensures
        r@ == without_id(players@, id@),
{
    let mut r: Vec<PlayerInfo> = Vec::new();
    let mut i: usize = 0;
    while i < players.len()
        invariant
            i <= players@.len(),
            r@ == without_id(players@.take(i as int), id@),
        decreases players@.len() - i,
    {
        proof {
            assert(players@.take(i + 1) =~= players@.take(i as int).push(players@[i as int]));
            players@.take(i as int).lemma_filter_push(
                players@[i as int],
                id_differs(id@),
            );
        }
        if players[i].id != *id {
            r.push(copy_player(&players[i]));
        }
        i = i + 1;
    }
    assert(players@.take(players@.len() as int) =~= players@);
    r
}

/// Add a logged-in player: refused as a duplicate when its id is stored;
/// otherwise stored and selected.
pub fn add_new_player(
    account: &mut AccountInfo,
    selected_player_id: &mut String,
    new_player: PlayerInfo,
) -> (r: Result<(), AccountError>)
    ensures
        (final(account).players@, final(selected_player_id)@, r) == spec_add_player(
            old(account).players@,
            old(selected_player_id)@,
            new_player,
        ),
        final(account).auth_servers == old(account).auth_servers,
        final(account).is_oauth_processing == old(account).is_oauth_processing,
{
    if contains_player_id(&account.players, &new_player.id) {
        return Err(AccountError::Duplicate);
    }
    *selected_player_id = new_player.id.clone();
    account.players.push(new_player);
    Ok(())
}

/// Store a player chosen from a login's results and select it.
pub fn push_selected_player(
    account: &mut AccountInfo,
    selected_player_id: &mut String,
    player: PlayerInfo,
)
    ensures
        final(account).players@ == old(account).players@.push(player),
        final(selected_player_id)@ == player.id@,
        final(account).auth_servers == old(account).auth_servers,
        final(account).is_oauth_processing == old(account).is_oauth_processing,
{
    *selected_player_id = player.id.clone();
    account.players.push(player);
}

/// Delete a player; a deleted selection falls back to the first remaining player.
pub fn remove_player(
    account: &mut AccountInfo,
    selected_player_id: &mut String,
    player_id: &String,
) -> (r: Result<(), AccountError>)
    ensures
        (final(account).players@, final(selected_player_id)@, r) == spec_delete_player(
            old(account).players@,
            old(selected_player_id)@,
            player_id@,
        ),
        final(account).auth_servers == old(account).auth_servers,
        final(account).is_oauth_processing == old(account).is_oauth_processing,
{
    let kept = players_without_id(&account.players, player_id);
    if kept.len() == account.players.len() {
        return Err(AccountError::NotFound);
    }
    if *selected_player_id == *player_id {
        *selected_player_id = fallback_selection_exec(&kept);
    }
    account.players = kept;
    Ok(())
}

/// Whether a player uses the authentication server `url`.
fn uses_server_exec(p: &PlayerInfo, url: &String) -> (r: bool)
    ensures
        r == uses_server(*p, url@),
{
    match &p.auth_server_url {
        Some(u) => *u == *url,
        None => false,
    }
}

/// Delete an authentication server and every player using it; a deleted
/// selection falls back to the first remaining player.
pub fn remove_auth_server(
    account: &mut AccountInfo,
    selected_player_id: &mut String,
    url: &String,
) -> (r: Result<(), AccountError>)
    ensures
        (
            final(account).auth_servers@,
            final(account).players@,
            final(selected_player_id)@,
            r,
        ) == spec_delete_auth_server(
            old(account).auth_servers@,
            old(account).players@,
            old(selected_player_id)@,
            url@,
        ),
        final(account).is_oauth_processing == old(account).is_oauth_processing,
{
    let ghost servers = account.auth_servers@;
    let ghost players = account.players@;
    let mut kept_servers: Vec<AuthServerInfo> = Vec::new();
    let mut i: usize = 0;
    while i < account.auth_servers.len()
        invariant
            i <= servers.len(),
            servers == account.auth_servers@,
            kept_servers@ == without_server(servers.take(i as int), url@),
        decreases servers.len() - i,
    {
        proof {
            assert(servers.take(i + 1) =~= servers.take(i as int).push(servers[i as int]));
            servers.take(i as int).lemma_filter_push(
                servers[i as int],
                url_differs(url@),
            );
        }
        if account.auth_servers[i].auth_url != *url {
            kept_servers.push(copy_server(&account.auth_servers[i]));
        }
        i = i + 1;
    }
    assert(servers.take(servers.len() as int) =~= servers);
    if kept_servers.len() == account.auth_servers.len() {
        return Err(AccountError::NotFound);
    }
    let mut kept: Vec<PlayerInfo> = Vec::new();
    let mut need_reset = false;
    let mut j: usize = 0;
    while j < account.players.len()
        invariant
            j <= players.len(),
            players == account.players@,
            kept@ == without_server_players(players.take(j as int), url@),
            need_reset == exists|k: int|
                0 <= k < j && uses_server(players[k], url@) && players[k].id@
                    == selected_player_id@,
        decreases players.len() - j,
    {
        proof {
            assert(players.take(j + 1) =~= players.take(j as int).push(players[j as int]));
            players.take(j as int).lemma_filter_push(
                players[j as int],
                not_using(url@),
            );
        }
        let should_remove = uses_server_exec(&account.players[j], url);
        if should_remove && account.players[j].id == *selected_player_id {
            need_reset = true;
        }
        if !should_remove {
            kept.push(copy_player(&account.players[j]));
        }
        j = j + 1;
    }
    assert(players.take(players.len() as int) =~= players);
    if need_reset {
        *selected_player_id = fallback_selection_exec(&kept);
    }
    account.auth_servers = kept_servers;
    account.players = kept;
    Ok(())
}

/// Replace the first player with id `player_id`; returns whether one was found.
pub fn replace_player(account: &mut AccountInfo, player_id: &String, new_player: PlayerInfo) -> (r:
    bool)
    ensures
        final(account).players@ == spec_replace_player(
            old(account).players@,
            player_id@,
            new_player,
        ),
        r == (first_player_index(old(account).players@, player_id@) < old(account).players@.len()),
        final(account).auth_servers == old(account).auth_servers,
        final(account).is_oauth_processing == old(account).is_oauth_processing,
{
    match find_player_index(&account.players, player_id) {
        Some(k) => {
            account.players.set(k, new_player);
            true
        },
        None => false,
    }
}

/// The stored player with id `player_id`, or `NotFound`.
pub fn stored_player(account: &AccountInfo, player_id: &String) -> (r: Result<
    PlayerInfo,
    AccountError,
>)
    ensures
        match r {
            Ok(p) => {
                let k = first_player_index(account.players@, player_id@);
                k < account.players@.len() && p == account.players@[k]
            },
            Err(e) => e == AccountError::NotFound && first_player_index(
                account.players@,
                player_id@,
            ) == account.players@.len(),
        },
{
    match find_player_index(&account.players, player_id) {
        Some(k) => Ok(copy_player(&account.players[k])),
        None => Err(AccountError::NotFound),
    }
}

/// The OAuth flow of a player type; offline players have none.
pub fn oauth_provider(server_type: PlayerType) -> (r: Result<OAuthProvider, AccountError>)
    ensures
        server_type == PlayerType::ThirdParty ==> r == Ok::<OAuthProvider, AccountError>(
            OAuthProvider::AuthlibInjector,
        ),
        server_type == PlayerType::Microsoft ==> r == Ok::<OAuthProvider, AccountError>(
            OAuthProvider::Microsoft,
        ),
        server_type == PlayerType::Offline ==> r == Err::<OAuthProvider, AccountError>(
            AccountError::Invalid,
        ),
{
    match server_type {
        PlayerType::ThirdParty => Ok(OAuthProvider::AuthlibInjector),
        PlayerType::Microsoft => Ok(OAuthProvider::Microsoft),
        PlayerType::Offline => Err(AccountError::Invalid),
    }
}

/// A password relogin is only for third-party players.
pub fn check_password_relogin(player: &PlayerInfo) -> (r: Result<(), AccountError>)
    ensures
        r is Ok <==> player.player_type == PlayerType::ThirdParty,
        r is Err ==> r == Err::<(), AccountError>(AccountError::Invalid),
{
    if player.player_type != PlayerType::ThirdParty {
        return Err(AccountError::Invalid);
    }
    Ok(())
}

/// Among the players a password relogin returned, the one with `uuid`.
pub fn find_relogin_player(candidates: Vec<PlayerInfo>, uuid: &String) -> (r: Result<
    PlayerInfo,
    AccountError,
>)
    ensures
        match r {
            Ok(p) => exists|k: int|
                0 <= k < candidates@.len() && candidates@[k] == p && p.uuid@ == uuid@ && forall|
                    j: int,
                | 0 <= j < k ==> candidates@[j].uuid@ != uuid@,
            Err(e) => e == AccountError::NotFound && forall|j: int|
                0 <= j < candidates@.len() ==> candidates@[j].uuid@ != uuid@,
        },
{
    let mut i: usize = 0;
    while i < candidates.len()
        invariant
            i <= candidates@.len(),
            forall|j: int| 0 <= j < i ==> candidates@[j].uuid@ != uuid@,
        decreases candidates@.len() - i,
    {
        if candidates[i].uuid == *uuid {
            return Ok(copy_player(&candidates[i]));
        }
        i = i + 1;
    }
    Err(AccountError::NotFound)
}

/// Decide what to do with the players a login returned: `NotFound` when it
/// returned none, `Duplicate` when all are stored already; a single new
/// player (or the first one, when the server selected a profile) is added;
/// otherwise the user chooses among the new ones.
pub fn classify_new_players(
    existing: &Vec<PlayerInfo>,
    new_players: Vec<PlayerInfo>,
    has_selected: bool,
) -> (r: Result<NewPlayersOutcome, AccountError>)
    ensures
        new_players@.len() == 0 ==> r == Err::<NewPlayersOutcome, AccountError>(
            AccountError::NotFound,
        ),
        new_players@.len() > 0 && new_only(existing@, new_players@).len() == 0 ==> r == Err::<
            NewPlayersOutcome,
            AccountError,
        >(AccountError::Duplicate),
        new_only(existing@, new_players@).len() > 0 && (new_only(existing@, new_players@).len()
            == 1 || has_selected) ==> (r matches Ok(NewPlayersOutcome::AddSingle(p)) && p
            == new_only(existing@, new_players@)[0]),
        new_only(existing@, new_players@).len() > 1 && !has_selected ==> (r matches Ok(
            NewPlayersOutcome::Choose(v),
        ) && v@ == new_only(existing@, new_players@)),
{
    if new_players.len() == 0 {
        return Err(AccountError::NotFound);
    }
    let mut fresh: Vec<PlayerInfo> = Vec::new();
    let mut i: usize = 0;
    while i < new_players.len()
        invariant
            i <= new_players@.len(),
            fresh@ == new_only(existing@, new_players@.take(i as int)),
        decreases new_players@.len() - i,
    {
        proof {
            assert(new_players@.take(i + 1) =~= new_players@.take(i as int).push(
                new_players@[i as int],
            ));
            new_players@.take(i as int).lemma_filter_push(
                new_players@[i as int],
                not_stored(existing@),
            );
        }
        if !contains_player_id(existing, &new_players[i].id) {
            fresh.push(copy_player(&new_players[i]));
        }
        i = i + 1;
    }
    assert(new_players@.take(new_players@.len() as int) =~= new_players@);
    if fresh.len() == 0 {
        return Err(AccountError::Duplicate);
    }
    if fresh.len() == 1 || has_selected {
        let first = copy_player(&fresh[0]);
        return Ok(NewPlayersOutcome::AddSingle(first));
    }
    Ok(NewPlayersOutcome::Choose(fresh))
}

/// Whether the stored servers need their metadata fetched again.
pub fn auth_servers_need_refresh(account: &AccountInfo) -> (r: bool)
    ensures
        r == exists|i: int|
            0 <= i < account.auth_servers@.len() && !account.auth_servers@[i].has_metadata,
{
    let mut i: usize = 0;
    while i < account.auth_servers.len()
        invariant
            i <= account.auth_servers@.len(),
            forall|j: int| 0 <= j < i ==> account.auth_servers@[j].has_metadata,
        decreases account.auth_servers@.len() - i,
    {
        if !account.auth_servers[i].has_metadata {
            return true;
        }
        i = i + 1;
    }
    false
}

/// Check a skin preset for an offline player: `NotFound` without such a
/// player, `Invalid` when it is not offline, `TextureError` for an unknown
/// preset; otherwise the player's index.
pub fn check_offline_skin_preset(account: &AccountInfo, player_id: &String, preset_role: &str) -> (r:
    Result<usize, AccountError>)
    ensures
        ({
            let k = first_player_index(account.players@, player_id@);
            &&& k == account.players@.len() ==> r == Err::<usize, AccountError>(
                AccountError::NotFound,
            )
            &&& (k < account.players@.len() && account.players@[k].player_type
                != PlayerType::Offline) ==> r == Err::<usize, AccountError>(AccountError::Invalid)
            &&& (k < account.players@.len() && account.players@[k].player_type
                == PlayerType::Offline && !crate::export_common::in_names(
                preset_role@,
                texture_roles(),
            )) ==> r == Err::<usize, AccountError>(AccountError::TextureError)
            &&& (k < account.players@.len() && account.players@[k].player_type
                == PlayerType::Offline && crate::export_common::in_names(
                preset_role@,
                texture_roles(),
            )) ==> r == Ok::<usize, AccountError>(k as usize)
        }),
{
    let k = match find_player_index(&account.players, player_id) {
        Some(k) => k,
        None => return Err(AccountError::NotFound),
    };
    if account.players[k].player_type != PlayerType::Offline {
        return Err(AccountError::Invalid);
    }
    let roles: [&'static str; 2] = ["steve", "alex"];
    assert(roles@ =~= texture_roles());
    let role = chars_of(preset_role);
    if crate::export_common::in_names_exec(role.as_slice(), roles.as_slice()) {
        Ok(k)
    } else {
        Err(AccountError::TextureError)
    }
}

/// The serialisation of the URL `url::Url::parse` makes of `s`, if it
/// parses.
pub uninterp spec fn url_parse_of(s: Seq<char>) -> Option<Seq<char>>;

/// `url::Url::parse`, then `Url::as_str` of the parsed URL, or the parse
/// error's `Display` text. Claimed: it parses exactly when `url_parse_of(s)`
/// is some serialisation, and then gives that serialisation; the error's
/// text is left unsaid.
#[verifier::external_body]
pub(crate) fn url_parse(s: &str) -> (r: Result<String, String>)
    ensures
        match r {
            Ok(u) => url_parse_of(s@) == Some(u@),
            Err(_) => url_parse_of(s@) is None,
        },
{
    url::Url::parse(s).map(|u| u.as_str().to_string()).map_err(|e| e.to_string())
}

/// The URL of an authentication server the user typed: as typed when it
/// parses, else with `https://` in front; `Invalid` when neither parses.
pub fn parse_auth_server_url(url: &str) -> (r: Result<String, AccountError>)
    ensures
        match url_parse_of(url@) {
            Some(u) => r matches Ok(s) && s@ == u,
            None => match url_parse_of("https://"@ + url@) {
                Some(u) => r matches Ok(s) && s@ == u,
                None => r == Err::<String, AccountError>(AccountError::Invalid),
            },
        },
{
    if let Ok(u) = url_parse(url) {
        return Ok(u);
    }
    let mut v = chars_of("https://");
    append_chars(&mut v, chars_of(url).as_slice());
    let with_scheme = string_of(v.as_slice());
    match url_parse(with_scheme.as_str()) {
        Ok(u) => Ok(u),
        Err(_) => Err(AccountError::Invalid),
    }
}

// ---------------------------------------------------------------------------
// Laws
// ---------------------------------------------------------------------------

/// Adding a player keeps ids distinct and the selection valid; when it
/// succeeds the new player is stored and selected.
pub proof fn law_add_player(players: Seq<PlayerInfo>, selected: Seq<char>, p: PlayerInfo)
    requires
        ids_unique(players),
        selection_valid(players, selected),
    ensures
        ({
            let (ps, sel, r) = spec_add_player(players, selected, p);
            &&& ids_unique(ps)
            &&& selection_valid(ps, sel)
            &&& r is Ok ==> has_id(ps, p.id@) && sel == p.id@
            &&& r is Err ==> ps == players && sel == selected
        }),
{
    let (ps, sel, r) = spec_add_player(players, selected, p);
    if r is Ok {
        assert(ps[players.len() as int] == p);
        assert forall|i: int, j: int| 0 <= i < j < ps.len() implies #[trigger] ps[i].id@
            != #[trigger] ps[j].id@ by {
            if j == players.len() {
                assert(ps[i] == players[i]);
            } else {
                assert(ps[i] == players[i]);
                assert(ps[j] == players[j]);
            }
        }
    }
}

/// Deleting a player keeps ids distinct and the selection valid, and no
/// player with the deleted id remains.
pub proof fn law_delete_player(players: Seq<PlayerInfo>, selected: Seq<char>, id: Seq<char>)
    requires
        ids_unique(players),
        selection_valid(players, selected),
    ensures
        ({
            let (ps, sel, r) = spec_delete_player(players, selected, id);
            &&& ids_unique(ps)
            &&& selection_valid(ps, sel)
            &&& !has_id(ps, id)
            &&& r is Err <==> !has_id(players, id)
            &&& r is Err ==> ps == players && sel == selected
            &&& r is Ok && selected != id ==> sel == selected
            &&& r is Ok && selected == id && ps.len() > 0 ==> sel == ps[0].id@
            &&& r is Ok && selected == id && ps.len() == 0 ==> sel.len() == 0
            &&& forall|i: int|
                0 <= i < players.len() && #[trigger] players[i].id@ != id ==> ps.contains(players[i])
        }),
{
    broadcast use vstd::seq_lib::group_filter_ensures;

    let pred = id_differs(id);
    let kept = without_id(players, id);
    lemma_filter_ids_unique(players, pred);
    assert forall|i: int| 0 <= i < kept.len() implies kept[i].id@ != id by {
        lemma_filter_subset(players, pred, i);
    }
    if has_id(players, id) {
        let k = choose|k: int| 0 <= k < players.len() && players[k].id@ == id;
        lemma_filter_shorter(players, pred, k);
    } else {
        lemma_filter_all_keep(players, pred);
    }
    let (ps, sel, r) = spec_delete_player(players, selected, id);
    if r is Ok && sel != fallback_selection(kept) && sel.len() > 0 {
        assert(sel == selected);
        let k = choose|k: int| 0 <= k < players.len() && players[k].id@ == selected;
        players.lemma_filter_contains(pred, k);
        let m = choose|m: int| 0 <= m < kept.len() && kept[m] == players[k];
    }
    if r is Ok && sel == fallback_selection(kept) && kept.len() > 0 {
        assert(kept[0].id@ == sel);
    }
    assert forall|i: int|
        0 <= i < players.len() && #[trigger] players[i].id@ != id implies ps.contains(players[i]) by {
        if r is Ok {
            players.lemma_filter_contains(pred, i);
        }
    }
}

/// A filter that drops some element is shorter.
proof fn lemma_filter_shorter<A>(s: Seq<A>, pred: spec_fn(A) -> bool, k: int)
    requires
        0 <= k < s.len(),
        !pred(s[k]),
    ensures
        s.filter(pred).len() < s.len(),
    decreases s.len(),
{
    reveal(Seq::filter);
    s.drop_last().lemma_filter_len(pred);
    if k < s.len() - 1 {
        assert(s.drop_last()[k] == s[k]);
        lemma_filter_shorter(s.drop_last(), pred, k);
    }
}

/// A filter that drops nothing keeps the sequence.
proof fn lemma_filter_all_keep<A>(s: Seq<A>, pred: spec_fn(A) -> bool)
    requires
        forall|i: int| 0 <= i < s.len() ==> pred(#[trigger] s[i]),
    ensures
        s.filter(pred) == s,
    decreases s.len(),
{
    reveal(Seq::filter);
    if s.len() > 0 {
        assert forall|i: int| 0 <= i < s.drop_last().len() implies pred(#[trigger] s.drop_last()[i]) by {
            assert(s.drop_last()[i] == s[i]);
        }
        lemma_filter_all_keep(s.drop_last(), pred);
        assert(pred(s[s.len() - 1]));
        assert(s.drop_last().push(s.last()) =~= s);
    }
}

/// Deleting an authentication server keeps ids distinct and the selection
/// valid; when it succeeds no remaining server has the url and no remaining
/// player uses it, and when it fails nothing changes.
pub proof fn law_delete_auth_server(
    servers: Seq<AuthServerInfo>,
    players: Seq<PlayerInfo>,
    selected: Seq<char>,
    url: Seq<char>,
)
    requires
        ids_unique(players),
        selection_valid(players, selected),
    ensures
        ({
            let (ss, ps, sel, r) = spec_delete_auth_server(servers, players, selected, url);
            &&& ids_unique(ps)
            &&& selection_valid(ps, sel)
            &&& r is Ok ==> forall|i: int| 0 <= i < ps.len() ==> !uses_server(#[trigger] ps[i], url)
            &&& r is Ok ==> forall|i: int| 0 <= i < ss.len() ==> (#[trigger] ss[i]).auth_url@ != url
            &&& r is Err ==> ss == servers && ps == players && sel == selected
            &&& r is Ok && !(exists|i: int|
                0 <= i < players.len() && uses_server(players[i], url) && #[trigger] players[i].id@
                    == selected) ==> sel == selected
            &&& r is Ok && (exists|i: int|
                0 <= i < players.len() && uses_server(players[i], url) && #[trigger] players[i].id@
                    == selected) ==> (ps.len() > 0 ==> sel == ps[0].id@) && (ps.len() == 0
                ==> sel.len() == 0)
            &&& forall|i: int|
                0 <= i < players.len() && !uses_server(#[trigger] players[i], url) ==> ps.contains(
                    players[i],
                )
        }),
{
    broadcast use vstd::seq_lib::group_filter_ensures;

    let pred = not_using(url);
    let spred = url_differs(url);
    let kept = without_server_players(players, url);
    lemma_filter_ids_unique(players, pred);
    assert forall|i: int| 0 <= i < kept.len() implies !uses_server(#[trigger] kept[i], url) by {
        lemma_filter_subset(players, pred, i);
    }
    let ks = without_server(servers, url);
    assert forall|i: int| 0 <= i < ks.len() implies (#[trigger] ks[i]).auth_url@ != url by {
        lemma_filter_subset(servers, spred, i);
    }
    let (ss, ps, sel, r) = spec_delete_auth_server(servers, players, selected, url);
    if r is Ok {
        let reset = exists|i: int|
            0 <= i < players.len() && uses_server(players[i], url) && players[i].id@ == selected;
        if !reset && selected.len() > 0 {
            let k = choose|k: int| 0 <= k < players.len() && players[k].id@ == selected;
            assert(!uses_server(players[k], url));
            players.lemma_filter_contains(pred, k);
            let m = choose|m: int| 0 <= m < kept.len() && kept[m] == players[k];
        }
        if reset && kept.len() > 0 {
            assert(kept[0].id@ == sel);
        }
    }
    assert forall|i: int|
        0 <= i < players.len() && !uses_server(#[trigger] players[i], url) implies ps.contains(
            players[i],
        ) by {
        if r is Ok {
            players.lemma_filter_contains(pred, i);
        }
    }
}

/// Replacing a player by one with the same id keeps ids distinct and the
/// selection valid.
pub proof fn law_replace_player(
    players: Seq<PlayerInfo>,
    selected: Seq<char>,
    id: Seq<char>,
    p: PlayerInfo,
)
    requires
        ids_unique(players),
        selection_valid(players, selected),
        p.id@ == id,
    ensures
        ids_unique(spec_replace_player(players, id, p)),
        selection_valid(spec_replace_player(players, id, p), selected),
        spec_replace_player(players, id, p).len() == players.len(),
{
    let k = first_player_index(players, id);
    lemma_first_player_index_bound(players, id);
    let ps = spec_replace_player(players, id, p);
    if k < players.len() {
        assert forall|i: int| 0 <= i < ps.len() implies (#[trigger] ps[i]).id@ == players[i].id@ by {
            if i == k {
            }
        }
        assert forall|i: int, j: int| 0 <= i < j < ps.len() implies #[trigger] ps[i].id@
            != #[trigger] ps[j].id@ by {
            assert(ps[i].id@ == players[i].id@);
            assert(ps[j].id@ == players[j].id@);
        }
        if selected.len() > 0 {
            let m = choose|m: int| 0 <= m < players.len() && players[m].id@ == selected;
            assert(ps[m].id@ == players[m].id@);
        }
    }
}

/// The first index of an id names a player with that id, when in range.
proof fn lemma_first_player_index_bound(players: Seq<PlayerInfo>, id: Seq<char>)
    ensures
        0 <= first_player_index(players, id) <= players.len(),
        first_player_index(players, id) < players.len() ==> players[first_player_index(
            players,
            id,
        )].id@ == id,
    decreases players.len(),
{
    if players.len() > 0 && players[0].id@ != id {
        lemma_first_player_index_bound(players.drop_first(), id);
    }
}

/// A player that login classification adds is not stored yet, so storing it
/// keeps ids distinct and selects a stored player.
pub proof fn law_classified_player_is_new(
    existing: Seq<PlayerInfo>,
    candidates: Seq<PlayerInfo>,
    selected: Seq<char>,
)
    requires
        ids_unique(existing),
        new_only(existing, candidates).len() > 0,
    ensures
        !has_id(existing, new_only(existing, candidates)[0].id@),
        ids_unique(existing.push(new_only(existing, candidates)[0])),
        selection_valid(
            existing.push(new_only(existing, candidates)[0]),
            new_only(existing, candidates)[0].id@,
        ),
{
    let pred = not_stored(existing);
    lemma_filter_subset(candidates, pred, 0);
    let p = new_only(existing, candidates)[0];
    let ps = existing.push(p);
    assert(ps[existing.len() as int] == p);
    assert forall|i: int, j: int| 0 <= i < j < ps.len() implies #[trigger] ps[i].id@
        != #[trigger] ps[j].id@ by {
        assert(ps[i] == existing[i]);
        if j < existing.len() {
            assert(ps[j] == existing[j]);
        }
    }
}

} // verus!
