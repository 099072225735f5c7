//! The authentication flow: login URL, OAuth callback, and resolving
//! the current user from a session cookie.
//!
//! Every decision is made here over the directory and store models; the
//! host program performs the HTTP round trips to the identity provider
//! and carries the cookie and redirect of the response.

use crate::config::Config;
use crate::errors::ApiError;
use crate::inat::InatUser;
use crate::inat::TokenWithExpiry;
use crate::random::generate_random_id;
use crate::random::is_alphanumeric_id;
use crate::session::SessionData;
use crate::session::SessionStore;
use crate::session::StoreModel;
use crate::session::spec_consume_oauth_state;
use crate::session::spec_create_session;
use crate::session::spec_get_session;
use crate::session::spec_store_oauth_state;
use crate::session::state_live;
use crate::session::OAUTH_STATE_TTL_SECONDS;
use crate::session::SESSION_TTL_SECONDS;
use crate::users::DirectoryModel;
use crate::users::UserModel;
use crate::users::UserRepo;
use crate::users::spec_upsert_inat_user;
use vstd::prelude::*;
use vstd::string::StringExecFns;

verus! {

/// The user row behind an authenticated request.
#[derive(Debug)]
pub struct UserRow {
    pub id: i64,
    pub display_name: String,
    pub primary_email: Option<String>,
}

/// Body of `GET /auth/me`.
#[derive(Debug)]
pub struct MeResponse {
    pub id: i64,
    pub display_name: String,
    pub primary_email: Option<String>,
}

/// The session cookie attached to a successful callback response.
#[derive(Debug)]
pub struct CookieSpec {
    pub name: String,
    pub value: String,
    pub http_only: bool,
    pub same_site_lax: bool,
    pub secure: bool,
    pub path: String,
}

/// A freshly issued provider authorization URL and the anti-forgery
/// state embedded in it.
#[derive(Debug)]
pub struct IssuedLoginUrl {
    pub url: String,
    pub state: String,
}

/// A successful callback: a redirect carrying the session cookie.
#[derive(Debug)]
pub struct CallbackResponse {
    pub status: u16,
    pub location: String,
    pub cookie: CookieSpec,
    pub user_id: i64,
    pub session_id: String,
}

/// What `urlencoding::encode` returns on a given string.
pub uninterp spec fn url_encoded(s: Seq<char>) -> Seq<char>;

/// Relies on urlencoding::encode: percent-encodes every byte except
/// ASCII alphanumerics and `-`, `_`, `.`, `~`; a pure function of its
/// argument.
#[verifier::external_body]
fn url_encode(s: &str) -> (r: String)
    ensures
        r@ == url_encoded(s@),
{
    urlencoding::encode(s).into_owned()
}

/// The authorization URL for a given state token.
pub open spec fn spec_login_url(cfg: Config, state: Seq<char>) -> Seq<char> {
    cfg.inat_base_url@ + "/oauth/authorize?client_id="@ + cfg.inat_client_id@ + "&redirect_uri="@
        + url_encoded(cfg.inat_redirect_uri@) + "&response_type=code&scope=read&state="@ + state
}

/// Issue a login URL: generate a random state, remember it for ten
/// minutes, and point the browser at the provider's authorization
/// endpoint with the client id, the encoded redirect URI and the state.
pub fn login_url(store: &mut SessionStore, cfg: &Config, now: i64) -> (r: IssuedLoginUrl)
    requires
        old(store).wf(),
        now <= i64::MAX - OAUTH_STATE_TTL_SECONDS,
    ensures
        final(store).wf(),
        r.state@.len() == 32,
        is_alphanumeric_id(r.state@),
        final(store)@ == spec_store_oauth_state(old(store)@, r.state@, now),
        r.url@ == spec_login_url(*cfg, r.state@),
{
    let state = generate_random_id();
    store.store_oauth_state(state.as_str(), now);
    let mut url = cfg.inat_base_url.clone();
    url.append("/oauth/authorize?client_id=");
    url.append(cfg.inat_client_id.as_str());
    url.append("&redirect_uri=");
    let encoded = url_encode(cfg.inat_redirect_uri.as_str());
    url.append(encoded.as_str());
    url.append("&response_type=code&scope=read&state=");
    url.append(state.as_str());
    IssuedLoginUrl { url, state }
}

/// First step of the callback: the anti-forgery state must be live and
/// is consumed either way it is checked; an unknown or expired state is
/// the client's error and stops the flow.
pub fn begin_callback(store: &mut SessionStore, state: &str, now: i64) -> (r: Result<(), ApiError>)
    requires
        old(store).wf(),
    ensures
        final(store).wf(),
        final(store)@ == spec_consume_oauth_state(old(store)@, state@, now).0,
        r == if state_live(old(store)@, state@, now) {
            Ok::<(), ApiError>(())
        } else {
            Err::<(), ApiError>(ApiError::InvalidOAuthState)
        },
{
    if store.consume_oauth_state(state, now) {
        Ok(())
    } else {
        Err(ApiError::InvalidOAuthState)
    }
}

/// Last step of the callback, after the provider returned a verified
/// profile: link the profile to a local user, open a session for seven
/// days, and answer with a redirect to the application that carries the
/// session cookie — HTTP-only, same-site lax, path `/`, and secure
/// exactly in production.
pub fn complete_callback(
    dir: &mut UserRepo,
    store: &mut SessionStore,
    cfg: &Config,
    profile: &InatUser,
    token: &TokenWithExpiry,
    now: i64,
) -> (r: CallbackResponse)
    requires
        old(dir).wf(),
        old(store).wf(),
        old(dir)@.next_user_id < i64::MAX,
        now <= i64::MAX - SESSION_TTL_SECONDS,
    ensures
        final(dir).wf(),
        final(store).wf(),
        final(dir)@ == spec_upsert_inat_user(old(dir)@, *profile, *token, now).0,
        r.user_id as int == spec_upsert_inat_user(old(dir)@, *profile, *token, now).1,
        r.session_id@.len() == 32,
        is_alphanumeric_id(r.session_id@),
        final(store)@ == spec_create_session(old(store)@, r.session_id@, r.user_id, now),
        r.status == 302,
        r.location == cfg.app_redirect_uri,
        r.cookie.name@ == "taxonia_session"@,
        r.cookie.value == r.session_id,
        r.cookie.http_only,
        r.cookie.same_site_lax,
        r.cookie.secure == (cfg.app_env == crate::config::AppEnv::Production),
        r.cookie.path@ == "/"@,
{
    let user_id = dir.upsert_inat_user(profile, token, now);
    let session_id = store.create_session(user_id, now);
    let cookie = CookieSpec {
        name: "taxonia_session".to_owned(),
        value: session_id.clone(),
        http_only: true,
        same_site_lax: true,
        secure: cfg.is_prod(),
        path: "/".to_owned(),
    };
    CallbackResponse {
        status: 302,
        location: cfg.app_redirect_uri.clone(),
        cookie,
        user_id,
        session_id,
    }
}

/// Who a session identifier belongs to: the session must be live and
/// the user row must still exist; a dangling session is a persistence
/// failure, not an authorization one.
pub open spec fn spec_resolve_session(
    d: DirectoryModel,
    s: StoreModel,
    sid: Seq<char>,
    now: i64,
) -> Result<(int, UserModel), ApiError> {
    match spec_get_session(s, sid, now) {
        None => Err(ApiError::Unauthorized),
        Some(sess) => if d.users.contains_key(sess.user_id as int) {
            Ok((sess.user_id as int, d.users[sess.user_id as int]))
        } else {
            Err(ApiError::Persistence)
        },
    }
}

/// Whether a returned user row reports exactly the user model `m` with
/// id `uid`.
pub open spec fn user_row_matches(row: UserRow, uid: int, m: UserModel) -> bool {
    &&& row.id as int == uid
    &&& row.display_name@ == m.display_name
    &&& row.primary_email.deep_view() == m.primary_email
}

/// Resolve the current user from the request's session cookie: no
/// cookie or a dead session is unauthorized; a live session resolves
/// through the directory.
pub fn get_current_user(
    dir: &UserRepo,
    store: &SessionStore,
    session_cookie: Option<&str>,
    now: i64,
) -> (r: Result<UserRow, ApiError>)
    requires
        dir.wf(),
        store.wf(),
    ensures
        match session_cookie {
            None => r == Err::<UserRow, ApiError>(ApiError::Unauthorized),
            Some(sid) => match spec_resolve_session(dir@, store@, sid@, now) {
                Ok((uid, m)) => r matches Ok(row) && user_row_matches(row, uid, m),
                Err(e) => r == Err::<UserRow, ApiError>(e),
            },
        },
{
    let sid = match session_cookie {
        None => {
            return Err(ApiError::Unauthorized);
        },
        Some(sid) => sid,
    };
    let session: SessionData = match store.get_session(sid, now) {
        None => {
            return Err(ApiError::Unauthorized);
        },
        Some(s) => s,
    };
    match dir.find_user(session.user_id) {
        None => Err(ApiError::Persistence),
        Some(u) => Ok(
            UserRow { id: u.id, display_name: u.display_name, primary_email: u.primary_email },
        ),
    }
}

/// Answer `GET /auth/me`: the linked user's id, display name and
/// primary email, or 401 without a valid session.
pub fn me(
    dir: &UserRepo,
    store: &SessionStore,
    session_cookie: Option<&str>,
    now: i64,
) -> (r: Result<MeResponse, ApiError>)
    requires
        dir.wf(),
        store.wf(),
    ensures
        match session_cookie {
            None => r == Err::<MeResponse, ApiError>(ApiError::Unauthorized),
            Some(sid) => match spec_resolve_session(dir@, store@, sid@, now) {
                Ok((uid, m)) => r matches Ok(resp) && resp.id as int == uid && resp.display_name@
                    == m.display_name && resp.primary_email.deep_view() == m.primary_email,
                Err(e) => r == Err::<MeResponse, ApiError>(e),
            },
        },
{
    match get_current_user(dir, store, session_cookie, now) {
        Ok(u) => Ok(
            MeResponse { id: u.id, display_name: u.display_name, primary_email: u.primary_email },
        ),
        Err(e) => Err(e),
    }
}


/// A state accepted by one callback is rejected by every later one —
/// the first call redirects, the second fails as the client's error,
/// which reaches the wire as HTTP 400.
pub proof fn lemma_second_callback_rejected(m: StoreModel, state: Seq<char>, now1: i64, now2: i64)
    ensures
        spec_consume_oauth_state(m, state, now1).1 ==> !spec_consume_oauth_state(
            spec_consume_oauth_state(m, state, now1).0,
            state,
            now2,
        ).1,
        crate::errors::spec_status_of(ApiError::InvalidOAuthState) == 400,
{
    crate::session::lemma_oauth_state_single_use(m, state, now1, now2);
}


/// A session issued by the callback resolves to the user the login was
/// linked to for seven days, and is unauthorized from the moment it
/// expires.
pub proof fn lemma_issued_session_resolves(
    d: DirectoryModel,
    s: StoreModel,
    profile: InatUser,
    token: TokenWithExpiry,
    sid: Seq<char>,
    user_id: i64,
    now: i64,
    t: i64,
)
    requires
        user_id as int == spec_upsert_inat_user(d, profile, token, now).1,
    ensures
        t < now + SESSION_TTL_SECONDS ==> (spec_resolve_session(
            spec_upsert_inat_user(d, profile, token, now).0,
            spec_create_session(s, sid, user_id, now),
            sid,
            t,
        ) matches Ok(p) && p.0 == user_id as int),
        t >= now + SESSION_TTL_SECONDS ==> spec_resolve_session(
            spec_upsert_inat_user(d, profile, token, now).0,
            spec_create_session(s, sid, user_id, now),
            sid,
            t,
        ) == Err::<(int, UserModel), ApiError>(ApiError::Unauthorized),
{
    crate::users::lemma_upsert_user_exists(d, profile, token, now);
    crate::session::lemma_session_retrievable(s, sid, user_id, now, t);
}

} // verus!
