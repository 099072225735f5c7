use taxonia::auth::begin_callback;
use taxonia::auth::complete_callback;
use taxonia::auth::login_url;
use taxonia::auth::me;
use taxonia::config::Config;
use taxonia::errors::ApiError;
use taxonia::errors::status_of;
use taxonia::inat::InatUser;
use taxonia::inat::OAuthTokenResponse;
use taxonia::inat::first_user;
use taxonia::inat::token_from_response;
use taxonia::session::SessionStore;
use taxonia::users::UserRepo;

const NOW: i64 = 1_700_000_000;

fn config() -> Config {
    Config::from_values(
        "https://taxonia.app",
        "postgres://localhost/taxonia".to_string(),
        "redis://localhost".to_string(),
        "127.0.0.1:8080".to_string(),
        "https://api.taxonia.app".to_string(),
        "client-id".to_string(),
        "client-secret".to_string(),
        "https://api.taxonia.app/auth/callback".to_string(),
        "https://www.inaturalist.org".to_string(),
        "https://taxonia.app/auth/callback".to_string(),
        None,
    )
    .unwrap()
}

fn stub_token_response() -> OAuthTokenResponse {
    OAuthTokenResponse {
        access_token: "SECRET-REDACTED".to_string(),
        token_type: "Bearer".to_string(),
        scope: Some("read".to_string()),
        refresh_token: Some("SECRET-REDACTED".to_string()),
        expires_in: Some(3600),
        created_at: Some(NOW),
    }
}

fn stub_profile() -> InatUser {
    InatUser {
        id: 777,
        login: "heron".to_string(),
        name: Some("Heron Spotter".to_string()),
        icon_url: None,
        email: Some("heron@example.org".to_string()),
    }
}

#[test]
fn token_expiry_is_created_at_plus_expires_in() {
    let token = token_from_response(stub_token_response());
    assert_eq!(token.access_token, "SECRET-REDACTED");
    assert_eq!(token.expires_at, Some(NOW + 3600));
    let mut no_created = stub_token_response();
    no_created.created_at = None;
    assert_eq!(token_from_response(no_created).expires_at, None);
    let mut no_expiry = stub_token_response();
    no_expiry.expires_in = None;
    assert_eq!(token_from_response(no_expiry).expires_at, None);
}

#[test]
fn empty_profile_list_is_a_transport_error() {
    assert_eq!(first_user(Vec::new()).unwrap_err(), ApiError::Transport);
    let got = first_user(vec![stub_profile()]).unwrap();
    assert_eq!(got.id, 777);
    assert_eq!(got.login, "heron");
}

#[test]
fn login_url_embeds_state_and_encoded_redirect() {
    let mut store = SessionStore::new();
    let cfg = config();
    let issued = login_url(&mut store, &cfg, NOW);
    assert_eq!(issued.state.chars().count(), 32);
    assert!(issued.state.chars().all(|c| c.is_ascii_alphanumeric()));
    assert!(issued.url.starts_with("https://www.inaturalist.org/oauth/authorize?client_id=client-id"));
    assert!(issued.url.contains("&redirect_uri=https%3A%2F%2Fapi.taxonia.app%2Fauth%2Fcallback"));
    assert!(issued.url.contains("&response_type=code&scope=read"));
    assert!(issued.url.ends_with(&format!("&state={}", issued.state)));
}

#[test]
fn callback_links_once_sets_cookie_and_redirects() {
    let mut store = SessionStore::new();
    let mut dir = UserRepo::new();
    let cfg = config();

    let issued = login_url(&mut store, &cfg, NOW);
    begin_callback(&mut store, &issued.state, NOW + 30).expect("fresh state is accepted");

    let token = token_from_response(stub_token_response());
    let profile = first_user(vec![stub_profile()]).unwrap();
    let resp = complete_callback(&mut dir, &mut store, &cfg, &profile, &token, NOW + 31);

    assert_eq!(resp.status, 302);
    assert_eq!(resp.location, "https://taxonia.app/auth/callback");
    assert_eq!(resp.cookie.name, "taxonia_session");
    assert_eq!(resp.cookie.value, resp.session_id);
    assert!(resp.cookie.http_only);
    assert!(resp.cookie.same_site_lax);
    assert!(!resp.cookie.secure);
    assert_eq!(resp.cookie.path, "/");
    assert_eq!(dir.user_count(), 1);
    assert_eq!(dir.identity_count(), 1);

    let session = store.get_session(&resp.session_id, NOW + 40).unwrap();
    assert_eq!(session.user_id, resp.user_id);
}

#[test]
fn callback_cookie_is_secure_in_production() {
    let mut store = SessionStore::new();
    let mut dir = UserRepo::new();
    let cfg = Config::from_values(
        "",
        "postgres://localhost/taxonia".to_string(),
        "redis://localhost".to_string(),
        "127.0.0.1:8080".to_string(),
        "https://api.taxonia.app".to_string(),
        "client-id".to_string(),
        "client-secret".to_string(),
        "https://api.taxonia.app/auth/callback".to_string(),
        "https://www.inaturalist.org".to_string(),
        "https://taxonia.app/auth/callback".to_string(),
        Some("production".to_string()),
    )
    .unwrap();
    let token = token_from_response(stub_token_response());
    let resp = complete_callback(&mut dir, &mut store, &cfg, &stub_profile(), &token, NOW);
    assert!(resp.cookie.secure);
}

#[test]
fn second_callback_with_same_state_gets_400() {
    let mut store = SessionStore::new();
    let cfg = config();
    let issued = login_url(&mut store, &cfg, NOW);
    assert!(begin_callback(&mut store, &issued.state, NOW + 1).is_ok());
    let err = begin_callback(&mut store, &issued.state, NOW + 2).unwrap_err();
    assert_eq!(err, ApiError::InvalidOAuthState);
    assert_eq!(status_of(&err), 400);
}

#[test]
fn expired_state_gets_400() {
    let mut store = SessionStore::new();
    let cfg = config();
    let issued = login_url(&mut store, &cfg, NOW);
    let err = begin_callback(&mut store, &issued.state, NOW + 600).unwrap_err();
    assert_eq!(status_of(&err), 400);
}

#[test]
fn me_is_unauthorized_without_a_valid_session() {
    let store = SessionStore::new();
    let dir = UserRepo::new();
    assert_eq!(me(&dir, &store, None, NOW).unwrap_err(), ApiError::Unauthorized);
    assert_eq!(
        me(&dir, &store, Some("notarealsession"), NOW).unwrap_err(),
        ApiError::Unauthorized
    );
}

#[test]
fn me_is_unauthorized_once_the_session_expired() {
    let mut store = SessionStore::new();
    let mut dir = UserRepo::new();
    let cfg = config();
    let token = token_from_response(stub_token_response());
    let resp = complete_callback(&mut dir, &mut store, &cfg, &stub_profile(), &token, NOW);
    let late = NOW + 604800;
    assert_eq!(
        me(&dir, &store, Some(&resp.session_id), late).unwrap_err(),
        ApiError::Unauthorized
    );
}

#[test]
fn me_returns_the_linked_user() {
    let mut store = SessionStore::new();
    let mut dir = UserRepo::new();
    let cfg = config();
    let token = token_from_response(stub_token_response());
    let resp = complete_callback(&mut dir, &mut store, &cfg, &stub_profile(), &token, NOW);
    let body = me(&dir, &store, Some(&resp.session_id), NOW + 10).unwrap();
    assert_eq!(body.id, resp.user_id);
    assert_eq!(body.display_name, "Heron Spotter");
    assert_eq!(body.primary_email, None);
}
