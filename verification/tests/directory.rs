use taxonia::inat::InatUser;
use taxonia::inat::TokenWithExpiry;
use taxonia::users::UserRepo;

const NOW: i64 = 1_700_000_000;

fn profile(id: i64, login: &str, name: Option<&str>) -> InatUser {
    InatUser {
        id,
        login: login.to_string(),
        name: name.map(|s| s.to_string()),
        icon_url: None,
        email: None,
    }
}

fn token() -> TokenWithExpiry {
    TokenWithExpiry {
        access_token: "SECRET-REDACTED".to_string(),
        refresh_token: None,
        expires_at: Some(NOW + 3600),
    }
}

#[test]
fn first_login_creates_one_user_and_one_identity() {
    let mut repo = UserRepo::new();
    let uid = repo.upsert_inat_user(&profile(900, "finch", Some("Finch Watcher")), &token(), NOW);
    assert_eq!(uid, 1);
    assert_eq!(repo.user_count(), 1);
    assert_eq!(repo.identity_count(), 1);
    let row = repo.find_user(uid).expect("user row should exist");
    assert_eq!(row.display_name, "Finch Watcher");
    assert_eq!(row.primary_email, None);
    assert_eq!(row.created_at, NOW);
}

#[test]
fn repeated_logins_never_create_a_second_row_pair() {
    let mut repo = UserRepo::new();
    let uid1 = repo.upsert_inat_user(&profile(900, "finch", Some("Finch Watcher")), &token(), NOW);
    let uid2 = repo.upsert_inat_user(&profile(900, "finch", Some("Finch W.")), &token(), NOW + 10);
    let uid3 = repo.upsert_inat_user(&profile(900, "finch", Some("Finch W.")), &token(), NOW + 20);
    assert_eq!(uid1, uid2);
    assert_eq!(uid2, uid3);
    assert_eq!(repo.user_count(), 1);
    assert_eq!(repo.identity_count(), 1);
}

#[test]
fn relogin_refreshes_display_name_and_login_time() {
    let mut repo = UserRepo::new();
    let uid = repo.upsert_inat_user(&profile(900, "finch", Some("Old Name")), &token(), NOW);
    repo.upsert_inat_user(&profile(900, "finch", Some("New Name")), &token(), NOW + 50);
    let row = repo.find_user(uid).unwrap();
    assert_eq!(row.display_name, "New Name");
    assert_eq!(row.updated_at, NOW + 50);
    assert_eq!(row.last_login_at, Some(NOW + 50));
    assert_eq!(row.created_at, NOW);
}

#[test]
fn display_name_falls_back_to_login_handle() {
    let mut repo = UserRepo::new();
    let uid = repo.upsert_inat_user(&profile(901, "warbler", None), &token(), NOW);
    let row = repo.find_user(uid).unwrap();
    assert_eq!(row.display_name, "warbler");
}

#[test]
fn distinct_identities_get_distinct_users() {
    let mut repo = UserRepo::new();
    let a = repo.upsert_inat_user(&profile(900, "finch", None), &token(), NOW);
    let b = repo.upsert_inat_user(&profile(901, "warbler", None), &token(), NOW + 1);
    assert_ne!(a, b);
    assert_eq!(repo.user_count(), 2);
    assert_eq!(repo.identity_count(), 2);
}

#[test]
fn absent_user_is_not_found() {
    let repo = UserRepo::new();
    assert!(repo.find_user(5).is_none());
}
