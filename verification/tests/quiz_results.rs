use taxonia::quiz::QuizRepo;
use taxonia::quiz::SaveQuizResultRequest;
use taxonia::quiz::clamp_limit;
use taxonia::quiz::clamp_offset;
use taxonia::quiz::clamp_score;
use taxonia::quiz::default_limit;
use taxonia::quiz::default_offset;
use taxonia::quiz::SCORE_SCALE;
use taxonia::errors::ApiError;
use taxonia::inat::InatUser;
use taxonia::inat::TokenWithExpiry;
use taxonia::routes::list_results;
use taxonia::routes::save_result;
use taxonia::session::SessionStore;
use taxonia::users::UserRepo;

const NOW: i64 = 1_700_000_000;

#[test]
fn defaults_are_twenty_and_zero() {
    assert_eq!(default_limit(), 20);
    assert_eq!(default_offset(), 0);
}

#[test]
fn limit_is_clamped_to_one_through_hundred() {
    assert_eq!(clamp_limit(150), 100);
    assert_eq!(clamp_limit(100), 100);
    assert_eq!(clamp_limit(20), 20);
    assert_eq!(clamp_limit(1), 1);
    assert_eq!(clamp_limit(0), 1);
    assert_eq!(clamp_limit(-7), 1);
}

#[test]
fn offset_is_floored_at_zero() {
    assert_eq!(clamp_offset(-5), 0);
    assert_eq!(clamp_offset(0), 0);
    assert_eq!(clamp_offset(33), 33);
}

#[test]
fn score_is_clamped_to_the_unit_interval() {
    // 1.5 points stores as exactly 1.0; -0.2 stores as exactly 0.0.
    assert_eq!(clamp_score(1_500_000), SCORE_SCALE);
    assert_eq!(clamp_score(-200_000), 0);
    assert_eq!(clamp_score(730_000), 730_000);
    assert_eq!(clamp_score(SCORE_SCALE), SCORE_SCALE);
}

#[test]
fn inserted_results_list_newest_first() {
    let mut repo = QuizRepo::new();
    let a = repo.insert_quiz_result(9, "inat_observations", "{}", 500_000, Some(10), None, NOW);
    let b = repo.insert_quiz_result(9, "inat_observations", "{}", 600_000, Some(10), None, NOW + 1);
    let c = repo.insert_quiz_result(9, "inat_sounds", "{}", 700_000, None, Some(90), NOW + 2);
    assert_eq!((a, b, c), (1, 2, 3));
    let rows = repo.list_quiz_results_for_user(9, 100, 0);
    assert_eq!(rows.len(), 3);
    assert_eq!(rows[0].id, c);
    assert_eq!(rows[1].id, b);
    assert_eq!(rows[2].id, a);
    assert_eq!(rows[0].quiz_type, "inat_sounds");
    assert_eq!(rows[0].score_micros, 700_000);
    assert_eq!(rows[0].created_at, NOW + 2);
}

#[test]
fn listing_filters_by_user_and_paginates() {
    let mut repo = QuizRepo::new();
    for k in 0..5 {
        repo.insert_quiz_result(1, "inat_observations", "{}", 100_000 * k, None, None, NOW + k);
        repo.insert_quiz_result(2, "inat_observations", "{}", 0, None, None, NOW + k);
    }
    let all = repo.list_quiz_results_for_user(1, 100, 0);
    assert_eq!(all.len(), 5);
    let page = repo.list_quiz_results_for_user(1, 2, 1);
    assert_eq!(page.len(), 2);
    assert_eq!(page[0].id, all[1].id);
    assert_eq!(page[1].id, all[2].id);
    let past_end = repo.list_quiz_results_for_user(1, 100, 7);
    assert!(past_end.is_empty());
    let nobody = repo.list_quiz_results_for_user(3, 100, 0);
    assert!(nobody.is_empty());
}

#[test]
fn equal_timestamps_list_latest_insert_first() {
    let mut repo = QuizRepo::new();
    let a = repo.insert_quiz_result(4, "inat_observations", "{}", 0, None, None, NOW);
    let b = repo.insert_quiz_result(4, "inat_observations", "{}", 0, None, None, NOW);
    let rows = repo.list_quiz_results_for_user(4, 100, 0);
    assert_eq!(rows.len(), 2);
    assert_eq!(rows[0].id, b);
    assert_eq!(rows[1].id, a);
}

fn logged_in_world() -> (UserRepo, SessionStore, String) {
    let mut dir = UserRepo::new();
    let mut store = SessionStore::new();
    let profile = InatUser {
        id: 314,
        login: "tern".to_string(),
        name: None,
        icon_url: None,
        email: None,
    };
    let token = TokenWithExpiry {
        access_token: "SECRET-REDACTED".to_string(),
        refresh_token: None,
        expires_at: None,
    };
    let uid = dir.upsert_inat_user(&profile, &token, NOW);
    let sid = store.create_session(uid, NOW);
    (dir, store, sid)
}

fn request(score_micros: i64) -> SaveQuizResultRequest {
    SaveQuizResultRequest {
        quiz_type: "inat_observations".to_string(),
        params: "{\"taxon\":\"Aves\"}".to_string(),
        score_micros,
        question_count: Some(12),
        duration_seconds: Some(180),
    }
}

#[test]
fn save_requires_a_session() {
    let (dir, store, _sid) = logged_in_world();
    let mut repo = QuizRepo::new();
    let err = save_result(&dir, &store, &mut repo, None, &request(1), NOW).unwrap_err();
    assert_eq!(err, ApiError::Unauthorized);
    let err = save_result(&dir, &store, &mut repo, Some("bogus"), &request(1), NOW).unwrap_err();
    assert_eq!(err, ApiError::Unauthorized);
    assert_eq!(repo.result_count(), 0);
}

#[test]
fn save_stores_the_clamped_score() {
    let (dir, store, sid) = logged_in_world();
    let mut repo = QuizRepo::new();
    let id = save_result(&dir, &store, &mut repo, Some(&sid), &request(1_500_000), NOW + 1)
        .unwrap();
    save_result(&dir, &store, &mut repo, Some(&sid), &request(-200_000), NOW + 2).unwrap();
    let rows = list_results(&dir, &store, &repo, Some(&sid), None, None, NOW + 3).unwrap();
    assert_eq!(rows.len(), 2);
    assert_eq!(rows[1].id, id);
    assert_eq!(rows[1].score_micros, SCORE_SCALE);
    assert_eq!(rows[0].score_micros, 0);
    assert_eq!(rows[0].quiz_type, "inat_observations");
    assert_eq!(rows[0].params, "{\"taxon\":\"Aves\"}");
    assert_eq!(rows[0].question_count, Some(12));
    assert_eq!(rows[0].duration_seconds, Some(180));
}

#[test]
fn list_clamps_limit_and_offset() {
    let (dir, store, sid) = logged_in_world();
    let mut repo = QuizRepo::new();
    for k in 0..3 {
        save_result(&dir, &store, &mut repo, Some(&sid), &request(k * 100_000), NOW + k).unwrap();
    }
    let capped = list_results(&dir, &store, &repo, Some(&sid), Some(1000), Some(-4), NOW + 10)
        .unwrap();
    assert_eq!(capped.len(), 3);
    let one = list_results(&dir, &store, &repo, Some(&sid), Some(-9), None, NOW + 10).unwrap();
    assert_eq!(one.len(), 1);
    let err = list_results(&dir, &store, &repo, None, None, None, NOW + 10).unwrap_err();
    assert_eq!(err, ApiError::Unauthorized);
}
