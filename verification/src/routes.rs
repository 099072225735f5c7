//! The quiz endpoints: what `POST /quiz/results` and
//! `GET /quiz/results` do once the transport has handed over the
//! session cookie, the body and the query parameters.

use crate::auth::get_current_user;
use crate::auth::spec_resolve_session;
use crate::errors::ApiError;
use crate::quiz::QuizRepo;
use crate::quiz::QuizResultRow;
use crate::quiz::SaveQuizResultRequest;
use crate::quiz::clamp_limit;
use crate::quiz::clamp_offset;
use crate::quiz::clamp_score;
use crate::quiz::default_limit;
use crate::quiz::default_offset;
use crate::quiz::row_matches;
use crate::quiz::spec_clamp_limit;
use crate::quiz::spec_clamp_offset;
use crate::quiz::spec_clamp_score;
use crate::quiz::spec_insert_result;
use crate::quiz::spec_stored_model;
use crate::quiz::user_results_desc;
use crate::session::SessionStore;
use crate::users::UserRepo;
use vstd::prelude::*;

verus! {

/// Save a completed quiz result for the current user. The score is
/// clamped to [0, 1] here, at the routing layer, before it reaches
/// storage.
pub fn save_result(
    dir: &UserRepo,
    store: &SessionStore,
    repo: &mut QuizRepo,
    session_cookie: Option<&str>,
    req: &SaveQuizResultRequest,
    now: i64,
) -> (r: Result<i64, ApiError>)
    requires
        dir.wf(),
        store.wf(),
        old(repo).wf(),
        old(repo)@.next_id < i64::MAX,
        QuizRepo::accepts_insert_at(old(repo)@, now),
    ensures
        final(repo).wf(),
        match session_cookie {
            None => r == Err::<i64, ApiError>(ApiError::Unauthorized) && final(repo)@ == old(
                repo,
            )@,
            Some(sid) => match spec_resolve_session(dir@, store@, sid@, now) {
                Err(e) => r == Err::<i64, ApiError>(e) && final(repo)@ == old(repo)@,
                Ok((uid, m)) => {
                    &&& r matches Ok(id) && id as int == old(repo)@.next_id
                    &&& final(repo)@ == spec_insert_result(
                        old(repo)@,
                        spec_stored_model(
                            uid,
                            0,
                            req.quiz_type@,
                            req.params@,
                            spec_clamp_score(req.score_micros) as int,
                            req.question_count,
                            req.duration_seconds,
                            now as int,
                        ),
                    ).0
                },
            },
        },
{
    let user = match get_current_user(dir, store, session_cookie, now) {
        Ok(u) => u,
        Err(e) => {
            return Err(e);
        },
    };
    let score = clamp_score(req.score_micros);
    let id = repo.insert_quiz_result(
        user.id,
        req.quiz_type.as_str(),
        req.params.as_str(),
        score,
        req.question_count,
        req.duration_seconds,
        now,
    );
    Ok(id)
}

/// List recent quiz results for the current user, newest first. An
/// absent page size defaults to 20 and is clamped to [1, 100]; an
/// absent offset defaults to 0 and is floored at 0.
pub fn list_results(
    dir: &UserRepo,
    store: &SessionStore,
    repo: &QuizRepo,
    session_cookie: Option<&str>,
    limit: Option<i64>,
    offset: Option<i64>,
    now: i64,
) -> (r: Result<Vec<QuizResultRow>, ApiError>)
    requires
        dir.wf(),
        store.wf(),
        repo.wf(),
    ensures
        match session_cookie {
            None => r == Err::<Vec<QuizResultRow>, ApiError>(ApiError::Unauthorized),
            Some(sid) => match spec_resolve_session(dir@, store@, sid@, now) {
                Err(e) => r == Err::<Vec<QuizResultRow>, ApiError>(e),
                Ok((uid, m)) => ({
                    let lim = spec_clamp_limit(
                        match limit {
                            None => 20,
                            Some(l) => l,
                        },
                    );
                    let off = spec_clamp_offset(
                        match offset {
                            None => 0,
                            Some(o) => o,
                        },
                    );
                    let sel = user_results_desc(repo@.results, uid);
                    let skipped = if off as int <= sel.len() {
                        off as int
                    } else {
                        sel.len() as int
                    };
                    let cnt = if skipped + lim as int <= sel.len() {
                        lim as int
                    } else {
                        sel.len() - skipped
                    };
                    &&& r matches Ok(rows)
                    &&& rows@.len() == cnt
                    &&& forall|k: int|
                        0 <= k < cnt ==> row_matches(#[trigger] rows@[k], sel[skipped + k])
                }),
            },
        },
{
    let lim = clamp_limit(
        match limit {
            None => default_limit(),
            Some(l) => l,
        },
    );
    let off = clamp_offset(
        match offset {
            None => default_offset(),
            Some(o) => o,
        },
    );
    let user = match get_current_user(dir, store, session_cookie, now) {
        Ok(u) => u,
        Err(e) => {
            return Err(e);
        },
    };
    Ok(repo.list_quiz_results_for_user(user.id, lim, off))
}

} // verus!
