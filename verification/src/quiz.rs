//! Quiz results: request-level rules and the storage model.
//!
//! A score travels as a fixed-point count of millionths, clamped to
//! [0, 1] before it is stored; listings come back newest first with
//! `limit` clamped to [1, 100] and `offset` floored at 0. The SQL
//! statements that persist the same rows are issued by the host
//! program.

use vstd::prelude::*;

verus! {

/// One whole point of score, in millionths.
pub const SCORE_SCALE: i64 = 1000000;

/// Largest page size a listing may ask for.
pub const MAX_LIST_LIMIT: i64 = 100;

/// Body of `POST /quiz/results`.
#[derive(Debug)]
pub struct SaveQuizResultRequest {
    /// A string identifier for the quiz mode.
    pub quiz_type: String,
    /// Arbitrary quiz configuration, as a JSON document carried
    /// verbatim.
    pub params: String,
    /// Final score in millionths of a point; a whole point is
    /// `SCORE_SCALE`.
    pub score_micros: i64,
    /// Optional total number of questions.
    pub question_count: Option<i32>,
    /// Optional duration in seconds.
    pub duration_seconds: Option<i32>,
}

/// One listed quiz result.
#[derive(Debug)]
pub struct QuizResultRow {
    pub id: i64,
    pub quiz_type: String,
    pub params: String,
    pub score_micros: i64,
    pub question_count: Option<i32>,
    pub duration_seconds: Option<i32>,
    pub created_at: i64,
}

/// Abstract content of a stored quiz result.
pub ghost struct ResultModel {
    pub user_id: int,
    pub id: int,
    pub quiz_type: Seq<char>,
    pub params: Seq<char>,
    pub score_micros: int,
    pub question_count: Option<i32>,
    pub duration_seconds: Option<i32>,
    pub created_at: int,
}

/// Abstract content of the log: results in insertion order, and the
/// next id the database would assign.
#[verifier::ext_equal]
pub ghost struct LogModel {
    pub results: Seq<ResultModel>,
    pub next_id: int,
}

/// The page size actually used: clamped to [1, 100].
pub open spec fn spec_clamp_limit(limit: i64) -> i64 {
    if limit < 1 {
        1
    } else if limit > MAX_LIST_LIMIT {
        MAX_LIST_LIMIT
    } else {
        limit
    }
}

/// The offset actually used: floored at 0.
pub open spec fn spec_clamp_offset(offset: i64) -> i64 {
    if offset < 0 {
        0
    } else {
        offset
    }
}

/// The score actually stored: clamped to [0, SCORE_SCALE].
pub open spec fn spec_clamp_score(score_micros: i64) -> i64 {
    if score_micros < 0 {
        0
    } else if score_micros > SCORE_SCALE {
        SCORE_SCALE
    } else {
        score_micros
    }
}

/// Page size when the query names none.
pub fn default_limit() -> (l: i64)
    ensures
        l == 20,
{
    20
}

/// Offset when the query names none.
pub fn default_offset() -> (o: i64)
    ensures
        o == 0,
{
    0
}

/// Clamp a requested page size to [1, 100].
pub fn clamp_limit(limit: i64) -> (l: i64)
    ensures
        l == spec_clamp_limit(limit),
        1 <= l <= MAX_LIST_LIMIT,
{
    if limit < 1 {
        1
    } else if limit > MAX_LIST_LIMIT {
        MAX_LIST_LIMIT
    } else {
        limit
    }
}

/// Floor a requested offset at 0.
pub fn clamp_offset(offset: i64) -> (o: i64)
    ensures
        o == spec_clamp_offset(offset),
        0 <= o,
{
    if offset < 0 {
        0
    } else {
        offset
    }
}

/// Clamp a submitted score to [0, 1] — that is, to [0, SCORE_SCALE]
/// millionths.
pub fn clamp_score(score_micros: i64) -> (s: i64)
    ensures
        s == spec_clamp_score(score_micros),
        0 <= s <= SCORE_SCALE,
{
    if score_micros < 0 {
        0
    } else if score_micros > SCORE_SCALE {
        SCORE_SCALE
    } else {
        score_micros
    }
}

/// One stored quiz result row.
struct StoredResult {
    user_id: i64,
    id: i64,
    quiz_type: String,
    params: String,
    score_micros: i64,
    question_count: Option<i32>,
    duration_seconds: Option<i32>,
    created_at: i64,
}

pub open spec fn spec_stored_model(
    user_id: int,
    id: int,
    quiz_type: Seq<char>,
    params: Seq<char>,
    score_micros: int,
    question_count: Option<i32>,
    duration_seconds: Option<i32>,
    created_at: int,
) -> ResultModel {
    ResultModel {
        user_id,
        id,
        quiz_type,
        params,
        score_micros,
        question_count,
        duration_seconds,
        created_at,
    }
}

spec fn stored_model_of(r: StoredResult) -> ResultModel {
    ResultModel {
        user_id: r.user_id as int,
        id: r.id as int,
        quiz_type: r.quiz_type@,
        params: r.params@,
        score_micros: r.score_micros as int,
        question_count: r.question_count,
        duration_seconds: r.duration_seconds,
        created_at: r.created_at as int,
    }
}

/// Whether a listed row reports exactly the stored result `m`.
pub open spec fn row_matches(row: QuizResultRow, m: ResultModel) -> bool {
    &&& row.id as int == m.id
    &&& row.quiz_type@ == m.quiz_type
    &&& row.params@ == m.params
    &&& row.score_micros as int == m.score_micros
    &&& row.question_count == m.question_count
    &&& row.duration_seconds == m.duration_seconds
    &&& row.created_at as int == m.created_at
}

/// The results of `user_id`, in insertion order.
pub open spec fn user_filter(results: Seq<ResultModel>, user_id: int) -> Seq<ResultModel> {
    results.filter(|r: ResultModel| r.user_id == user_id)
}

/// The results of `user_id`, newest first.
pub open spec fn user_results_desc(results: Seq<ResultModel>, user_id: int) -> Seq<ResultModel> {
    user_filter(results, user_id).reverse()
}

/// The log after a result is inserted, and the id it was assigned.
pub open spec fn spec_insert_result(m: LogModel, rec: ResultModel) -> (LogModel, int) {
    (
        LogModel {
            results: m.results.push(
                ResultModel {
                    user_id: rec.user_id,
                    id: m.next_id,
                    quiz_type: rec.quiz_type,
                    params: rec.params,
                    score_micros: rec.score_micros,
                    question_count: rec.question_count,
                    duration_seconds: rec.duration_seconds,
                    created_at: rec.created_at,
                },
            ),
            next_id: m.next_id + 1,
        },
        m.next_id,
    )
}

/// In-memory realization of the quiz-result log.
pub struct QuizRepo {
    results: Vec<StoredResult>,
    next_id: i64,
}

impl View for QuizRepo {
    type V = LogModel;

    closed spec fn view(&self) -> LogModel {
        LogModel {
            results: Seq::new(self.results@.len(), |i: int| stored_model_of(self.results@[i])),
            next_id: self.next_id as int,
        }
    }
}

impl QuizRepo {
    /// Results were inserted in chronological order (the database
    /// stamps each row with its commit time) and ids grow with them.
    pub closed spec fn wf(&self) -> bool {
        &&& forall|i: int, j: int|
            0 <= i < j < self.results@.len() ==> self.results@[i].created_at
                <= self.results@[j].created_at
        &&& forall|i: int|
            0 <= i < self.results@.len() ==> (#[trigger] self.results@[i]).id < self.next_id
    }

    /// An empty log; the database would assign 1 to the first row.
    pub fn new() -> (repo: Self)
        ensures
            repo.wf(),
            repo@.results == Seq::<ResultModel>::empty(),
            repo@.next_id == 1,
    {
        let repo = QuizRepo { results: Vec::new(), next_id: 1 };
        proof {
            assert(repo@.results =~= Seq::<ResultModel>::empty());
        }
        repo
    }

    /// The latest stored creation instant, as a bound new rows must
    /// respect; 0 when the log is empty.
    pub open spec fn latest_created_at(m: LogModel) -> int {
        if m.results.len() == 0 {
            0
        } else {
            m.results.last().created_at
        }
    }

    /// Whether a row created at `now` keeps the log chronological.
    pub open spec fn accepts_insert_at(m: LogModel, now: i64) -> bool {
        m.results.len() == 0 || m.results.last().created_at <= now
    }

    /// Store one immutable result row; the caller has already clamped
    /// the score.
    pub fn insert_quiz_result(
        &mut self,
        user_id: i64,
        quiz_type: &str,
        params: &str,
        score_micros: i64,
        question_count: Option<i32>,
        duration_seconds: Option<i32>,
        now: i64,
    ) -> (id: i64)
        requires
            old(self).wf(),
            old(self)@.next_id < i64::MAX,
            Self::accepts_insert_at(old(self)@, now),
        ensures
            final(self).wf(),
            final(self)@ == spec_insert_result(
                old(self)@,
                spec_stored_model(
                    user_id as int,
                    0,
                    quiz_type@,
                    params@,
                    score_micros as int,
                    question_count,
                    duration_seconds,
                    now as int,
                ),
            ).0,
            id as int == old(self)@.next_id,
    {
        let id = self.next_id;
        let row = StoredResult {
            user_id,
            id,
            quiz_type: quiz_type.to_owned(),
            params: params.to_owned(),
            score_micros,
            question_count,
            duration_seconds,
            created_at: now,
        };
        self.results.push(row);
        self.next_id = id + 1;
        proof {
            assert(self@.results =~= spec_insert_result(
                old(self)@,
                spec_stored_model(
                    user_id as int,
                    0,
                    quiz_type@,
                    params@,
                    score_micros as int,
                    question_count,
                    duration_seconds,
                    now as int,
                ),
            ).0.results);
            assert forall|i: int, j: int|
                0 <= i < j < self.results@.len() implies self.results@[i].created_at
                <= self.results@[j].created_at by {
                if j < self.results@.len() - 1 {
                    assert(self.results@[j] == old(self).results@[j]);
                }
                assert(self.results@[i] == old(self).results@[i]);
                if old(self).results@.len() > 0 {
                    assert(old(self).results@[i].created_at <= old(
                        self,
                    ).results@.last().created_at);
                }
            }
        }
        id
    }

    /// The id the database would assign to the next new row.
    pub fn next_id_value(&self) -> (n: i64)
        ensures
            n as int == self@.next_id,
    {
        self.next_id
    }

    /// The creation instant of the newest stored row, or 0 when the
    /// log is empty.
    pub fn latest_created_at_value(&self) -> (t: i64)
        ensures
            t as int == Self::latest_created_at(self@),
    {
        if self.results.len() == 0 {
            0
        } else {
            self.results[self.results.len() - 1].created_at
        }
    }

    /// How many results are stored.
    pub fn result_count(&self) -> (n: usize)
        ensures
            n == self@.results.len(),
    {
        self.results.len()
    }

    /// The page of `user_id`'s results, newest first, skipping
    /// `offset` and returning at most `limit` rows; the caller has
    /// already clamped both.
    pub fn list_quiz_results_for_user(&self, user_id: i64, limit: i64, offset: i64) -> (rows: Vec<
        QuizResultRow,
    >)
        requires
            self.wf(),
            1 <= limit <= MAX_LIST_LIMIT,
            0 <= offset,
        ensures
            ({
                let sel = user_results_desc(self@.results, user_id as int);
                let skipped = if offset as int <= sel.len() {
                    offset as int
                } else {
                    sel.len() as int
                };
                let cnt = if skipped + limit as int <= sel.len() {
                    limit as int
                } else {
                    sel.len() - skipped
                };
                &&& rows@.len() == cnt
                &&& forall|k: int|
                    0 <= k < cnt ==> row_matches(#[trigger] rows@[k], sel[skipped + k])
            }),
    {
        let ghost uid = user_id as int;
        let n = self.results.len();
        let mut matches: Vec<usize> = Vec::new();
        let mut i: usize = 0;
        proof {
            reveal_with_fuel(Seq::filter, 1);
            assert(self@.results.take(0).len() == 0);
        }
        while i < n
            invariant
                i <= n,
                n == self.results@.len(),
                uid == user_id as int,
                ({
                    let fil = user_filter(self@.results.take(i as int), uid);
                    &&& matches@.len() == fil.len()
                    &&& forall|k: int|
                        0 <= k < matches@.len() ==> (#[trigger] matches@[k]) < i
                            && stored_model_of(self.results@[matches@[k] as int]) == fil[k]
                }),
            decreases n - i,
        {
            proof {
                assert(self@.results.take(i as int + 1).drop_last() =~= self@.results.take(
                    i as int,
                ));
                assert(self@.results.take(i as int + 1).last() == stored_model_of(
                    self.results@[i as int],
                ));
            }
            let ghost prev = user_filter(self@.results.take(i as int), uid);
            let ghost cur = user_filter(self@.results.take(i as int + 1), uid);
            if self.results[i].user_id == user_id {
                matches.push(i);
                proof {
                    reveal_with_fuel(Seq::filter, 2);
                    assert(stored_model_of(self.results@[i as int]).user_id == uid);
                    assert(cur == prev.push(stored_model_of(self.results@[i as int])));
                }
            } else {
                proof {
                    reveal_with_fuel(Seq::filter, 2);
                    assert(stored_model_of(self.results@[i as int]).user_id != uid);
                    assert(cur == prev);
                }
            }
            i = i + 1;
        }
        proof {
            assert(self@.results.take(n as int) =~= self@.results);
        }
        let ghost fil = user_filter(self@.results, uid);
        let ghost sel = user_results_desc(self@.results, uid);
        let m = matches.len();
        let mut rows: Vec<QuizResultRow> = Vec::new();
        let limit_n: usize = limit as usize;
        let mut skipped: i64 = 0;
        let mut j: usize = m;
        while j > 0
            invariant
                j <= m,
                m == matches@.len(),
                m == fil.len(),
                uid == user_id as int,
                fil == user_filter(self@.results, uid),
                sel == user_results_desc(self@.results, uid),
                n == self.results@.len(),
                limit_n as int == limit as int,
                1 <= limit <= MAX_LIST_LIMIT,
                0 <= offset,
                forall|k: int|
                    0 <= k < matches@.len() ==> (#[trigger] matches@[k]) < n && stored_model_of(
                        self.results@[matches@[k] as int],
                    ) == fil[k],
                skipped == if offset <= m - j {
                    offset as int
                } else {
                    m - j
                },
                rows@.len() == if (m - j) - skipped <= limit {
                    (m - j) - skipped
                } else {
                    limit as int
                },
                forall|k: int| 0 <= k < rows@.len() ==> row_matches(#[trigger] rows@[k], sel[skipped + k]),
            decreases j,
        {
            j = j - 1;
            proof {
                assert(sel[m - 1 - j] == fil[j as int]);
            }
            if skipped < offset {
                skipped = skipped + 1;
            } else if rows.len() < limit_n {
                let idx = matches[j];
                let r = &self.results[idx];
                let row = QuizResultRow {
                    id: r.id,
                    quiz_type: r.quiz_type.clone(),
                    params: r.params.clone(),
                    score_micros: r.score_micros,
                    question_count: r.question_count,
                    duration_seconds: r.duration_seconds,
                    created_at: r.created_at,
                };
                rows.push(row);
            }
        }
        rows
    }
}

} // verus!
