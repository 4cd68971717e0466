//! The decisions of the GitHub search crawler: the search text of a date
//! window, when a window is split or skipped, when paging stops, what is
//! done with a search result, and how failed API calls are retried.
use vstd::prelude::*;
use crate::text::joined;
use crate::json::{JsonValue, json_get, json_str};

verus! {

broadcast use vstd::string::group_string_axioms;

/// The body GitHub sends for a search without results.
pub const EMPTY_REPLY: &'static str =
    r#"{"data":{"search":{"pageInfo":{"hasNextPage":false,"endCursor":null},"nodes":[]}}}"#;

/// Whether `a` and `b` hold the same characters.
pub fn str_equals(a: &str, b: &str) -> (res: bool)
    ensures
        res == (a@ == b@),
{
    let x = a.to_owned();
    let y = b.to_owned();
    x == y
}

/// Whether a response body is the reply to a search without results.
pub fn is_empty_reply(text: &str) -> (res: bool)
    ensures
        res == (text@ == EMPTY_REPLY@),
{
    str_equals(text, EMPTY_REPLY)
}

/// The search text for repositories with topic `query`, the stars filter,
/// created between `lower` and `upper` (both already formatted as
/// `%Y-%m-%dT%H:%M:%SZ`).
pub fn search_query_text(query: &str, stars_filter: &str, lower: &str, upper: &str) -> (res: String)
    ensures
        res@ == "topic:"@ + query@ + " "@ + stars_filter@ + " created:"@ + lower@ + ".."@ + upper@,
{
    let mut out = joined("topic:", query);
    out.append(" ");
    out.append(stars_filter);
    out.append(" created:");
    out.append(lower);
    out.append("..");
    out.append(upper);
    out
}

// ---------------------------------------------------------------------------
// Date windows
// ---------------------------------------------------------------------------

/// The step, in days, that a window starts with: the requested step, but at
/// least one day.
pub fn base_step(step: u64) -> (res: u64)
    ensures
        res == if step >= 1 { step } else { 1 },
{
    if step >= 1 {
        step
    } else {
        1
    }
}

/// What happens after a window has been tried: whether the crawler moves
/// on to the next window, and the step of the next try.
#[derive(Debug, Clone, Copy)]
pub struct WindowStep {
    pub advance: bool,
    pub next_step: u64,
}

/// After a window: a window that worked, or that failed with a step of one
/// day, is left behind and the step goes back to `base`; a window that
/// failed with a larger step is tried again with half the step (at least
/// one day).
pub fn after_window(dynamic_step: u64, base: u64, window_failed: bool) -> (res: WindowStep)
    ensures
        !window_failed ==> res.advance && res.next_step == base,
        window_failed && dynamic_step > 1 ==> !res.advance && res.next_step == (if dynamic_step
            / 2 >= 1 {
            dynamic_step / 2
        } else {
            1
        }),
        window_failed && dynamic_step <= 1 ==> res.advance && res.next_step == base,
        // A window is never tried forever: the step stays between one day
        // and the base step, and a window that is tried again gets a
        // strictly smaller step.
        1 <= dynamic_step <= base ==> 1 <= res.next_step <= base,
        !res.advance ==> 1 <= res.next_step < dynamic_step,
{
    if !window_failed {
        WindowStep { advance: true, next_step: base }
    } else if dynamic_step > 1 {
        let half = dynamic_step / 2;
        WindowStep { advance: false, next_step: if half >= 1 { half } else { 1 } }
    } else {
        WindowStep { advance: true, next_step: base }
    }
}

/// The walk over creation dates, counted in whole days from the first date:
/// the window `[lower, lower + step)` is searched while `lower` is not past
/// the last day; a window that worked, or failed with a one-day step, is
/// left behind and the step goes back to the base step; a window that
/// failed with a larger step is tried again with half the step.
pub struct WindowWalk {
    lower: u64,
    end: u64,
    step: u64,
    base: u64,
}

impl WindowWalk {
    #[verifier::type_invariant]
    spec fn well_formed(self) -> bool {
        &&& 1 <= self.step <= self.base
        &&& self.lower <= self.end + self.base
        &&& self.end + self.base <= u64::MAX
    }

    /// The first day of the current window.
    pub closed spec fn lower_day(self) -> nat {
        self.lower as nat
    }

    /// The last day of the walk.
    pub closed spec fn end_day(self) -> nat {
        self.end as nat
    }

    /// The length in days of the current window.
    pub closed spec fn step_days(self) -> nat {
        self.step as nat
    }

    /// The step every window starts with.
    pub closed spec fn base_days(self) -> nat {
        self.base as nat
    }

    /// A count that every turn of the walk lowers and that never goes below
    /// zero, so the walk ends: the days left before the walk is past its
    /// last day, weighted above any step, plus the current step.
    pub open spec fn measure(self) -> nat {
        ((self.end_day() + self.base_days() + 1 - self.lower_day()) * (self.base_days() + 1)
            + self.step_days()) as nat
    }

    /// The walk over `span_days` days after the first date with the
    /// requested step (at least one day).
    pub fn new(step: u64, span_days: u64) -> (res: WindowWalk)
        requires
            span_days + (if step >= 1 { step } else { 1 }) <= u64::MAX,
        ensures
            res.lower_day() == 0,
            res.end_day() == span_days,
            res.base_days() == (if step >= 1 { step } else { 1 }),
            res.step_days() == res.base_days(),
    {
        let base = base_step(step);
        WindowWalk { lower: 0, end: span_days, step: base, base }
    }

    /// Whether the walk is past its last day.
    pub fn finished(&self) -> (res: bool)
        ensures
            res == (self.lower_day() > self.end_day()),
    {
        self.lower > self.end
    }

    /// The current window, as days from the first date: `(lower, upper)`.
    pub fn window(&self) -> (res: (u64, u64))
        requires
            self.lower_day() <= self.end_day(),
        ensures
            res.0 == self.lower_day(),
            res.1 == self.lower_day() + self.step_days(),
    {
        proof {
            use_type_invariant(self);
        }
        (self.lower, self.lower + self.step)
    }

    /// The next turn, after the current window worked or failed (see
    /// `after_window`). Every turn lowers `measure`, so the walk ends.
    pub fn next_turn(&mut self, window_failed: bool)
        requires
            old(self).lower_day() <= old(self).end_day(),
        ensures
            final(self).end_day() == old(self).end_day(),
            final(self).base_days() == old(self).base_days(),
            (!window_failed || old(self).step_days() <= 1) ==> final(self).lower_day() == old(
                self,
            ).lower_day() + old(self).step_days() && final(self).step_days() == old(self).base_days(),
            (window_failed && old(self).step_days() > 1) ==> final(self).lower_day() == old(
                self,
            ).lower_day() && final(self).step_days() == old(self).step_days() / 2,
            final(self).measure() < old(self).measure(),
    {
        proof {
            use_type_invariant(&*self);
        }
        let ghost before = *self;
        let step = after_window(self.step, self.base, window_failed);
        let lower = if step.advance {
            self.lower + self.step
        } else {
            self.lower
        };
        *self = WindowWalk { lower, end: self.end, step: step.next_step, base: self.base };
        proof {
            let e = before.end as int + before.base as int + 1;
            let b = before.base as int + 1;
            let l0 = before.lower as int;
            let s0 = before.step as int;
            let l1 = lower as int;
            let s1 = step.next_step as int;
            if step.advance {
                assert((e - l1) * b + s1 < (e - l0) * b + s0) by (nonlinear_arith)
                    requires
                        l1 == l0 + s0,
                        1 <= s0,
                        1 <= b,
                        s1 <= b - 1,
                        e - l1 >= 0,
                ;
            } else {
                assert(l1 == l0);
                assert((e - l1) * b == (e - l0) * b);
            }
            assert(e - l1 >= 1);
        }
    }
}

/// The walk over creation dates ends: each turn lowers a count that cannot
/// go below zero, so from a new walk there are at most `measure()` turns,
/// that is `(span_days + base + 1) * (base + 1) + base`.
pub proof fn law_window_walk_ends(walk: WindowWalk)
    ensures
        walk.lower_day() == 0 && walk.step_days() == walk.base_days() ==> walk.measure() == (
        walk.end_day() + walk.base_days() + 1) * (walk.base_days() + 1) + walk.base_days(),
{
}

/// What a search response was.
#[derive(Debug, Clone, Copy)]
pub enum PageOutcome {
    /// No response could be had, even after retrying.
    FetchFailed,
    /// The reply to a search without results.
    EmptyReply,
    /// A response that is not a search result.
    Unreadable,
    /// A page of results; `has_next_page` as GitHub reported it.
    Page { has_next_page: bool },
}

/// What the crawler does after a search response: whether it asks for the
/// next page, and whether the whole window counts as failed.
#[derive(Debug, Clone, Copy)]
pub struct PageStep {
    pub fetch_next_page: bool,
    pub window_failed: bool,
}

/// After a search response: a failed fetch fails the window; an empty or
/// unreadable reply ends the window's paging; a page continues while GitHub
/// reports a next page.
pub fn after_page(outcome: PageOutcome) -> (res: PageStep)
    ensures
        res.window_failed <==> outcome is FetchFailed,
        res.fetch_next_page <==> (outcome matches PageOutcome::Page { has_next_page }
            && has_next_page),
{
    match outcome {
        PageOutcome::FetchFailed => PageStep { fetch_next_page: false, window_failed: true },
        PageOutcome::EmptyReply => PageStep { fetch_next_page: false, window_failed: false },
        PageOutcome::Unreadable => PageStep { fetch_next_page: false, window_failed: false },
        PageOutcome::Page { has_next_page } => PageStep {
            fetch_next_page: has_next_page,
            window_failed: false,
        },
    }
}

// ---------------------------------------------------------------------------
// Search results
// ---------------------------------------------------------------------------

/// The kind of repository stored in the queues.
pub fn repo_type_label(is_package: bool) -> (res: &'static str)
    ensures
        res@ == if is_package { "package"@ } else { "program"@ },
{
    if is_package {
        "package"
    } else {
        "program"
    }
}

/// What is done with a search result.
#[derive(Debug, Clone, Copy, PartialEq, Eq)]
pub enum KnownRepoAction {
    /// The repository is stored with another commit: queue it for an update.
    QueueUpdate,
    /// The repository is stored at this commit: nothing to do.
    UpToDate,
    /// The repository is not stored: it is queued as new unless its owner is
    /// banned.
    CheckBanned,
}

/// What is done with a search result, given the commit hash stored for it
/// (if it is stored) and its current commit hash.
pub fn known_repo_action(existing_commit_hash: Option<&str>, latest_commit_hash: &str) -> (res:
    KnownRepoAction)
    ensures
        res == match existing_commit_hash {
            None => KnownRepoAction::CheckBanned,
            Some(h) => if h@ == latest_commit_hash@ {
                KnownRepoAction::UpToDate
            } else {
                KnownRepoAction::QueueUpdate
            },
        },
{
    match existing_commit_hash {
        None => KnownRepoAction::CheckBanned,
        Some(h) => if str_equals(h, latest_commit_hash) {
            KnownRepoAction::UpToDate
        } else {
            KnownRepoAction::QueueUpdate
        },
    }
}

/// Whether a repository that is not stored yet is queued as new: only when
/// its owner is not banned.
pub fn queue_new_repo(owner_is_banned: bool) -> (res: bool)
    ensures
        res == !owner_is_banned,
{
    !owner_is_banned
}

// ---------------------------------------------------------------------------
// Retrying API calls
// ---------------------------------------------------------------------------

/// How many failed attempts are made before giving up.
pub const MAX_RETRIES: usize = 4;

/// The first wait between attempts, in seconds.
pub const INITIAL_WAITING_TIME: u64 = 2;

/// The longest wait between attempts, in seconds.
pub const MAX_WAITING_TIME: u64 = 16;

/// How many attempts have failed and how long the next back-off is.
pub struct RetryState {
    retry_count: usize,
    waiting_time: u64,
}

impl RetryState {
    #[verifier::type_invariant]
    spec fn well_formed(self) -> bool {
        &&& self.retry_count <= MAX_RETRIES
        &&& INITIAL_WAITING_TIME <= self.waiting_time <= MAX_WAITING_TIME
    }

    pub closed spec fn retries(self) -> nat {
        self.retry_count as nat
    }

    pub closed spec fn waiting(self) -> u64 {
        self.waiting_time
    }

    /// No attempt made yet, waiting two seconds.
    pub fn new() -> (res: RetryState)
        ensures
            res.retries() == 0,
            res.waiting() == INITIAL_WAITING_TIME,
    {
        RetryState { retry_count: 0, waiting_time: INITIAL_WAITING_TIME }
    }

    /// Whether the crawler gives up: after `MAX_RETRIES` failed attempts.
    pub fn exhausted(&self) -> (res: bool)
        ensures
            res == (self.retries() >= MAX_RETRIES),
    {
        self.retry_count >= MAX_RETRIES
    }

    pub fn retry_count(&self) -> (res: usize)
        ensures
            res == self.retries(),
    {
        self.retry_count
    }

    pub fn waiting_time(&self) -> (res: u64)
        ensures
            res == self.waiting(),
    {
        self.waiting_time
    }
}

/// How an attempt to call the API failed.
#[derive(Debug, Clone, Copy)]
pub enum AttemptFailure {
    /// The request could not be sent.
    SendFailed,
    /// The API answered with this non-success status.
    BadStatus(u16),
    /// The API answered with an empty body.
    EmptyBody,
    /// The body could not be read.
    BodyUnreadable,
}

/// What follows a failed attempt: the new state, how long to sleep, and
/// whether the HTTP client is built anew.
pub struct RetryPlan {
    pub next: RetryState,
    pub sleep_secs: u64,
    pub recreate_client: bool,
}

/// `w` doubled, but at most `MAX_WAITING_TIME`.
pub open spec fn doubled_wait(w: u64) -> u64 {
    if 2 * w <= MAX_WAITING_TIME {
        (2 * w) as u64
    } else {
        MAX_WAITING_TIME
    }
}

/// After a failed attempt (made while `!state.exhausted()`): one more
/// failure counted; the wait doubles (at most 16 s) after a send failure,
/// an unreadable body, or a 429, 403 or 502 status; a 502 rebuilds the
/// client; a send failure sleeps at least 10 s; the others sleep the wait.
pub fn after_failed_attempt(state: &RetryState, failure: AttemptFailure) -> (res: RetryPlan)
    requires
        state.retries() < MAX_RETRIES,
    ensures
        res.next.retries() == state.retries() + 1,
        res.next.waiting() == match failure {
            AttemptFailure::SendFailed => doubled_wait(state.waiting()),
            AttemptFailure::BodyUnreadable => doubled_wait(state.waiting()),
            AttemptFailure::BadStatus(s) => if s == 429 || s == 403 || s == 502 {
                doubled_wait(state.waiting())
            } else {
                state.waiting()
            },
            AttemptFailure::EmptyBody => state.waiting(),
        },
        res.sleep_secs == match failure {
            AttemptFailure::SendFailed => if res.next.waiting() >= 10 {
                res.next.waiting()
            } else {
                10
            },
            _ => res.next.waiting(),
        },
        res.recreate_client == (failure matches AttemptFailure::BadStatus(s) && s == 502),
        // Every sleep between attempts lasts from 2 to 16 seconds.
        INITIAL_WAITING_TIME <= res.sleep_secs <= MAX_WAITING_TIME,
{
    proof {
        use_type_invariant(state);
    }
    let w = state.waiting_time;
    let doubled = if 2 * w <= MAX_WAITING_TIME {
        2 * w
    } else {
        MAX_WAITING_TIME
    };
    let (waiting_time, sleep_secs, recreate_client) = match failure {
        AttemptFailure::SendFailed => (doubled, if doubled >= 10 {
            doubled
        } else {
            10
        }, false),
        AttemptFailure::BodyUnreadable => (doubled, doubled, false),
        AttemptFailure::BadStatus(s) => {
            let backs_off = s == 429 || s == 403 || s == 502;
            let next_wait = if backs_off {
                doubled
            } else {
                w
            };
            (next_wait, next_wait, s == 502)
        },
        AttemptFailure::EmptyBody => (w, w, false),
    };
    RetryPlan {
        next: RetryState { retry_count: state.retry_count + 1, waiting_time },
        sleep_secs,
        recreate_client,
    }
}

// ---------------------------------------------------------------------------
// Search replies
// ---------------------------------------------------------------------------

/// The `data.search` object of a search reply.
pub open spec fn search_object(response: JsonValue) -> Option<JsonValue> {
    match json_get(response, "data"@) {
        Some(d) => json_get(d, "search"@),
        None => None,
    }
}

/// The member `key` of the `pageInfo` of a search reply.
pub open spec fn page_info_member(response: JsonValue, key: Seq<char>) -> Option<JsonValue> {
    match search_object(response) {
        Some(s) => match json_get(s, "pageInfo"@) {
            Some(p) => json_get(p, key),
            None => None,
        },
        None => None,
    }
}

/// Whether a search reply reports a next page: `hasNextPage` when it is a
/// boolean, else no.
pub open spec fn reply_has_next_page(response: JsonValue) -> bool {
    match page_info_member(response, "hasNextPage"@) {
        Some(JsonValue::Bool(b)) => b,
        _ => false,
    }
}

/// The member `key` of `v`, when `v` is there and has one.
fn member_of<'a>(v: Option<&'a JsonValue>, key: &str) -> (res: Option<&'a JsonValue>)
    ensures
        res is Some <==> (v matches Some(w) && json_get(*w, key@) is Some),
        res matches Some(r) ==> *r == json_get(*v->Some_0, key@)->Some_0,
{
    match v {
        Some(w) => w.get(key),
        None => None,
    }
}

/// The `pageInfo` of a search reply: whether there is a next page, and the
/// cursor that asks for it (`endCursor` when it is a string).
pub fn search_page_info(response: &JsonValue) -> (res: (bool, Option<String>))
    ensures
        res.0 == reply_has_next_page(*response),
        res.1 is Some <==> json_str(page_info_member(*response, "endCursor"@)) is Some,
        res.1 matches Some(c) ==> c@ == json_str(page_info_member(*response, "endCursor"@))->Some_0,
{
    let search = member_of(response.get("data"), "search");
    let info = member_of(search, "pageInfo");
    let has_next = match member_of(info, "hasNextPage") {
        Some(JsonValue::Bool(b)) => *b,
        _ => false,
    };
    let cursor = match member_of(info, "endCursor") {
        Some(c) => match c.as_str() {
            Some(t) => Some(t.to_owned()),
            None => None,
        },
        None => None,
    };
    (has_next, cursor)
}

/// The result nodes of a search reply: `data.search.nodes` when it is an
/// array.
pub fn search_nodes(response: &JsonValue) -> (res: Option<&Vec<JsonValue>>)
    ensures
        res is Some <==> (search_object(*response) matches Some(s) && json_get(s, "nodes"@) matches Some(
            JsonValue::Array(_),
        )),
        res matches Some(items) ==> json_get(search_object(*response)->Some_0, "nodes"@) == Some(
            JsonValue::Array(*items),
        ),
{
    let search = member_of(response.get("data"), "search");
    match member_of(search, "nodes") {
        Some(JsonValue::Array(items)) => Some(items),
        _ => None,
    }
}

} // verus!
