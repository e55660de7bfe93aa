//! The router session: the requests that the router's pages expect, and the
//! workflow login, then one operation, then logout, as a state machine. The
//! caller performs each request and hands the answer back.
use vstd::prelude::*;

use crate::error::TrafficError;
use crate::overview::{overview_total, overview_total_of};
use crate::session::{build_cookie_header, cookie_header, extract_session_id, session_id_of,
    LOGIN_COOKIE};

verus! {

broadcast use vstd::string::group_string_axioms;

/// The page that logs in.
pub const LOGIN_PATH: &'static str = "/index/login.cgi";

/// The page that logs out.
pub const LOGOUT_PATH: &'static str = "/index/logout.cgi";

/// The page that shows the statistics.
pub const OVERVIEW_PATH: &'static str = "/html/status/overview.asp";

/// The page that clears the statistics.
pub const CLEAR_PATH: &'static str = "/html/status/cleanWanStatisticsData.cgi";

/// HTTP method of a request.
#[derive(Debug, Clone, Copy, PartialEq, Eq, Structural)]
pub enum Method {
    Get,
    Post,
}

/// A request to the router: paths are relative to the router's address, and a
/// referer is a path too.
#[derive(Debug, Clone)]
pub struct RouterRequest {
    pub method: Method,
    pub path: String,
    /// The value of the `Cookie` header.
    pub cookie: String,
    /// The `Referer` header, which the statistics page demands.
    pub referer: Option<String>,
    /// Form fields, sent form-encoded, in this order.
    pub form: Vec<(String, String)>,
}

/// The requests that a session makes.
#[derive(Debug, Clone, Copy, PartialEq, Eq, Structural)]
pub enum Step {
    Login,
    Overview(u64),
    Clear(u64),
    Logout(u64),
}

/// `q` is the request of `step`, with the given credentials for logging in.
pub open spec fn is_request_for(
    q: RouterRequest,
    step: Step,
    username: Seq<char>,
    password: Seq<char>,
) -> bool {
    match step {
        Step::Login => {
            &&& q.method == Method::Post
            &&& q.path@ == LOGIN_PATH@
            &&& q.cookie@ == LOGIN_COOKIE@
            &&& q.referer is None
            &&& q.form@.len() == 2
            &&& q.form@[0].0@ == "Username"@ && q.form@[0].1@ == username
            &&& q.form@[1].0@ == "Password"@ && q.form@[1].1@ == password
        },
        Step::Overview(id) => {
            &&& q.method == Method::Get
            &&& q.path@ == OVERVIEW_PATH@
            &&& q.cookie@ == cookie_header(id)
            &&& q.referer matches Some(r) && r@ == LOGIN_PATH@
            &&& q.form@.len() == 0
        },
        Step::Clear(id) => {
            &&& q.method == Method::Post
            &&& q.path@ == CLEAR_PATH@
            &&& q.cookie@ == cookie_header(id)
            &&& q.referer is None
            &&& q.form@.len() == 1
            &&& q.form@[0].0@ == "RequestFile"@ && q.form@[0].1@ == OVERVIEW_PATH@
        },
        Step::Logout(id) => {
            &&& q.method == Method::Post
            &&& q.path@ == LOGOUT_PATH@
            &&& q.cookie@ == cookie_header(id)
            &&& q.referer is None
            &&& q.form@.len() == 0
        },
    }
}

fn owned(s: &str) -> (r: String)
    ensures
        r@ == s@,
{
    let mut r = String::new();
    r.append(s);
    r
}

/// The request of `step`; `username` and `password` serve only to log in.
pub fn build_request(step: Step, username: &str, password: &str) -> (r: RouterRequest)
    ensures
        is_request_for(r, step, username@, password@),
{
    match step {
        Step::Login => {
            let form = vec![
                (owned("Username"), owned(username)),
                (owned("Password"), owned(password)),
            ];
            RouterRequest {
                method: Method::Post,
                path: owned(LOGIN_PATH),
                cookie: owned(LOGIN_COOKIE),
                referer: None,
                form,
            }
        },
        Step::Overview(id) => RouterRequest {
            method: Method::Get,
            path: owned(OVERVIEW_PATH),
            cookie: build_cookie_header(id),
            referer: Some(owned(LOGIN_PATH)),
            form: Vec::new(),
        },
        Step::Clear(id) => {
            let form = vec![(owned("RequestFile"), owned(OVERVIEW_PATH))];
            RouterRequest {
                method: Method::Post,
                path: owned(CLEAR_PATH),
                cookie: build_cookie_header(id),
                referer: None,
                form,
            }
        },
        Step::Logout(id) => RouterRequest {
            method: Method::Post,
            path: owned(LOGOUT_PATH),
            cookie: build_cookie_header(id),
            referer: None,
            form: Vec::new(),
        },
    }
}

/// What a session is for.
#[derive(Debug, Clone, Copy, PartialEq, Eq, Structural)]
pub enum Operation {
    /// Read the total traffic.
    Read,
    /// Clear the traffic counters.
    Clear,
}

/// How a session ended, or will end once logged out.
#[derive(Debug, Clone, Copy, PartialEq, Eq, Structural)]
pub enum Outcome {
    /// The total traffic that was read.
    Traffic(i64),
    /// The counters were cleared.
    Cleared,
    /// The first error met.
    Failed(TrafficError),
}

/// Where a session stands: which answer it waits for.
#[derive(Debug, Clone, Copy, PartialEq, Eq, Structural)]
pub enum Phase {
    /// Waiting for the answer to the login.
    AwaitLogin,
    /// Logged in as the session, waiting for the answer to the operation.
    AwaitOperation(u64),
    /// Waiting for the answer to the logout, with the outcome so far.
    AwaitLogout(u64, Outcome),
    /// Over.
    Finished(Outcome),
}

/// The answer to a request, as far as the session reads it.
#[derive(Debug, Clone)]
pub enum Exchange {
    /// No answer: network, TLS or protocol failure.
    Failed,
    /// An answer, with its `Set-Cookie` header if it had one, and its body.
    Answered { set_cookie: Option<String>, body: String },
}

/// The request that a session makes in `phase`.
pub open spec fn step_of(op: Operation, phase: Phase) -> Option<Step> {
    match phase {
        Phase::AwaitLogin => Some(Step::Login),
        Phase::AwaitOperation(id) => match op {
            Operation::Read => Some(Step::Overview(id)),
            Operation::Clear => Some(Step::Clear(id)),
        },
        Phase::AwaitLogout(id, _) => Some(Step::Logout(id)),
        Phase::Finished(_) => None,
    }
}

/// The cookie and body of an answer; `None` where there was none.
pub open spec fn answer_of(ex: Exchange) -> Option<(Option<Seq<char>>, Seq<char>)> {
    match ex {
        Exchange::Failed => None,
        Exchange::Answered { set_cookie, body } => Some(
            (
                match set_cookie {
                    Some(c) => Some(c@),
                    None => None,
                },
                body@,
            ),
        ),
    }
}

/// How a session ends once the logout got `answer`. The first error met
/// stands; a failed logout is that error after a clear, while a reading that
/// succeeded is kept, the logout being only cleanup after it.
pub open spec fn after_logout(
    outcome: Outcome,
    answer: Option<(Option<Seq<char>>, Seq<char>)>,
) -> Outcome {
    match (outcome, answer) {
        (Outcome::Cleared, None) => Outcome::Failed(TrafficError::Transport),
        _ => outcome,
    }
}

/// The phase after `phase` once the answer `answer` came. Once logged in, a
/// session always goes on to log out, and the outcome is the first error met
/// (see `after_logout`).
pub open spec fn next_phase(
    op: Operation,
    phase: Phase,
    answer: Option<(Option<Seq<char>>, Seq<char>)>,
) -> Phase {
    match phase {
        Phase::AwaitLogin => match answer {
            None => Phase::Finished(Outcome::Failed(TrafficError::Transport)),
            Some((cookie, _)) => match session_id_of(cookie) {
                Ok(id) => Phase::AwaitOperation(id),
                Err(e) => Phase::Finished(Outcome::Failed(e)),
            },
        },
        Phase::AwaitOperation(id) => match answer {
            None => Phase::AwaitLogout(id, Outcome::Failed(TrafficError::Transport)),
            Some((_, body)) => match op {
                Operation::Read => match overview_total_of(body) {
                    Ok(total) => Phase::AwaitLogout(id, Outcome::Traffic(total)),
                    Err(e) => Phase::AwaitLogout(id, Outcome::Failed(e)),
                },
                Operation::Clear => Phase::AwaitLogout(id, Outcome::Cleared),
            },
        },
        Phase::AwaitLogout(_, outcome) => Phase::Finished(after_logout(outcome, answer)),
        Phase::Finished(outcome) => Phase::Finished(outcome),
    }
}

/// One session with the router.
pub struct Session {
    pub operation: Operation,
    pub username: String,
    pub password: String,
    pub phase: Phase,
}

impl Session {
    /// A session that is about to log in.
    pub fn new(operation: Operation, username: &str, password: &str) -> (r: Session)
        ensures
            r.operation == operation,
            r.username@ == username@,
            r.password@ == password@,
            r.phase == Phase::AwaitLogin,
    {
        Session { operation, username: owned(username), password: owned(password), phase: Phase::AwaitLogin }
    }

    /// The request to perform now; `None` once the session is over.
    pub fn next_request(&self) -> (r: Option<RouterRequest>)
        ensures
            match step_of(self.operation, self.phase) {
                Some(step) => r matches Some(q) && is_request_for(
                    q,
                    step,
                    self.username@,
                    self.password@,
                ),
                None => r is None,
            },
    {
        let step = match self.phase {
            Phase::AwaitLogin => Step::Login,
            Phase::AwaitOperation(id) => match self.operation {
                Operation::Read => Step::Overview(id),
                Operation::Clear => Step::Clear(id),
            },
            Phase::AwaitLogout(id, _) => Step::Logout(id),
            Phase::Finished(_) => {
                return None;
            },
        };
        Some(build_request(step, self.username.as_str(), self.password.as_str()))
    }

    /// Takes the answer to the request that `next_request` gave.
    pub fn advance(&mut self, exchange: &Exchange)
        ensures
            final(self).phase == next_phase(old(self).operation, old(self).phase, answer_of(*exchange)),
            final(self).operation == old(self).operation,
            final(self).username@ == old(self).username@,
            final(self).password@ == old(self).password@,
    {
        let next = match self.phase {
            Phase::AwaitLogin => match exchange {
                Exchange::Failed => Phase::Finished(Outcome::Failed(TrafficError::Transport)),
                Exchange::Answered { set_cookie, .. } => {
                    let cookie = match set_cookie {
                        Some(c) => Some(c.as_str()),
                        None => None,
                    };
                    match extract_session_id(cookie) {
                        Ok(id) => Phase::AwaitOperation(id),
                        Err(e) => Phase::Finished(Outcome::Failed(e)),
                    }
                },
            },
            Phase::AwaitOperation(id) => match exchange {
                Exchange::Failed => Phase::AwaitLogout(id, Outcome::Failed(TrafficError::Transport)),
                Exchange::Answered { body, .. } => match self.operation {
                    Operation::Read => match overview_total(body.as_str()) {
                        Ok(total) => Phase::AwaitLogout(id, Outcome::Traffic(total)),
                        Err(e) => Phase::AwaitLogout(id, Outcome::Failed(e)),
                    },
                    Operation::Clear => Phase::AwaitLogout(id, Outcome::Cleared),
                },
            },
            Phase::AwaitLogout(_, outcome) => match (outcome, exchange) {
                (Outcome::Cleared, Exchange::Failed) => Phase::Finished(
                    Outcome::Failed(TrafficError::Transport),
                ),
                _ => Phase::Finished(outcome),
            },
            Phase::Finished(outcome) => Phase::Finished(outcome),
        };
        self.phase = next;
    }

    /// How the session ended; `None` while it is not over.
    pub fn outcome(&self) -> (r: Option<Outcome>)
        ensures
            r == (match self.phase {
                Phase::Finished(o) => Some(o),
                _ => None,
            }),
    {
        match self.phase {
            Phase::Finished(o) => Some(o),
            _ => None,
        }
    }
}

/// A session that logs in takes exactly three requests, in this order: login,
/// the operation, logout. Logout is requested whatever the answer to the
/// operation was and nothing is requested after it. The outcome is the first
/// error met: a failed logout after a successful clear is reported, while an
/// outcome already settled, an error or a reading, stays.
pub proof fn lemma_three_requests(
    op: Operation,
    login_cookie: Option<Seq<char>>,
    login_body: Seq<char>,
    operation: Option<(Option<Seq<char>>, Seq<char>)>,
    logout: Option<(Option<Seq<char>>, Seq<char>)>,
)
    requires
        session_id_of(login_cookie) is Ok,
    ensures
        ({
            let id = session_id_of(login_cookie)->Ok_0;
            let p1 = next_phase(op, Phase::AwaitLogin, Some((login_cookie, login_body)));
            let p2 = next_phase(op, p1, operation);
            let p3 = next_phase(op, p2, logout);
            &&& step_of(op, Phase::AwaitLogin) == Some(Step::Login)
            &&& step_of(op, p1) == Some(
                match op {
                    Operation::Read => Step::Overview(id),
                    Operation::Clear => Step::Clear(id),
                },
            )
            &&& step_of(op, p2) == Some(Step::Logout(id))
            &&& step_of(op, p3) is None
            &&& p2 matches Phase::AwaitLogout(_, outcome) && p3 == Phase::Finished(
                after_logout(outcome, logout),
            )
            &&& (op == Operation::Clear && operation is Some && logout is None) ==> p3
                == Phase::Finished(Outcome::Failed(TrafficError::Transport))
            &&& p2 matches Phase::AwaitLogout(_, Outcome::Failed(e)) ==> p3 == Phase::Finished(
                Outcome::Failed(e),
            )
        }),
{
}

/// A session whose login fails makes no other request.
pub proof fn lemma_failed_login_ends(
    op: Operation,
    login: Option<(Option<Seq<char>>, Seq<char>)>,
)
    requires
        !(login matches Some((cookie, _)) && session_id_of(cookie) is Ok),
    ensures
        step_of(op, next_phase(op, Phase::AwaitLogin, login)) is None,
{
}

} // verus!
