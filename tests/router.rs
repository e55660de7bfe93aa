use traffic::error::TrafficError;
use traffic::router::{
    build_request, Exchange, Method, Operation, Outcome, RouterRequest, Session, Step,
};

const PAGE: &str = "<script>var WanStatistics = { 'uprate':'0','downrate':'0','upvolume':'100','downvolume':'200','liveTime':'300' };</script>";

fn answer(set_cookie: Option<&str>, body: &str) -> Exchange {
    Exchange::Answered { set_cookie: set_cookie.map(|c| c.to_string()), body: body.to_string() }
}

fn run(session: &mut Session, answers: Vec<Exchange>) -> Vec<RouterRequest> {
    let mut sent = Vec::new();
    let mut answers = answers.into_iter();
    while let Some(request) = session.next_request() {
        sent.push(request);
        let exchange = answers.next().expect("more requests than answers");
        session.advance(&exchange);
    }
    sent
}

#[test]
fn read_session_makes_three_requests() {
    let mut session = Session::new(Operation::Read, "admin", "secret");
    let sent = run(
        &mut session,
        vec![answer(Some("SessionID_R3=42; Path=/"), ""), answer(None, PAGE), answer(None, "")],
    );
    assert_eq!(session.outcome(), Some(Outcome::Traffic(300)));
    assert_eq!(sent.len(), 3);
    assert_eq!(sent[0].path, "/index/login.cgi");
    assert_eq!(sent[0].method, Method::Post);
    assert_eq!(sent[0].cookie, "Language=en_us.");
    assert_eq!(
        sent[0].form,
        vec![
            ("Username".to_string(), "admin".to_string()),
            ("Password".to_string(), "secret".to_string())
        ]
    );
    assert_eq!(sent[1].path, "/html/status/overview.asp");
    assert_eq!(sent[1].method, Method::Get);
    assert_eq!(sent[1].cookie, "Language=en_us; SessionID_R3=42");
    assert_eq!(sent[1].referer.as_deref(), Some("/index/login.cgi"));
    assert_eq!(sent[2].path, "/index/logout.cgi");
    assert_eq!(sent[2].cookie, "Language=en_us; SessionID_R3=42");
}

#[test]
fn logout_follows_failed_overview() {
    let mut session = Session::new(Operation::Read, "admin", "secret");
    let sent = run(
        &mut session,
        vec![answer(Some("SessionID_R3=42; Path=/"), ""), Exchange::Failed, answer(None, "")],
    );
    assert_eq!(sent.len(), 3);
    assert_eq!(sent[2].path, "/index/logout.cgi");
    assert_eq!(session.outcome(), Some(Outcome::Failed(TrafficError::Transport)));
}

#[test]
fn logout_follows_page_without_statistics() {
    let mut session = Session::new(Operation::Read, "admin", "secret");
    let sent = run(
        &mut session,
        vec![answer(Some("SessionID_R3=7; Path=/"), ""), answer(None, "<html/>"), Exchange::Failed],
    );
    assert_eq!(sent.len(), 3);
    assert_eq!(sent[2].cookie, "Language=en_us; SessionID_R3=7");
    assert_eq!(session.outcome(), Some(Outcome::Failed(TrafficError::NoWanStatistics)));
}

#[test]
fn failed_logout_keeps_reading() {
    let mut session = Session::new(Operation::Read, "admin", "secret");
    run(
        &mut session,
        vec![answer(Some("SessionID_R3=42; Path=/"), ""), answer(None, PAGE), Exchange::Failed],
    );
    assert_eq!(session.outcome(), Some(Outcome::Traffic(300)));
}

#[test]
fn failed_login_makes_no_other_request() {
    let mut session = Session::new(Operation::Read, "admin", "secret");
    let sent = run(&mut session, vec![answer(None, "")]);
    assert_eq!(sent.len(), 1);
    assert_eq!(session.outcome(), Some(Outcome::Failed(TrafficError::NoCookie)));

    let mut session = Session::new(Operation::Clear, "admin", "secret");
    let sent = run(&mut session, vec![Exchange::Failed]);
    assert_eq!(sent.len(), 1);
    assert_eq!(session.outcome(), Some(Outcome::Failed(TrafficError::Transport)));
}

#[test]
fn clear_session_posts_request_file() {
    let mut session = Session::new(Operation::Clear, "admin", "secret");
    let sent = run(
        &mut session,
        vec![answer(Some("SessionID_R3=5; Path=/"), ""), answer(None, ""), answer(None, "")],
    );
    assert_eq!(session.outcome(), Some(Outcome::Cleared));
    assert_eq!(sent.len(), 3);
    assert_eq!(sent[1].path, "/html/status/cleanWanStatisticsData.cgi");
    assert_eq!(sent[1].method, Method::Post);
    assert_eq!(
        sent[1].form,
        vec![("RequestFile".to_string(), "/html/status/overview.asp".to_string())]
    );
    assert_eq!(sent[2].path, "/index/logout.cgi");
}

#[test]
fn requests_are_built_per_step() {
    let logout = build_request(Step::Logout(9), "", "");
    assert_eq!(logout.method, Method::Post);
    assert_eq!(logout.path, "/index/logout.cgi");
    assert_eq!(logout.cookie, "Language=en_us; SessionID_R3=9");
    assert!(logout.referer.is_none());
    assert!(logout.form.is_empty());
}

#[test]
fn failed_logout_after_clear_is_reported() {
    let mut session = Session::new(Operation::Clear, "admin", "secret");
    let sent = run(
        &mut session,
        vec![answer(Some("SessionID_R3=5; Path=/"), ""), answer(None, ""), Exchange::Failed],
    );
    assert_eq!(sent.len(), 3);
    assert_eq!(sent[1].path, "/html/status/cleanWanStatisticsData.cgi");
    assert_eq!(sent[2].path, "/index/logout.cgi");
    assert_eq!(session.outcome(), Some(Outcome::Failed(TrafficError::Transport)));
}

#[test]
fn failed_logout_keeps_earlier_error_after_clear() {
    let mut session = Session::new(Operation::Clear, "admin", "secret");
    let sent = run(
        &mut session,
        vec![answer(Some("SessionID_R3=5; Path=/"), ""), Exchange::Failed, Exchange::Failed],
    );
    assert_eq!(sent.len(), 3);
    assert_eq!(session.outcome(), Some(Outcome::Failed(TrafficError::Transport)));
}
