use geomk::auth::make_auth_token;
use geomk::database::{
    Param, CREATE_USERS_TABLE, CREATE_USER_COORDINATES_TABLE, DELETE_USER_COORDINATE, INSERT_USER,
    INSERT_USER_COORDINATE, SELECT_COORDINATE_BY_ID, SELECT_USER_BY_CREDENTIALS, SELECT_USER_BY_ID,
    SELECT_USER_BY_NAME, SELECT_USER_COORDINATES,
};
use geomk::errors::Error;
use geomk::handlers::{
    Answer, Credentials, DeleteFlow, GetFlow, LoginFlow, Reply, SaveFlow, SignupFlow, Step,
};

const SECRET: &[u8] = b"server key";

fn key() -> Vec<u8> {
    SECRET.to_vec()
}

/// The token a login hands out for `id`.
fn token(id: i64) -> String {
    make_auth_token(id, SECRET)
}

fn creds(u: &str, p: &str) -> Credentials {
    Credentials { username: u.to_string(), password: p.to_string() }
}

fn text(s: &str) -> String {
    s.to_string()
}

/// The SQL and the parameters of a step that talks to the database, with the kind of step.
fn describe(step: &Step) -> (&'static str, String, Vec<String>) {
    let (kind, st) = match step {
        Step::Execute(s) => ("execute", s),
        Step::FetchOne(s) => ("fetch_one", s),
        Step::FetchAll(s) => ("fetch_all", s),
        Step::Collect(s) => ("collect", s),
        Step::Finish(r) => panic!("flow ended early: {:?}", r),
    };
    let params = st
        .params
        .iter()
        .map(|p| match p {
            Param::Int(i) => format!("int {}", i),
            Param::Real(r) => format!("real {}", r),
            Param::Text(t) => format!("text {}", t),
        })
        .collect();
    (kind, st.sql.clone(), params)
}

fn finished(step: Step) -> Result<Reply, Error> {
    match step {
        Step::Finish(r) => r,
        other => panic!("flow did not end: {:?}", other),
    }
}

#[test]
fn signup_of_a_new_user() {
    let (mut flow, step) = SignupFlow::start(creds("bojan", "secret"));
    assert_eq!(describe(&step), ("execute", text(CREATE_USERS_TABLE), vec![]));
    let step = flow.step(Answer::Done);
    assert_eq!(describe(&step), ("fetch_one", text(SELECT_USER_BY_NAME), vec![text("text bojan")]));
    let step = flow.step(Answer::Row(None));
    assert_eq!(
        describe(&step),
        ("execute", text(INSERT_USER), vec![text("text bojan"), text("text secret")])
    );
    assert!(matches!(finished(flow.step(Answer::Done)), Ok(Reply::Success)));
}

#[test]
fn signup_of_a_taken_name() {
    let (mut flow, _) = SignupFlow::start(creds("bojan", "secret"));
    flow.step(Answer::Done);
    assert!(matches!(finished(flow.step(Answer::Row(Some(3)))), Err(Error::Signup)));
}

#[test]
fn signup_with_a_wrong_answer() {
    let (mut flow, _) = SignupFlow::start(creds("a", "b"));
    assert!(matches!(finished(flow.step(Answer::Rows(vec![]))), Err(Error::UnexpectedAnswer)));
}

#[test]
fn login_hands_out_the_token_of_the_account() {
    let (mut flow, step) = LoginFlow::start(creds("bojan", "bojan"), key());
    let query = (
        "fetch_one",
        text(SELECT_USER_BY_CREDENTIALS),
        vec![text("text bojan"), text("text bojan")],
    );
    assert_eq!(describe(&step), query);
    let step = flow.step(Answer::Row(Some(5)));
    assert_eq!(describe(&step), query);
    match finished(flow.step(Answer::Row(Some(5)))) {
        Ok(Reply::LoggedIn(token)) => {
            assert!(token.starts_with("user-5.exp."));
            assert_eq!(token, make_auth_token(5, SECRET));
        },
        other => panic!("{:?}", other),
    }
}

#[test]
fn login_with_wrong_credentials() {
    let (mut flow, _) = LoginFlow::start(creds("bojan", "nope"), key());
    assert!(matches!(finished(flow.step(Answer::Row(None))), Err(Error::Login)));
    let (mut flow, _) = LoginFlow::start(creds("bojan", "nope"), key());
    flow.step(Answer::Row(Some(1)));
    assert!(matches!(finished(flow.step(Answer::Row(None))), Err(Error::Login)));
}

#[test]
fn save_points_for_the_user_of_the_token() {
    let ids = vec![text("12"), text("-3"), text("40")];
    let (mut flow, step) = SaveFlow::start(Some(token(7)), key(), ids);
    assert_eq!(describe(&step), ("execute", text(CREATE_USER_COORDINATES_TABLE), vec![]));
    let step = flow.step(Answer::Done);
    assert_eq!(describe(&step), ("fetch_one", text(SELECT_USER_BY_ID), vec![text("int 7")]));
    let step = flow.step(Answer::Row(Some(7)));
    assert_eq!(
        describe(&step),
        ("execute", text(INSERT_USER_COORDINATE), vec![text("int 7"), text("int 12")])
    );
    let step = flow.step(Answer::Done);
    assert_eq!(
        describe(&step),
        ("execute", text(INSERT_USER_COORDINATE), vec![text("int 7"), text("int -3")])
    );
    let step = flow.step(Answer::Done);
    assert_eq!(
        describe(&step),
        ("execute", text(INSERT_USER_COORDINATE), vec![text("int 7"), text("int 40")])
    );
    assert!(matches!(finished(flow.step(Answer::Done)), Ok(Reply::StatusOk)));
}

#[test]
fn save_stops_at_the_first_bad_id() {
    let ids = vec![text("12"), text("x"), text("40")];
    let (mut flow, _) = SaveFlow::start(Some(token(7)), key(), ids);
    flow.step(Answer::Done);
    let step = flow.step(Answer::Row(Some(7)));
    assert_eq!(describe(&step).2, vec![text("int 7"), text("int 12")]);
    assert!(matches!(finished(flow.step(Answer::Done)), Err(Error::ParseInt)));
}

#[test]
fn save_of_no_points() {
    let (mut flow, _) = SaveFlow::start(Some(token(7)), key(), vec![]);
    flow.step(Answer::Done);
    assert!(matches!(finished(flow.step(Answer::Row(Some(7)))), Ok(Reply::StatusOk)));
}

#[test]
fn save_needs_a_token_and_an_account() {
    let (mut flow, _) = SaveFlow::start(None, key(), vec![text("1")]);
    assert!(matches!(finished(flow.step(Answer::Done)), Err(Error::AuthToken)));
    let (mut flow, _) = SaveFlow::start(Some(text("garbage")), key(), vec![text("1")]);
    assert!(matches!(finished(flow.step(Answer::Done)), Err(Error::AuthFailTokenWrongFormat)));
    let (mut flow, _) = SaveFlow::start(Some(token(9)), key(), vec![text("1")]);
    flow.step(Answer::Done);
    assert!(matches!(finished(flow.step(Answer::Row(None))), Err(Error::Login)));
}

#[test]
fn get_collects_saved_points_in_order() {
    let (mut flow, step) = GetFlow::start(Some(token(4)), key());
    assert_eq!(describe(&step), ("fetch_all", text(SELECT_USER_COORDINATES), vec![text("int 4")]));
    let step = flow.step(Answer::Rows(vec![30, 10]));
    assert_eq!(describe(&step), ("collect", text(SELECT_COORDINATE_BY_ID), vec![text("int 30")]));
    let step = flow.step(Answer::Row(Some(30)));
    assert_eq!(describe(&step), ("collect", text(SELECT_COORDINATE_BY_ID), vec![text("int 10")]));
    assert!(matches!(finished(flow.step(Answer::Row(Some(10)))), Ok(Reply::Coordinates)));
}

#[test]
fn get_with_nothing_saved() {
    let (mut flow, _) = GetFlow::start(Some(token(4)), key());
    assert!(matches!(finished(flow.step(Answer::Rows(vec![]))), Ok(Reply::Coordinates)));
}

#[test]
fn get_of_a_point_no_longer_stored() {
    let (mut flow, _) = GetFlow::start(Some(token(4)), key());
    flow.step(Answer::Rows(vec![30]));
    assert!(matches!(finished(flow.step(Answer::Row(None))), Err(Error::Unknown)));
}

#[test]
fn get_without_token() {
    let (_, step) = GetFlow::start(None, key());
    assert!(matches!(finished(step), Err(Error::AuthToken)));
}

#[test]
fn delete_a_saved_point() {
    let (mut flow, step) = DeleteFlow::start(Some(token(4)), key(), 30);
    assert_eq!(
        describe(&step),
        ("execute", text(DELETE_USER_COORDINATE), vec![text("int 4"), text("int 30")])
    );
    assert!(matches!(finished(flow.step(Answer::Done)), Ok(Reply::StatusOk)));
}

#[test]
fn delete_with_a_bad_token() {
    let (_, step) = DeleteFlow::start(Some(text("user-x.exp.sign")), key(), 30);
    assert!(matches!(finished(step), Err(Error::AuthFailTokenWrongFormat)));
}

#[test]
fn the_login_token_acts_for_the_account() {
    let (mut login, _) = LoginFlow::start(creds("bojan", "bojan"), key());
    login.step(Answer::Row(Some(12)));
    let token = match finished(login.step(Answer::Row(Some(12)))) {
        Ok(Reply::LoggedIn(token)) => token,
        other => panic!("{:?}", other),
    };
    let (mut save, _) = SaveFlow::start(Some(token.clone()), key(), vec![text("3")]);
    let step = save.step(Answer::Done);
    assert_eq!(describe(&step), ("fetch_one", text(SELECT_USER_BY_ID), vec![text("int 12")]));
    let (_, step) = GetFlow::start(Some(token.clone()), key());
    assert_eq!(describe(&step).2, vec![text("int 12")]);
    let (_, step) = DeleteFlow::start(Some(token), key(), 3);
    assert_eq!(describe(&step).2, vec![text("int 12"), text("int 3")]);
}

#[test]
fn forged_tokens_reach_no_account() {
    // a token written by the client for user 4, not signed by the server
    let (mut flow, step) = GetFlow::start(Some(text("user-4.exp.sign")), key());
    assert!(matches!(finished(step), Err(Error::AuthFailSignature)));
    assert!(matches!(finished(flow.step(Answer::Rows(vec![1]))), Err(Error::UnexpectedAnswer)));
    let (mut save, _) = SaveFlow::start(Some(text("user-4.exp.sign")), key(), vec![text("1")]);
    assert!(matches!(finished(save.step(Answer::Done)), Err(Error::AuthFailSignature)));
    let (_, step) = DeleteFlow::start(Some(make_auth_token(4, b"guessed key")), key(), 1);
    assert!(matches!(finished(step), Err(Error::AuthFailSignature)));
}
