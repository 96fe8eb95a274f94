use vstd::prelude::*;

use crate::auth::{check_token, issued_token, make_auth_token, parse_token};
use crate::database::{
    statement, Param, ParamSpec, Statement, StatementSpec, CREATE_USERS_TABLE,
    CREATE_USER_COORDINATES_TABLE, DELETE_USER_COORDINATE, INSERT_USER, INSERT_USER_COORDINATE,
    SELECT_COORDINATE_BY_ID, SELECT_USER_BY_CREDENTIALS, SELECT_USER_BY_ID, SELECT_USER_BY_NAME,
    SELECT_USER_COORDINATES,
};
use crate::errors::Error;
use crate::text::{
    all_digits, decimal, digits_value, is_digit, lemma_digits_value_nonneg, lemma_parse_decimal,
    parse_i64, spec_parse_i64,
};

verus! {

/// What a client asks the map for: the amenity to look for and the city to look in.
#[derive(Debug, Clone)]
pub struct MapRequest {
    pub query: String,
    pub city: String,
}

/// A user name with its password.
#[derive(Debug, Clone)]
pub struct Credentials {
    pub username: String,
    pub password: String,
}

/// What the database answered to the step a flow asked for.
pub enum Answer {
    /// The statement of an `Execute` step ran.
    Done,
    /// The row that a `FetchOne` or `Collect` step found, by its `id` column, or `None`.
    Row(Option<i64>),
    /// The `coordinateId` column of every row that a `FetchAll` step found, in order.
    Rows(Vec<i64>),
}

/// How a flow that succeeded answers the client.
#[derive(Debug)]
pub enum Reply {
    /// `{"result": {"success": true}}`.
    Success,
    /// Sets the authentication cookie to the token, then answers like `Success`.
    LoggedIn(String),
    /// Status 200 with the body "OK".
    StatusOk,
    /// The points collected by the `Collect` steps, in order.
    Coordinates,
}

/// What a flow asks the database for next, or how it ends.
#[derive(Debug)]
pub enum Step {
    /// Run the statement; answer `Done`.
    Execute(Statement),
    /// Fetch at most one row; answer `Row`.
    FetchOne(Statement),
    /// Fetch all rows; answer `Rows`.
    FetchAll(Statement),
    /// Fetch at most one point and keep it for the reply; answer `Row`.
    Collect(Statement),
    /// The flow is over.
    Finish(Result<Reply, Error>),
}

pub enum ReplySpec {
    Success,
    LoggedIn(Seq<char>),
    StatusOk,
    Coordinates,
}

pub enum StepSpec {
    Execute(StatementSpec),
    FetchOne(StatementSpec),
    FetchAll(StatementSpec),
    Collect(StatementSpec),
    Finish(Result<ReplySpec, Error>),
}

impl View for Reply {
    type V = ReplySpec;

    open spec fn view(&self) -> ReplySpec {
        match self {
            Reply::Success => ReplySpec::Success,
            Reply::LoggedIn(t) => ReplySpec::LoggedIn(t@),
            Reply::StatusOk => ReplySpec::StatusOk,
            Reply::Coordinates => ReplySpec::Coordinates,
        }
    }
}

impl View for Step {
    type V = StepSpec;

    open spec fn view(&self) -> StepSpec {
        match self {
            Step::Execute(s) => StepSpec::Execute(s@),
            Step::FetchOne(s) => StepSpec::FetchOne(s@),
            Step::FetchAll(s) => StepSpec::FetchAll(s@),
            Step::Collect(s) => StepSpec::Collect(s@),
            Step::Finish(Ok(r)) => StepSpec::Finish(Ok(r@)),
            Step::Finish(Err(e)) => StepSpec::Finish(Err(*e)),
        }
    }
}

/// The end of a flow with the error `e`.
pub open spec fn fail(e: Error) -> StepSpec {
    StepSpec::Finish(Err(e))
}

/// The end of a flow with the reply `r`.
pub open spec fn succeed(r: ReplySpec) -> StepSpec {
    StepSpec::Finish(Ok(r))
}

pub open spec fn opt_view(token: Option<String>) -> Option<Seq<char>> {
    match token {
        Some(t) => Some(t@),
        None => None,
    }
}

fn finish(r: Result<Reply, Error>) -> (s: Step)
    ensures
        s == Step::Finish(r),
{
    Step::Finish(r)
}

/// A statement with one integer value.
fn int_statement(sql: &str, a: i64) -> (s: Statement)
    ensures
        s@ == statement(sql, seq![ParamSpec::Int(a as int)]),
{
    let mut params: Vec<Param> = Vec::new();
    params.push(Param::Int(a));
    let s = Statement { sql: String::from_str(sql), params };
    assert(s.params@.map_values(|p: Param| p@) =~= seq![ParamSpec::Int(a as int)]);
    s
}

/// A statement with two integer values.
fn int2_statement(sql: &str, a: i64, b: i64) -> (s: Statement)
    ensures
        s@ == statement(sql, seq![ParamSpec::Int(a as int), ParamSpec::Int(b as int)]),
{
    let mut params: Vec<Param> = Vec::new();
    params.push(Param::Int(a));
    params.push(Param::Int(b));
    let s = Statement { sql: String::from_str(sql), params };
    assert(s.params@.map_values(|p: Param| p@) =~= seq![
        ParamSpec::Int(a as int),
        ParamSpec::Int(b as int),
    ]);
    s
}

/// A statement with one text value.
fn text_statement(sql: &str, a: &String) -> (s: Statement)
    ensures
        s@ == statement(sql, seq![ParamSpec::Text(a@)]),
{
    let mut params: Vec<Param> = Vec::new();
    params.push(Param::Text(a.clone()));
    let s = Statement { sql: String::from_str(sql), params };
    assert(s.params@.map_values(|p: Param| p@) =~= seq![ParamSpec::Text(a@)]);
    s
}

/// A statement with two text values.
fn text2_statement(sql: &str, a: &String, b: &String) -> (s: Statement)
    ensures
        s@ == statement(sql, seq![ParamSpec::Text(a@), ParamSpec::Text(b@)]),
{
    let mut params: Vec<Param> = Vec::new();
    params.push(Param::Text(a.clone()));
    params.push(Param::Text(b.clone()));
    let s = Statement { sql: String::from_str(sql), params };
    assert(s.params@.map_values(|p: Param| p@) =~= seq![
        ParamSpec::Text(a@),
        ParamSpec::Text(b@),
    ]);
    s
}

/// The user id in `token` when it is a token signed with `secret`, or how the flow ends.
fn token_user_id(token: &Option<String>, secret: &Vec<u8>) -> (r: Result<i64, Error>)
    ensures
        match check_token(opt_view(*token), secret@) {
            Ok(id) => r == Ok::<i64, Error>(id as i64) && id == id as i64,
            Err(e) => r == Err::<i64, Error>(e),
        },
{
    let parsed = match token {
        Some(t) => parse_token(Some(t.as_str()), secret.as_slice()),
        None => parse_token(None, secret.as_slice()),
    };
    match parsed {
        Ok((id, _, _)) => Ok(id),
        Err(e) => Err(e),
    }
}

// ----------------------------------------------------------------------------------------
// Sign-up
// ----------------------------------------------------------------------------------------

/// Where a sign-up stands.
#[derive(Debug, Clone, Copy, PartialEq, Eq, Structural)]
pub enum SignupStage {
    /// Waits for the table of users to exist.
    CreatingTable,
    /// Waits for the account with the requested name, if any.
    Checking,
    /// Waits for the new account to be stored.
    Inserting,
    Finished,
}

/// Creates an account unless one with the same name exists.
pub struct SignupFlow {
    credentials: Credentials,
    stage: SignupStage,
}

impl SignupFlow {
    pub closed spec fn stage(&self) -> SignupStage {
        self.stage
    }

    /// At most how many more answers the flow waits for.
    pub open spec fn steps_left(&self) -> nat {
        match self.stage() {
            SignupStage::CreatingTable => 3,
            SignupStage::Checking => 2,
            SignupStage::Inserting => 1,
            SignupStage::Finished => 0,
        }
    }

    pub closed spec fn username(&self) -> Seq<char> {
        self.credentials.username@
    }

    pub closed spec fn password(&self) -> Seq<char> {
        self.credentials.password@
    }

    /// Starts a sign-up: the table of users is created first.
    pub fn start(credentials: Credentials) -> (r: (Self, Step))
        ensures
            r.0.stage() == SignupStage::CreatingTable,
            r.0.username() == credentials.username@,
            r.0.password() == credentials.password@,
            r.1@ == StepSpec::Execute(statement(CREATE_USERS_TABLE, Seq::empty())),
    {
        let step = Step::Execute(crate::database::plain(CREATE_USERS_TABLE));
        (SignupFlow { credentials, stage: SignupStage::CreatingTable }, step)
    }

    /// Takes the database's answer and says what comes next. An existing account with the
    /// name ends the sign-up with `Error::Signup`; otherwise the account is stored.
    pub fn step(&mut self, answer: Answer) -> (next: Step)
        ensures
            final(self).username() == old(self).username(),
            final(self).password() == old(self).password(),
            final(self).stage() != SignupStage::Finished ==> final(self).steps_left()
                < old(self).steps_left(),
            match (old(self).stage(), answer) {
                (SignupStage::CreatingTable, Answer::Done) => {
                    &&& final(self).stage() == SignupStage::Checking
                    &&& next@ == StepSpec::FetchOne(
                        statement(SELECT_USER_BY_NAME, seq![ParamSpec::Text(old(self).username())]),
                    )
                },
                (SignupStage::Checking, Answer::Row(Some(_))) => {
                    &&& final(self).stage() == SignupStage::Finished
                    &&& next@ == fail(Error::Signup)
                },
                (SignupStage::Checking, Answer::Row(None)) => {
                    &&& final(self).stage() == SignupStage::Inserting
                    &&& next@ == StepSpec::Execute(
                        statement(
                            INSERT_USER,
                            seq![
                                ParamSpec::Text(old(self).username()),
                                ParamSpec::Text(old(self).password()),
                            ],
                        ),
                    )
                },
                (SignupStage::Inserting, Answer::Done) => {
                    &&& final(self).stage() == SignupStage::Finished
                    &&& next@ == succeed(ReplySpec::Success)
                },
                _ => {
                    &&& final(self).stage() == SignupStage::Finished
                    &&& next@ == fail(Error::UnexpectedAnswer)
                },
            },
    {
        match (self.stage, answer) {
            (SignupStage::CreatingTable, Answer::Done) => {
                self.stage = SignupStage::Checking;
                Step::FetchOne(text_statement(SELECT_USER_BY_NAME, &self.credentials.username))
            },
            (SignupStage::Checking, Answer::Row(Some(_))) => {
                self.stage = SignupStage::Finished;
                finish(Err(Error::Signup))
            },
            (SignupStage::Checking, Answer::Row(None)) => {
                self.stage = SignupStage::Inserting;
                Step::Execute(
                    text2_statement(
                        INSERT_USER,
                        &self.credentials.username,
                        &self.credentials.password,
                    ),
                )
            },
            (SignupStage::Inserting, Answer::Done) => {
                self.stage = SignupStage::Finished;
                finish(Ok(Reply::Success))
            },
            _ => {
                self.stage = SignupStage::Finished;
                finish(Err(Error::UnexpectedAnswer))
            },
        }
    }
}

// ----------------------------------------------------------------------------------------
// Login
// ----------------------------------------------------------------------------------------

/// Where a login stands.
#[derive(Debug, Clone, Copy, PartialEq, Eq, Structural)]
pub enum LoginStage {
    /// Waits for the account with the credentials, if any.
    Checking,
    /// Waits for the same account again, to read its id.
    Loading,
    Finished,
}

/// Checks credentials and hands out the authentication token of the account, signed with
/// the server's secret.
pub struct LoginFlow {
    credentials: Credentials,
    secret: Vec<u8>,
    stage: LoginStage,
}

impl LoginFlow {
    pub closed spec fn stage(&self) -> LoginStage {
        self.stage
    }

    /// At most how many more answers the flow waits for.
    pub open spec fn steps_left(&self) -> nat {
        match self.stage() {
            LoginStage::Checking => 2,
            LoginStage::Loading => 1,
            LoginStage::Finished => 0,
        }
    }

    pub closed spec fn username(&self) -> Seq<char> {
        self.credentials.username@
    }

    pub closed spec fn password(&self) -> Seq<char> {
        self.credentials.password@
    }

    /// The key that tokens are signed with.
    pub closed spec fn secret(&self) -> Seq<u8> {
        self.secret@
    }

    /// The query for the account that has the flow's credentials.
    pub open spec fn account_query(&self) -> StatementSpec {
        statement(
            SELECT_USER_BY_CREDENTIALS,
            seq![ParamSpec::Text(self.username()), ParamSpec::Text(self.password())],
        )
    }

    /// Starts a login: the account with the credentials is looked up. Tokens are signed
    /// with `secret`.
    pub fn start(credentials: Credentials, secret: Vec<u8>) -> (r: (Self, Step))
        ensures
            r.0.stage() == LoginStage::Checking,
            r.0.secret() == secret@,
            r.0.username() == credentials.username@,
            r.0.password() == credentials.password@,
            r.1@ == StepSpec::FetchOne(r.0.account_query()),
    {
        let step = Step::FetchOne(
            text2_statement(SELECT_USER_BY_CREDENTIALS, &credentials.username, &credentials.password),
        );
        (LoginFlow { credentials, secret, stage: LoginStage::Checking }, step)
    }

    /// Takes the database's answer and says what comes next. No account with the
    /// credentials ends the login with `Error::Login`; the account's id gives the token.
    pub fn step(&mut self, answer: Answer) -> (next: Step)
        ensures
            final(self).username() == old(self).username(),
            final(self).password() == old(self).password(),
            final(self).secret() == old(self).secret(),
            final(self).stage() != LoginStage::Finished ==> final(self).steps_left()
                < old(self).steps_left(),
            match (old(self).stage(), answer) {
                (LoginStage::Checking, Answer::Row(Some(_))) => {
                    &&& final(self).stage() == LoginStage::Loading
                    &&& next@ == StepSpec::FetchOne(old(self).account_query())
                },
                (LoginStage::Loading, Answer::Row(Some(id))) => {
                    &&& final(self).stage() == LoginStage::Finished
                    &&& next@ == succeed(ReplySpec::LoggedIn(issued_token(id as int, old(self).secret())))
                    &&& id >= 0 ==> check_token(Some(issued_token(id as int, old(self).secret())), old(self).secret())
                        == Ok::<int, Error>(id as int)
                },
                (LoginStage::Checking, Answer::Row(None)) | (LoginStage::Loading, Answer::Row(None)) => {
                    &&& final(self).stage() == LoginStage::Finished
                    &&& next@ == fail(Error::Login)
                },
                _ => {
                    &&& final(self).stage() == LoginStage::Finished
                    &&& next@ == fail(Error::UnexpectedAnswer)
                },
            },
    {
        match (self.stage, answer) {
            (LoginStage::Checking, Answer::Row(Some(_))) => {
                self.stage = LoginStage::Loading;
                Step::FetchOne(
                    text2_statement(
                        SELECT_USER_BY_CREDENTIALS,
                        &self.credentials.username,
                        &self.credentials.password,
                    ),
                )
            },
            (LoginStage::Loading, Answer::Row(Some(id))) => {
                self.stage = LoginStage::Finished;
                finish(Ok(Reply::LoggedIn(make_auth_token(id, self.secret.as_slice()))))
            },
            (LoginStage::Checking, Answer::Row(None)) | (LoginStage::Loading, Answer::Row(None)) => {
                self.stage = LoginStage::Finished;
                finish(Err(Error::Login))
            },
            _ => {
                self.stage = LoginStage::Finished;
                finish(Err(Error::UnexpectedAnswer))
            },
        }
    }
}

// ----------------------------------------------------------------------------------------
// Saving points
// ----------------------------------------------------------------------------------------

/// Where the saving of points stands.
#[derive(Debug, Clone, Copy, PartialEq, Eq, Structural)]
pub enum SaveStage {
    /// Waits for the table of saved points to exist.
    CreatingTable,
    /// Waits for the account that the token names.
    FindingUser,
    /// Waits for a point to be saved.
    Saving,
    Finished,
}

/// Saves, for the user of the authentication token, the points whose ids the client sent.
/// The ids are read one by one, each just before it is saved: the first id that is not a
/// decimal `i64` ends the flow with `Error::ParseInt`, after the ids before it were saved.
pub struct SaveFlow {
    token: Option<String>,
    secret: Vec<u8>,
    ids: Vec<String>,
    stage: SaveStage,
    user_id: i64,
    next: usize,
}

/// The ids of `ids` as the contracts see them.
pub open spec fn texts(ids: Seq<String>) -> Seq<Seq<char>> {
    ids.map_values(|s: String| s@)
}

/// What saving asks for once `saved` of the `ids` were handed over for the account
/// `user_id`: the next id, read as an `i64`, is saved for the account; an id that does not
/// read ends the flow with `Error::ParseInt`; the end of the list ends it with success.
pub open spec fn save_step(ids: Seq<Seq<char>>, user_id: int, saved: int) -> StepSpec {
    if saved >= ids.len() {
        succeed(ReplySpec::StatusOk)
    } else {
        match spec_parse_i64(ids[saved]) {
            Some(n) => StepSpec::Execute(
                statement(INSERT_USER_COORDINATE, seq![ParamSpec::Int(user_id), ParamSpec::Int(n)]),
            ),
            None => fail(Error::ParseInt),
        }
    }
}

/// Every id that reads as an `i64`, whatever its size, is saved for the account as that
/// number, and only an id that does not read ends the saving with `Error::ParseInt`.
pub proof fn lemma_save_step_saves_every_i64(ids: Seq<Seq<char>>, user_id: int, k: int)
    requires
        0 <= k < ids.len(),
    ensures
        forall|n: int|
            spec_parse_i64(ids[k]) == Some(n) ==> save_step(ids, user_id, k) == StepSpec::Execute(
                statement(INSERT_USER_COORDINATE, seq![ParamSpec::Int(user_id), ParamSpec::Int(n)]),
            ),
        spec_parse_i64(ids[k]) is None <==> save_step(ids, user_id, k) == fail(Error::ParseInt),
{
}

/// An id written as a run of decimal digits whose value fits in an `i64` is saved as that
/// value; so is the decimal text of any `i64`, as `Display` writes it.
pub proof fn lemma_save_step_saves_decimal_ids(ids: Seq<Seq<char>>, user_id: int, k: int, n: int)
    requires
        0 <= k < ids.len(),
        (ids[k].len() > 0 && all_digits(ids[k]) && n == digits_value(ids[k]) && n <= i64::MAX)
            || (i64::MIN <= n <= i64::MAX && ids[k] == decimal(n)),
    ensures
        save_step(ids, user_id, k) == StepSpec::Execute(
            statement(INSERT_USER_COORDINATE, seq![ParamSpec::Int(user_id), ParamSpec::Int(n)]),
        ),
{
    if ids[k].len() > 0 && all_digits(ids[k]) && n == digits_value(ids[k]) && n <= i64::MAX {
        lemma_digits_value_nonneg(ids[k]);
        assert(is_digit(ids[k][0]));
    } else {
        lemma_parse_decimal(n);
    }
}

impl SaveFlow {
    pub closed spec fn stage(&self) -> SaveStage {
        self.stage
    }

    pub closed spec fn token(&self) -> Option<Seq<char>> {
        opt_view(self.token)
    }

    /// The key that tokens are signed with.
    pub closed spec fn secret(&self) -> Seq<u8> {
        self.secret@
    }

    pub closed spec fn ids(&self) -> Seq<Seq<char>> {
        texts(self.ids@)
    }

    /// The account the points are saved for, once it was found.
    pub closed spec fn user_id(&self) -> int {
        self.user_id as int
    }

    /// How many ids were handed to the database so far.
    pub closed spec fn saved(&self) -> int {
        self.next as int
    }

    pub closed spec fn wf(&self) -> bool {
        self.next <= self.ids@.len()
    }

    /// At most how many more answers the flow waits for.
    pub open spec fn steps_left(&self) -> int {
        match self.stage() {
            SaveStage::CreatingTable => self.ids().len() + 2int,
            SaveStage::FindingUser => self.ids().len() + 1int,
            SaveStage::Saving => self.ids().len() - self.saved() + 1,
            SaveStage::Finished => 0,
        }
    }

    /// What the flow asks for next, once `saved()` ids were handed over.
    pub open spec fn save_next(&self) -> StepSpec {
        save_step(self.ids(), self.user_id(), self.saved())
    }

    /// Starts saving points: the table of saved points is created first.
    pub fn start(token: Option<String>, secret: Vec<u8>, ids: Vec<String>) -> (r: (Self, Step))
        ensures
            r.0.wf(),
            r.0.secret() == secret@,
            r.0.stage() == SaveStage::CreatingTable,
            r.0.token() == opt_view(token),
            r.0.ids() == texts(ids@),
            r.1@ == StepSpec::Execute(statement(CREATE_USER_COORDINATES_TABLE, Seq::empty())),
    {
        let step = Step::Execute(crate::database::plain(CREATE_USER_COORDINATES_TABLE));
        (SaveFlow { token, secret, ids, stage: SaveStage::CreatingTable, user_id: 0, next: 0 }, step)
    }

    /// Hands the next id to the database, or ends the flow.
    fn save_from(&mut self) -> (next: Step)
        requires
            old(self).wf(),
            old(self).stage() == SaveStage::Saving,
        ensures
            final(self).wf(),
            final(self).token() == old(self).token(),
            final(self).secret() == old(self).secret(),
            final(self).ids() == old(self).ids(),
            final(self).user_id() == old(self).user_id(),
            next@ == old(self).save_next(),
            next@ is Execute ==> final(self).stage() == SaveStage::Saving && final(self).saved()
                == old(self).saved() + 1,
            !(next@ is Execute) ==> final(self).stage() == SaveStage::Finished && final(self).saved()
                == old(self).saved(),
    {
        if self.next == self.ids.len() {
            self.stage = SaveStage::Finished;
            return finish(Ok(Reply::StatusOk));
        }
        assert(self.ids()[self.saved()] == self.ids@[self.next as int]@);
        match parse_i64(self.ids[self.next].as_str()) {
            None => {
                self.stage = SaveStage::Finished;
                finish(Err(Error::ParseInt))
            },
            Some(n) => {
                self.next = self.next + 1;
                Step::Execute(int2_statement(INSERT_USER_COORDINATE, self.user_id, n))
            },
        }
    }

    /// Takes the database's answer and says what comes next. A token that does not name
    /// an account ends the flow with the token's error or `Error::Login`.
    pub fn step(&mut self, answer: Answer) -> (next: Step)
        requires
            old(self).wf(),
        ensures
            final(self).wf(),
            final(self).token() == old(self).token(),
            final(self).secret() == old(self).secret(),
            final(self).ids() == old(self).ids(),
            final(self).stage() != SaveStage::Finished ==> 0 <= final(self).steps_left()
                < old(self).steps_left(),
            match (old(self).stage(), answer) {
                (SaveStage::CreatingTable, Answer::Done) => match check_token(old(self).token(), old(self).secret()) {
                    Ok(id) => {
                        &&& final(self).stage() == SaveStage::FindingUser
                        &&& next@ == StepSpec::FetchOne(
                            statement(SELECT_USER_BY_ID, seq![ParamSpec::Int(id)]),
                        )
                    },
                    Err(e) => {
                        &&& final(self).stage() == SaveStage::Finished
                        &&& next@ == fail(e)
                    },
                },
                (SaveStage::FindingUser, Answer::Row(None)) => {
                    &&& final(self).stage() == SaveStage::Finished
                    &&& next@ == fail(Error::Login)
                },
                (SaveStage::FindingUser, Answer::Row(Some(user))) => {
                    &&& final(self).user_id() == user
                    &&& next@ == save_step(old(self).ids(), user as int, 0)
                    &&& next@ is Execute ==> final(self).stage() == SaveStage::Saving
                        && final(self).saved() == 1
                    &&& !(next@ is Execute) ==> final(self).stage() == SaveStage::Finished
                },
                (SaveStage::Saving, Answer::Done) => {
                    &&& final(self).user_id() == old(self).user_id()
                    &&& next@ == old(self).save_next()
                    &&& next@ is Execute ==> final(self).stage() == SaveStage::Saving
                        && final(self).saved() == old(self).saved() + 1
                    &&& !(next@ is Execute) ==> final(self).stage() == SaveStage::Finished
                },
                _ => {
                    &&& final(self).stage() == SaveStage::Finished
                    &&& next@ == fail(Error::UnexpectedAnswer)
                },
            },
    {
        match (self.stage, answer) {
            (SaveStage::CreatingTable, Answer::Done) => match token_user_id(&self.token, &self.secret) {
                Ok(id) => {
                    self.stage = SaveStage::FindingUser;
                    Step::FetchOne(int_statement(SELECT_USER_BY_ID, id))
                },
                Err(e) => {
                    self.stage = SaveStage::Finished;
                    finish(Err(e))
                },
            },
            (SaveStage::FindingUser, Answer::Row(None)) => {
                self.stage = SaveStage::Finished;
                finish(Err(Error::Login))
            },
            (SaveStage::FindingUser, Answer::Row(Some(user))) => {
                self.user_id = user;
                self.next = 0;
                self.stage = SaveStage::Saving;
                self.save_from()
            },
            (SaveStage::Saving, Answer::Done) => self.save_from(),
            _ => {
                self.stage = SaveStage::Finished;
                finish(Err(Error::UnexpectedAnswer))
            },
        }
    }
}

// ----------------------------------------------------------------------------------------
// Reading saved points
// ----------------------------------------------------------------------------------------

/// Where the reading of saved points stands.
#[derive(Debug, Clone, Copy, PartialEq, Eq, Structural)]
pub enum GetStage {
    /// Waits for the ids of the points the user saved.
    Listing,
    /// Waits for a saved point.
    Collecting,
    Finished,
}

/// Gathers the points that the user of the authentication token saved, in the order the
/// database lists them. A saved id whose point is no longer stored ends the flow with
/// `Error::Unknown`.
pub struct GetFlow {
    stage: GetStage,
    ids: Vec<i64>,
    next: usize,
}

/// What reading asks for once `collected` of the saved `ids` were gathered: the next
/// point, or the end of the flow.
pub open spec fn collect_step(ids: Seq<i64>, collected: int) -> StepSpec {
    if collected >= ids.len() {
        succeed(ReplySpec::Coordinates)
    } else {
        StepSpec::Collect(statement(SELECT_COORDINATE_BY_ID, seq![ParamSpec::Int(ids[collected] as int)]))
    }
}

/// The `k`-th point asked for is the `k`-th listed id, as the whole `i64`: the read binds
/// exactly that id, whatever its size.
pub proof fn lemma_collect_step_reads_listed_id(ids: Seq<i64>, k: int)
    requires
        0 <= k < ids.len(),
    ensures
        collect_step(ids, k) == StepSpec::Collect(
            statement(SELECT_COORDINATE_BY_ID, seq![ParamSpec::Int(ids[k] as int)]),
        ),
{
}

/// Two listed ids that differ are never read by the same statement: each read finds the
/// point of its own id.
pub proof fn lemma_collect_steps_tell_ids_apart(ids: Seq<i64>, j: int, k: int)
    requires
        0 <= j < ids.len(),
        0 <= k < ids.len(),
        ids[j] != ids[k],
    ensures
        collect_step(ids, j) != collect_step(ids, k),
{
    lemma_collect_step_reads_listed_id(ids, j);
    lemma_collect_step_reads_listed_id(ids, k);
    let pj = seq![ParamSpec::Int(ids[j] as int)];
    let pk = seq![ParamSpec::Int(ids[k] as int)];
    assert(pj[0] != pk[0]);
}

impl GetFlow {
    pub closed spec fn stage(&self) -> GetStage {
        self.stage
    }

    /// The ids of the saved points, once they were listed.
    pub closed spec fn ids(&self) -> Seq<i64> {
        self.ids@
    }

    /// How many points were asked for so far.
    pub closed spec fn requested(&self) -> int {
        self.next as int
    }

    pub closed spec fn wf(&self) -> bool {
        self.next <= self.ids@.len()
    }

    /// Asks for the next saved point, or ends the flow.
    fn collect_from(&mut self) -> (next: Step)
        requires
            old(self).wf(),
        ensures
            final(self).wf(),
            final(self).ids() == old(self).ids(),
            next@ == collect_step(old(self).ids(), old(self).requested()),
            next@ is Collect ==> final(self).stage() == GetStage::Collecting
                && final(self).requested() == old(self).requested() + 1,
            !(next@ is Collect) ==> final(self).stage() == GetStage::Finished,
    {
        if self.next == self.ids.len() {
            self.stage = GetStage::Finished;
            return finish(Ok(Reply::Coordinates));
        }
        let id = self.ids[self.next];
        self.next = self.next + 1;
        self.stage = GetStage::Collecting;
        Step::Collect(int_statement(SELECT_COORDINATE_BY_ID, id))
    }

    /// Starts reading the points of the user that `token` names: the ids of the points
    /// the user saved are listed first. A token that does not read ends the flow.
    pub fn start(token: Option<String>, secret: Vec<u8>) -> (r: (Self, Step))
        ensures
            r.0.wf(),
            match check_token(opt_view(token), secret@) {
                Ok(id) => {
                    &&& r.0.stage() == GetStage::Listing
                    &&& r.1@ == StepSpec::FetchAll(
                        statement(SELECT_USER_COORDINATES, seq![ParamSpec::Int(id)]),
                    )
                },
                Err(e) => {
                    &&& r.0.stage() == GetStage::Finished
                    &&& r.1@ == fail(e)
                },
            },
    {
        match token_user_id(&token, &secret) {
            Ok(id) => (
                GetFlow { stage: GetStage::Listing, ids: Vec::new(), next: 0 },
                Step::FetchAll(int_statement(SELECT_USER_COORDINATES, id)),
            ),
            Err(e) => (GetFlow { stage: GetStage::Finished, ids: Vec::new(), next: 0 }, finish(Err(e))),
        }
    }

    /// Takes the database's answer and says what comes next.
    pub fn step(&mut self, answer: Answer) -> (next: Step)
        requires
            old(self).wf(),
        ensures
            final(self).wf(),
            old(self).stage() == GetStage::Collecting && final(self).stage() != GetStage::Finished
                ==> final(self).ids().len() - final(self).requested() < old(self).ids().len()
                - old(self).requested(),
            match (old(self).stage(), answer) {
                (GetStage::Listing, Answer::Rows(ids)) => {
                    &&& final(self).ids() == ids@
                    &&& next@ == collect_step(ids@, 0)
                    &&& next@ is Collect ==> final(self).stage() == GetStage::Collecting
                        && final(self).requested() == 1
                    &&& !(next@ is Collect) ==> final(self).stage() == GetStage::Finished
                },
                (GetStage::Collecting, Answer::Row(Some(_))) => {
                    &&& final(self).ids() == old(self).ids()
                    &&& next@ == collect_step(old(self).ids(), old(self).requested())
                    &&& next@ is Collect ==> final(self).stage() == GetStage::Collecting
                        && final(self).requested() == old(self).requested() + 1
                    &&& !(next@ is Collect) ==> final(self).stage() == GetStage::Finished
                },
                (GetStage::Collecting, Answer::Row(None)) => {
                    &&& final(self).stage() == GetStage::Finished
                    &&& next@ == fail(Error::Unknown)
                },
                _ => {
                    &&& final(self).stage() == GetStage::Finished
                    &&& next@ == fail(Error::UnexpectedAnswer)
                },
            },
    {
        match (self.stage, answer) {
            (GetStage::Listing, Answer::Rows(ids)) => {
                self.ids = ids;
                self.next = 0;
                self.collect_from()
            },
            (GetStage::Collecting, Answer::Row(Some(_))) => self.collect_from(),
            (GetStage::Collecting, Answer::Row(None)) => {
                self.stage = GetStage::Finished;
                finish(Err(Error::Unknown))
            },
            _ => {
                self.stage = GetStage::Finished;
                finish(Err(Error::UnexpectedAnswer))
            },
        }
    }
}

// ----------------------------------------------------------------------------------------
// Forgetting a saved point
// ----------------------------------------------------------------------------------------

/// Where the forgetting of a saved point stands.
#[derive(Debug, Clone, Copy, PartialEq, Eq, Structural)]
pub enum DeleteStage {
    /// Waits for the saved point to be removed.
    Deleting,
    Finished,
}

/// Removes a point from those the user of the authentication token saved.
pub struct DeleteFlow {
    stage: DeleteStage,
}

impl DeleteFlow {
    pub closed spec fn stage(&self) -> DeleteStage {
        self.stage
    }

    /// Starts forgetting the point `id` for the user that `token` names. A token that does
    /// not read ends the flow.
    pub fn start(token: Option<String>, secret: Vec<u8>, id: i64) -> (r: (Self, Step))
        ensures
            match check_token(opt_view(token), secret@) {
                Ok(user) => {
                    &&& r.0.stage() == DeleteStage::Deleting
                    &&& r.1@ == StepSpec::Execute(
                        statement(
                            DELETE_USER_COORDINATE,
                            seq![ParamSpec::Int(user), ParamSpec::Int(id as int)],
                        ),
                    )
                },
                Err(e) => {
                    &&& r.0.stage() == DeleteStage::Finished
                    &&& r.1@ == fail(e)
                },
            },
    {
        match token_user_id(&token, &secret) {
            Ok(user) => (
                DeleteFlow { stage: DeleteStage::Deleting },
                Step::Execute(int2_statement(DELETE_USER_COORDINATE, user, id)),
            ),
            Err(e) => (DeleteFlow { stage: DeleteStage::Finished }, finish(Err(e))),
        }
    }

    /// Takes the database's answer and says what comes next.
    pub fn step(&mut self, answer: Answer) -> (next: Step)
        ensures
            final(self).stage() == DeleteStage::Finished,
            match (old(self).stage(), answer) {
                (DeleteStage::Deleting, Answer::Done) => next@ == succeed(ReplySpec::StatusOk),
                _ => next@ == fail(Error::UnexpectedAnswer),
            },
    {
        let next = match (self.stage, answer) {
            (DeleteStage::Deleting, Answer::Done) => finish(Ok(Reply::StatusOk)),
            _ => finish(Err(Error::UnexpectedAnswer)),
        };
        self.stage = DeleteStage::Finished;
        next
    }
}

} // verus!
