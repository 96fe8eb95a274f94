use vstd::prelude::*;

use crate::model::{with_latitude, Coordinates, MapData};
use crate::text::chars_of;

verus! {

/// Name of the SQLite database file, without its extension.
pub const DB_NAME: &'static str = "database";

/// Creates the table of the points found for a query.
pub const CREATE_COORDINATES_TABLE: &'static str =
    "CREATE TABLE IF NOT EXISTS coordinates (\n\t\tid INTEGER PRIMARY KEY,\n\t\tlat REAL NOT NULL,\n\t\tlon REAL NOT NULL\n\t);";

/// Stores one point of a query; a point already stored under the id gets the new position.
pub const INSERT_COORDINATE: &'static str =
    "INSERT OR REPLACE INTO coordinates (id, lat, lon) VALUES (?1, ?2, ?3)";

/// Creates the table of user accounts.
pub const CREATE_USERS_TABLE: &'static str =
    "CREATE TABLE IF NOT EXISTS users (\n\t\tid INTEGER PRIMARY KEY AUTOINCREMENT,\n\t\tusername TEXT NOT NULL,\n\t\tpassword TEXT NOT NULL\n\t);";

/// Finds the account with a user name.
pub const SELECT_USER_BY_NAME: &'static str = "SELECT * FROM users WHERE username = ?1";

/// Adds an account.
pub const INSERT_USER: &'static str =
    "INSERT OR IGNORE INTO users (username, password) VALUES (?1, ?2)";

/// Finds the account with a user name and password.
pub const SELECT_USER_BY_CREDENTIALS: &'static str =
    "SELECT * FROM users WHERE username = ?1 AND password = ?2";

/// Creates the table of the points that users saved.
pub const CREATE_USER_COORDINATES_TABLE: &'static str =
    "CREATE TABLE IF NOT EXISTS userCoordinates (\n\t  id INTEGER PRIMARY KEY AUTOINCREMENT,\n\t  userId INTEGER,\n\t  coordinateId INTEGER\n\t);";

/// Finds the account with an id.
pub const SELECT_USER_BY_ID: &'static str = "SELECT * FROM users WHERE id = ?1";

/// Saves a point for a user, unless the user saved it already.
pub const INSERT_USER_COORDINATE: &'static str =
    "INSERT INTO userCoordinates (userId, coordinateId) SELECT ?1, ?2 WHERE NOT EXISTS (SELECT 1 FROM userCoordinates WHERE userId = ?1 AND coordinateId = ?2);";

/// Lists the points a user saved.
pub const SELECT_USER_COORDINATES: &'static str = "SELECT * FROM userCoordinates WHERE userId = ?1";

/// Reads one stored point.
pub const SELECT_COORDINATE_BY_ID: &'static str = "SELECT * FROM coordinates WHERE id = ?1";

/// Forgets a point that a user saved.
pub const DELETE_USER_COORDINATE: &'static str =
    "DELETE FROM userCoordinates WHERE userId = ?1 AND coordinateId = ?2";

/// A value bound to a placeholder of a statement.
#[derive(Debug)]
pub enum Param {
    Int(i64),
    /// A binary64 value, given by its bits.
    Real(u64),
    Text(String),
}

/// A parameter, as the contracts see it.
pub enum ParamSpec {
    Int(int),
    Real(u64),
    Text(Seq<char>),
}

impl View for Param {
    type V = ParamSpec;

    open spec fn view(&self) -> ParamSpec {
        match self {
            Param::Int(i) => ParamSpec::Int(*i as int),
            Param::Real(r) => ParamSpec::Real(*r),
            Param::Text(t) => ParamSpec::Text(t@),
        }
    }
}

/// An SQL statement with the values of its placeholders `?1`, `?2`, ...
#[derive(Debug)]
pub struct Statement {
    pub sql: String,
    pub params: Vec<Param>,
}

/// A statement, as the contracts see it.
pub struct StatementSpec {
    pub sql: Seq<char>,
    pub params: Seq<ParamSpec>,
}

impl View for Statement {
    type V = StatementSpec;

    open spec fn view(&self) -> StatementSpec {
        StatementSpec { sql: self.sql@, params: self.params@.map_values(|p: Param| p@) }
    }
}

/// The statement `sql` with the values `params`.
pub open spec fn statement(sql: &str, params: Seq<ParamSpec>) -> StatementSpec {
    StatementSpec { sql: sql@, params }
}

/// The statement that stores the point `c` in the table `table`, given by `sql`.
pub open spec fn insert_point(sql: Seq<char>, c: Coordinates) -> StatementSpec {
    StatementSpec {
        sql,
        params: seq![ParamSpec::Int(c.id as int), ParamSpec::Real(c.lat), ParamSpec::Real(c.lon)],
    }
}

/// The URL of the SQLite database `name`: `sqlite://<name>.db`.
pub fn database_url(name: &str) -> (url: String)
    ensures
        url@ == "sqlite://"@ + name@ + ".db"@,
{
    let mut url = String::from_str("sqlite://");
    url.append(name);
    url.append(".db");
    url
}

/// `sql` with no values bound.
pub fn plain(sql: &str) -> (s: Statement)
    ensures
        s@ == statement(sql, Seq::empty()),
{
    let s = Statement { sql: String::from_str(sql), params: Vec::new() };
    assert(s.params@.map_values(|p: Param| p@) =~= Seq::<ParamSpec>::empty());
    s
}

/// `name` with every '"' doubled.
pub open spec fn double_quotes(name: Seq<char>) -> Seq<char>
    decreases name.len(),
{
    if name.len() == 0 {
        seq![]
    } else {
        (if name[0] == '"' {
            seq!['"', '"']
        } else {
            seq![name[0]]
        }) + double_quotes(name.drop_first())
    }
}

/// `name` as an SQL quoted identifier: between double quotes, with its own double quotes
/// doubled.
pub open spec fn quoted_identifier(name: Seq<char>) -> Seq<char> {
    seq!['"'] + double_quotes(name) + seq!['"']
}

/// How SQLite reads the rest of a quoted identifier from position `i` of `s`, just after its
/// opening quote: a doubled quote stands for one quote, a single quote closes it. The name
/// read and the position just past the closing quote; `None` when no quote closes it.
pub open spec fn read_quoted(s: Seq<char>, i: int) -> Option<(Seq<char>, int)>
    decreases s.len() - i,
{
    if i < 0 || i >= s.len() {
        None
    } else if s[i] == '"' {
        if i + 1 < s.len() && s[i + 1] == '"' {
            match read_quoted(s, i + 2) {
                Some((name, end)) => Some((seq!['"'] + name, end)),
                None => None,
            }
        } else {
            Some((seq![], i + 1))
        }
    } else {
        match read_quoted(s, i + 1) {
            Some((name, end)) => Some((seq![s[i]] + name, end)),
            None => None,
        }
    }
}

/// Whatever the city's name, its quoted form in a statement is read as exactly that name
/// and ends where the quoting ends, when the text after it does not start with a quote (in
/// the statements below, a space follows): no part of the name is read as SQL.
pub proof fn lemma_quoted_identifier_reads_back(name: Seq<char>, before: Seq<char>, after: Seq<char>)
    requires
        after.len() == 0 || after[0] != '"',
    ensures
        read_quoted(before + quoted_identifier(name) + after, before.len() + 1int) == Some(
            (name, before.len() + quoted_identifier(name).len() as int),
        ),
{
    let s = before + quoted_identifier(name) + after;
    assert(s.skip(before.len() + 1int) =~= double_quotes(name) + seq!['"'] + after);
    lemma_read_quoted(s, before.len() + 1int, name, after);
}

proof fn lemma_read_quoted(s: Seq<char>, i: int, name: Seq<char>, after: Seq<char>)
    requires
        0 <= i <= s.len(),
        s.skip(i) == double_quotes(name) + seq!['"'] + after,
        after.len() == 0 || after[0] != '"',
    ensures
        read_quoted(s, i) == Some((name, i + double_quotes(name).len() + 1)),
    decreases name.len(),
{
    let rest = double_quotes(name) + seq!['"'] + after;
    assert(s[i] == s.skip(i)[0]);
    if name.len() == 0 {
        assert(double_quotes(name) =~= Seq::<char>::empty());
        assert(s[i] == '"');
        if i + 1 < s.len() {
            assert(s[i + 1] == s.skip(i)[1]);
            assert(s.skip(i)[1] == after[0]);
        }
    } else {
        let tail = name.drop_first();
        if name[0] == '"' {
            assert(double_quotes(name) == seq!['"', '"'] + double_quotes(tail));
            assert(rest =~= seq!['"', '"'] + (double_quotes(tail) + seq!['"'] + after));
            assert(s[i + 1] == s.skip(i)[1]);
            assert(s.skip(i + 2) =~= s.skip(i).skip(2));
            assert(s.skip(i + 2) =~= double_quotes(tail) + seq!['"'] + after);
            lemma_read_quoted(s, i + 2, tail, after);
            assert(seq!['"'] + tail =~= name);
        } else {
            assert(double_quotes(name) == seq![name[0]] + double_quotes(tail));
            assert(rest =~= seq![name[0]] + (double_quotes(tail) + seq!['"'] + after));
            assert(s.skip(i + 1) =~= s.skip(i).skip(1));
            assert(s.skip(i + 1) =~= double_quotes(tail) + seq!['"'] + after);
            lemma_read_quoted(s, i + 1, tail, after);
            assert(seq![name[0]] + tail =~= name);
        }
    }
}

/// `name` as an SQL quoted identifier.
pub fn quote_identifier(name: &str) -> (q: String)
    ensures
        q@ == quoted_identifier(name@),
{
    let cs = chars_of(name);
    proof {
        reveal_strlit("\"");
        reveal_strlit("\"\"");
    }
    let mut q = String::from_str("\"");
    let mut i: usize = 0;
    assert(name@.skip(0) == name@);
    while i < cs.len()
        invariant
            i <= cs@.len(),
            cs@ == name@,
            "\""@ == seq!['"'],
            "\"\""@ == seq!['"', '"'],
            quoted_identifier(name@) == q@ + double_quotes(name@.skip(i as int)) + seq!['"'],
        decreases cs@.len() - i,
    {
        assert(name@.skip(i as int).drop_first() == name@.skip(i + 1));
        assert(name@.skip(i as int)[0] == name@[i as int]);
        if cs[i] == '"' {
            q.append("\"\"");
        } else {
            q.append(name.substring_char(i, i + 1));
            assert(name@.subrange(i as int, i + 1) =~= seq![name@[i as int]]);
        }
        i = i + 1;
    }
    assert(name@.skip(i as int) =~= Seq::<char>::empty());
    assert(double_quotes(name@.skip(i as int)) =~= Seq::<char>::empty());
    q.append("\"");
    assert(q@ =~= quoted_identifier(name@));
    q
}

/// Creates the table named after the city `city`, which holds the city's boundary points.
pub fn create_city_table(city: &str) -> (sql: String)
    ensures
        sql@ == create_city_table_text(city@),
{
    let mut sql = String::from_str("CREATE TABLE IF NOT EXISTS ");
    sql.append(quote_identifier(city).as_str());
    sql.append(" (\n\t\t\t\tid INTEGER PRIMARY KEY,\n\t\t\t\tlat REAL NOT NULL,\n\t\t\t\tlon REAL NOT NULL\n\t\t\t);");
    sql
}

/// Stores one boundary point of the city `city`; a point already stored under the id gets
/// the new position.
pub fn insert_city_point(city: &str) -> (sql: String)
    ensures
        sql@ == insert_city_text(city@),
{
    let mut sql = String::from_str("INSERT OR REPLACE INTO ");
    sql.append(quote_identifier(city).as_str());
    sql.append(" (id, lat, lon) VALUES (?1, ?2, ?3)");
    sql
}

/// Reads one boundary point of the city `city`, by its id.
pub fn select_city_point(city: &str) -> (sql: String)
    ensures
        sql@ == select_city_text(city@),
{
    let mut sql = String::from_str("SELECT * FROM ");
    sql.append(quote_identifier(city).as_str());
    sql.append(" WHERE id = ?1");
    sql
}

/// Appends to `out` one statement per point of `points` that has a latitude, each storing
/// the point with the statement text `sql`.
fn push_inserts(out: &mut Vec<Statement>, sql: &String, points: &MapData)
    ensures
        final(out)@.map_values(|s: Statement| s@) == old(out)@.map_values(|s: Statement| s@)
            + with_latitude(points.coordinates@).map_values(|c: Coordinates| insert_point(sql@, c)),
{
    let storable = points.storable();
    let ghost start = old(out)@.map_values(|s: Statement| s@);
    let ghost inserts = storable@.map_values(|c: Coordinates| insert_point(sql@, c));
    let mut i: usize = 0;
    while i < storable.len()
        invariant
            i <= storable@.len(),
            inserts == storable@.map_values(|c: Coordinates| insert_point(sql@, c)),
            start == old(out)@.map_values(|s: Statement| s@),
            out@.map_values(|s: Statement| s@) == start + inserts.take(i as int),
        decreases storable@.len() - i,
    {
        let c = storable[i];
        let mut params: Vec<Param> = Vec::new();
        params.push(Param::Int(c.id));
        params.push(Param::Real(c.lat));
        params.push(Param::Real(c.lon));
        let s = Statement { sql: sql.clone(), params };
        assert(s@ == insert_point(sql@, c)) by {
            assert(s.params@.map_values(|p: Param| p@) =~= seq![
                ParamSpec::Int(c.id as int),
                ParamSpec::Real(c.lat),
                ParamSpec::Real(c.lon),
            ]);
        }
        let ghost before = out@;
        out.push(s);
        assert(out@.map_values(|s: Statement| s@) =~= before.map_values(|s: Statement| s@).push(s@));
        assert(inserts.take(i + 1) =~= inserts.take(i as int).push(inserts[i as int]));
        i = i + 1;
    }
    assert(inserts.take(i as int) == inserts);
}

/// The statement that reads back, with the statement text `sql`, the point stored under `id`.
pub open spec fn read_id(sql: Seq<char>, id: i64) -> StatementSpec {
    StatementSpec { sql, params: seq![ParamSpec::Int(id as int)] }
}

/// Each id comes before every larger one, and none twice.
pub open spec fn strictly_increasing(ids: Seq<i64>) -> bool {
    forall|i: int, j: int| 0 <= i < j < ids.len() ==> ids[i] < ids[j]
}

/// Some point of `points` has the id `id`.
pub open spec fn has_id(points: Seq<Coordinates>, id: i64) -> bool {
    exists|k: int| 0 <= k < points.len() && points[k].id == id
}

/// The ids of `points` in increasing order, each once: the order in which SQLite lists the
/// rows of a table keyed by an `INTEGER PRIMARY KEY`.
pub open spec fn is_id_order(ids: Seq<i64>, points: Seq<Coordinates>) -> bool {
    &&& strictly_increasing(ids)
    &&& forall|id: i64| #[trigger] ids.contains(id) <==> has_id(points, id)
}

/// Puts `x` into the increasing list `ids`, unless it is there already.
fn insert_in_order(ids: &mut Vec<i64>, x: i64)
    requires
        strictly_increasing(old(ids)@),
    ensures
        strictly_increasing(final(ids)@),
        forall|y: i64| #[trigger] final(ids)@.contains(y) <==> old(ids)@.contains(y) || y == x,
{
    let mut i: usize = 0;
    while i < ids.len() && ids[i] < x
        invariant
            i <= ids@.len(),
            forall|k: int| 0 <= k < i ==> ids@[k] < x,
        decreases ids@.len() - i,
    {
        i = i + 1;
    }
    if i < ids.len() && ids[i] == x {
        assert(ids@.contains(x));
        return;
    }
    let ghost before = ids@;
    ids.insert(i, x);
    assert(ids@ =~= before.take(i as int).push(x) + before.skip(i as int));
    assert forall|a: int, b: int| 0 <= a < b < ids@.len() implies ids@[a] < ids@[b] by {
        if b < i {
        } else if b == i {
        } else if a < i {
            assert(before[a] < before[b - 1]);
        } else if a == i {
            assert(x <= before[i as int]);
            if b - 1 > i as int {
                assert(before[i as int] < before[b - 1]);
            }
        } else {
            assert(before[a - 1] < before[b - 1]);
        }
    }
    assert forall|y: i64| #[trigger] ids@.contains(y) <==> before.contains(y) || y == x by {
        if ids@.contains(y) {
            let k = choose|k: int| 0 <= k < ids@.len() && ids@[k] == y;
            if k < i {
                assert(before[k] == y);
            } else if k > i {
                assert(before[k - 1] == y);
            }
        }
        if before.contains(y) {
            let k = choose|k: int| 0 <= k < before.len() && before[k] == y;
            if k < i {
                assert(ids@[k] == y);
            } else {
                assert(ids@[k + 1] == y);
            }
        }
        if y == x {
            assert(ids@[i as int] == x);
        }
    }
}

/// The ids of the points of `points` that have a latitude, in increasing order, each once.
fn stored_ids(points: &MapData) -> (ids: Vec<i64>)
    ensures
        is_id_order(ids@, with_latitude(points.coordinates@)),
{
    let storable = points.storable();
    let mut ids: Vec<i64> = Vec::new();
    let mut i: usize = 0;
    while i < storable.len()
        invariant
            i <= storable@.len(),
            strictly_increasing(ids@),
            forall|id: i64| #[trigger] ids@.contains(id) <==> has_id(storable@.take(i as int), id),
        decreases storable@.len() - i,
    {
        insert_in_order(&mut ids, storable[i].id);
        proof {
            let now = storable@.take(i + 1);
            let was = storable@.take(i as int);
            assert forall|id: i64| has_id(now, id) <==> has_id(was, id) || id == storable@[i as int].id by {
                if has_id(now, id) {
                    let k = choose|k: int| 0 <= k < now.len() && now[k].id == id;
                    if k < i {
                        assert(was[k] == now[k]);
                    }
                }
                if has_id(was, id) {
                    let k = choose|k: int| 0 <= k < was.len() && was[k].id == id;
                    assert(now[k] == was[k]);
                }
                if id == storable@[i as int].id {
                    assert(now[i as int] == storable@[i as int]);
                }
            }
        }
        i = i + 1;
    }
    assert(storable@.take(i as int) == storable@);
    ids
}

/// One statement per id of `ids`, in order, each reading the point stored under the id
/// with the statement text `sql`.
fn reads_of(sql: &String, ids: &Vec<i64>) -> (reads: Vec<Statement>)
    ensures
        reads@.map_values(|s: Statement| s@) == ids@.map_values(|id: i64| read_id(sql@, id)),
{
    let ghost want = ids@.map_values(|id: i64| read_id(sql@, id));
    let mut reads: Vec<Statement> = Vec::new();
    let mut i: usize = 0;
    while i < ids.len()
        invariant
            i <= ids@.len(),
            want == ids@.map_values(|id: i64| read_id(sql@, id)),
            reads@.map_values(|s: Statement| s@) == want.take(i as int),
        decreases ids@.len() - i,
    {
        let mut params: Vec<Param> = Vec::new();
        params.push(Param::Int(ids[i]));
        let s = Statement { sql: sql.clone(), params };
        assert(s@ == read_id(sql@, ids@[i as int])) by {
            assert(s.params@.map_values(|p: Param| p@) =~= seq![ParamSpec::Int(ids@[i as int] as int)]);
        }
        let ghost before = reads@;
        reads.push(s);
        assert(reads@.map_values(|s: Statement| s@) =~= before.map_values(|s: Statement| s@).push(s@));
        assert(want.take(i + 1) =~= want.take(i as int).push(want[i as int]));
        i = i + 1;
    }
    assert(want.take(i as int) == want);
    reads
}

/// The statements that store what the map service sent for a request, in the order they
/// run: create the table of points, create the table of the city's boundary, then store
/// each point that has a latitude, then each boundary point that has one. A point that was
/// stored before gets the position sent now.
pub fn store_statements(city: &str, points: &MapData, boundary: &MapData) -> (stmts: Vec<Statement>)
    ensures
        stmts@.map_values(|s: Statement| s@) == seq![
            statement(CREATE_COORDINATES_TABLE, Seq::empty()),
            StatementSpec { sql: create_city_table_text(city@), params: Seq::empty() },
        ] + with_latitude(points.coordinates@).map_values(
            |c: Coordinates| insert_point(INSERT_COORDINATE@, c),
        ) + with_latitude(boundary.coordinates@).map_values(
            |c: Coordinates| insert_point(insert_city_text(city@), c),
        ),
{
    let mut stmts: Vec<Statement> = Vec::new();
    stmts.push(plain(CREATE_COORDINATES_TABLE));
    let create = create_city_table(city);
    let s = Statement { sql: create, params: Vec::new() };
    assert(s.params@.map_values(|p: Param| p@) =~= Seq::<ParamSpec>::empty());
    stmts.push(s);
    assert(stmts@.map_values(|s: Statement| s@) =~= seq![
        statement(CREATE_COORDINATES_TABLE, Seq::empty()),
        StatementSpec { sql: create_city_table_text(city@), params: Seq::empty() },
    ]);
    push_inserts(&mut stmts, &String::from_str(INSERT_COORDINATE), points);
    push_inserts(&mut stmts, &insert_city_point(city), boundary);
    stmts
}

/// The text of `create_city_table(city)`.
pub open spec fn create_city_table_text(city: Seq<char>) -> Seq<char> {
    "CREATE TABLE IF NOT EXISTS "@ + quoted_identifier(city)
        + " (\n\t\t\t\tid INTEGER PRIMARY KEY,\n\t\t\t\tlat REAL NOT NULL,\n\t\t\t\tlon REAL NOT NULL\n\t\t\t);"@
}

/// The text of `insert_city_point(city)`.
pub open spec fn insert_city_text(city: Seq<char>) -> Seq<char> {
    "INSERT OR REPLACE INTO "@ + quoted_identifier(city) + " (id, lat, lon) VALUES (?1, ?2, ?3)"@
}

/// The text of `select_city_point(city)`.
pub open spec fn select_city_text(city: Seq<char>) -> Seq<char> {
    "SELECT * FROM "@ + quoted_identifier(city) + " WHERE id = ?1"@
}

/// Whatever the city's name `c`, the table that `create_city_table` creates is the table
/// that `insert_city_point` writes to and `select_city_point` reads from: in each of the
/// three statements a quoted identifier opens right after the statement's fixed words, and
/// SQLite reads it as exactly `c`.
pub proof fn lemma_city_statements_name_one_table(c: Seq<char>)
    ensures
        create_city_table_text(c).subrange(0, 27) == "CREATE TABLE IF NOT EXISTS "@,
        create_city_table_text(c)[27] == '"',
        read_quoted(create_city_table_text(c), 28) == Some((c, 27 + quoted_identifier(c).len() as int)),
        insert_city_text(c).subrange(0, 23) == "INSERT OR REPLACE INTO "@,
        insert_city_text(c)[23] == '"',
        read_quoted(insert_city_text(c), 24) == Some((c, 23 + quoted_identifier(c).len() as int)),
        select_city_text(c).subrange(0, 14) == "SELECT * FROM "@,
        select_city_text(c)[14] == '"',
        read_quoted(select_city_text(c), 15) == Some((c, 14 + quoted_identifier(c).len() as int)),
{
    let create_words = "CREATE TABLE IF NOT EXISTS "@;
    let create_rest =
        " (\n\t\t\t\tid INTEGER PRIMARY KEY,\n\t\t\t\tlat REAL NOT NULL,\n\t\t\t\tlon REAL NOT NULL\n\t\t\t);"@;
    let insert_words = "INSERT OR REPLACE INTO "@;
    let insert_rest = " (id, lat, lon) VALUES (?1, ?2, ?3)"@;
    let select_words = "SELECT * FROM "@;
    let select_rest = " WHERE id = ?1"@;
    reveal_strlit("CREATE TABLE IF NOT EXISTS ");
    reveal_strlit(
        " (\n\t\t\t\tid INTEGER PRIMARY KEY,\n\t\t\t\tlat REAL NOT NULL,\n\t\t\t\tlon REAL NOT NULL\n\t\t\t);",
    );
    reveal_strlit("INSERT OR REPLACE INTO ");
    reveal_strlit(" (id, lat, lon) VALUES (?1, ?2, ?3)");
    reveal_strlit("SELECT * FROM ");
    reveal_strlit(" WHERE id = ?1");
    lemma_quoted_identifier_reads_back(c, create_words, create_rest);
    lemma_quoted_identifier_reads_back(c, insert_words, insert_rest);
    lemma_quoted_identifier_reads_back(c, select_words, select_rest);
    assert(create_city_table_text(c).subrange(0, 27) =~= create_words);
    assert(insert_city_text(c).subrange(0, 23) =~= insert_words);
    assert(select_city_text(c).subrange(0, 14) =~= select_words);
}

/// The statements that read back what a request stored, only for the points of this
/// answer: first the points with a latitude, from the table of points, then the boundary
/// points with a latitude, from the city's table. Each list reads every such id once, in
/// increasing order, so the rows come back as a read of the whole table would list them;
/// points stored for earlier requests are not read.
pub fn read_statements(city: &str, points: &MapData, boundary: &MapData) -> (stmts: (Vec<Statement>, Vec<Statement>))
    ensures
        exists|ids: Seq<i64>|
            {
                &&& is_id_order(ids, with_latitude(points.coordinates@))
                &&& stmts.0@.map_values(|s: Statement| s@) == ids.map_values(
                    |id: i64| read_id(SELECT_COORDINATE_BY_ID@, id),
                )
            },
        exists|ids: Seq<i64>|
            {
                &&& is_id_order(ids, with_latitude(boundary.coordinates@))
                &&& stmts.1@.map_values(|s: Statement| s@) == ids.map_values(
                    |id: i64| read_id(select_city_text(city@), id),
                )
            },
{
    let point_ids = stored_ids(points);
    let point_reads = reads_of(&String::from_str(SELECT_COORDINATE_BY_ID), &point_ids);
    let boundary_ids = stored_ids(boundary);
    let boundary_reads = reads_of(&select_city_point(city), &boundary_ids);
    (point_reads, boundary_reads)
}

/// Two lists of ids that are both in increasing order without repeats, and hold the same
/// ids, are the same list: the order that `read_statements` reads in is fixed by the ids.
pub proof fn lemma_id_order_unique(a: Seq<i64>, b: Seq<i64>)
    requires
        strictly_increasing(a),
        strictly_increasing(b),
        forall|id: i64| #![trigger a.contains(id)] #![trigger b.contains(id)] a.contains(id) <==> b.contains(id),
    ensures
        a == b,
    decreases a.len(),
{
    if a.len() == 0 {
        if b.len() > 0 {
            assert(b.contains(b[0]));
            assert(a.contains(b[0]));
        }
        assert(a =~= b);
    } else if b.len() == 0 {
        assert(a.contains(a[0]));
    } else {
        let la = a.last();
        let lb = b.last();
        assert(a.contains(la));
        assert(b.contains(la));
        assert(b.contains(lb));
        assert(a.contains(lb));
        let ka = choose|k: int| 0 <= k < a.len() && a[k] == lb;
        let kb = choose|k: int| 0 <= k < b.len() && b[k] == la;
        assert(la == lb) by {
            if la < lb {
                assert(a[ka] <= la);
            } else if lb < la {
                assert(b[kb] <= lb);
            }
        }
        assert forall|id: i64| #[trigger] a.drop_last().contains(id) <==> b.drop_last().contains(id) by {
            if a.drop_last().contains(id) {
                let k = choose|k: int| 0 <= k < a.len() - 1 && a[k] == id;
                assert(a.contains(id));
                assert(b.contains(id));
                let j = choose|j: int| 0 <= j < b.len() && b[j] == id;
                if j == b.len() - 1 {
                    assert(a[k] < a[a.len() - 1]);
                }
                assert(b.drop_last()[j] == id);
            }
            if b.drop_last().contains(id) {
                let k = choose|k: int| 0 <= k < b.len() - 1 && b[k] == id;
                assert(b.contains(id));
                assert(a.contains(id));
                let j = choose|j: int| 0 <= j < a.len() && a[j] == id;
                if j == a.len() - 1 {
                    assert(b[k] < b[b.len() - 1]);
                }
                assert(a.drop_last()[j] == id);
            }
        }
        lemma_id_order_unique(a.drop_last(), b.drop_last());
        assert(a =~= a.drop_last().push(la));
        assert(b =~= b.drop_last().push(lb));
    }
}

} // verus!
