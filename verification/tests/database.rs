use geomk::database::{
    create_city_table, database_url, insert_city_point, quote_identifier, read_statements,
    select_city_point, store_statements, Param, CREATE_COORDINATES_TABLE, CREATE_USERS_TABLE,
    CREATE_USER_COORDINATES_TABLE, DB_NAME, INSERT_COORDINATE, SELECT_COORDINATE_BY_ID,
};
use geomk::model::{Coordinates, MapData};

fn point(id: i64, lat: f64, lon: f64) -> Coordinates {
    Coordinates { id, lat: lat.to_bits(), lon: lon.to_bits() }
}

fn ints(params: &[Param]) -> Vec<(i64, u64, u64)> {
    match params {
        [Param::Int(id), Param::Real(lat), Param::Real(lon)] => vec![(*id, *lat, *lon)],
        _ => panic!("unexpected parameters {:?}", params),
    }
}

#[test]
fn database_url_names_the_file() {
    assert_eq!(database_url(DB_NAME), "sqlite://database.db");
    assert_eq!(database_url("maps"), format!("sqlite://{}.db", "maps"));
}

#[test]
fn table_texts() {
    assert_eq!(
        CREATE_COORDINATES_TABLE,
        "CREATE TABLE IF NOT EXISTS coordinates (\n\t\tid INTEGER PRIMARY KEY,\n\t\tlat REAL NOT NULL,\n\t\tlon REAL NOT NULL\n\t);"
    );
    assert!(CREATE_USERS_TABLE.contains("AUTOINCREMENT"));
    assert!(CREATE_USER_COORDINATES_TABLE.contains("coordinateId INTEGER"));
}

#[test]
fn city_statements() {
    assert_eq!(
        create_city_table("Skopje"),
        format!(
            "CREATE TABLE IF NOT EXISTS {} (
				id INTEGER PRIMARY KEY,
				lat REAL NOT NULL,
				lon REAL NOT NULL
			);",
            "\"Skopje\""
        )
    );
    assert_eq!(
        insert_city_point("Skopje"),
        "INSERT OR REPLACE INTO \"Skopje\" (id, lat, lon) VALUES (?1, ?2, ?3)"
    );
    assert_eq!(select_city_point("Skopje"), "SELECT * FROM \"Skopje\" WHERE id = ?1");
}

#[test]
fn points_are_replaced_not_ignored() {
    assert_eq!(
        INSERT_COORDINATE,
        "INSERT OR REPLACE INTO coordinates (id, lat, lon) VALUES (?1, ?2, ?3)"
    );
}

#[test]
fn city_names_are_quoted() {
    assert_eq!(quote_identifier("Skopje"), "\"Skopje\"");
    assert_eq!(quote_identifier(""), "\"\"");
    assert_eq!(quote_identifier("a\"b"), "\"a\"\"b\"");
    assert_eq!(quote_identifier("Штип"), "\"Штип\"");
    let attack = "x (id INTEGER); DROP TABLE users; --";
    assert_eq!(
        select_city_point(attack),
        format!("SELECT * FROM \"{}\" WHERE id = ?1", attack)
    );
    let attack = "x\"; DROP TABLE users; --";
    assert_eq!(
        select_city_point(attack),
        "SELECT * FROM \"x\"\"; DROP TABLE users; --\" WHERE id = ?1"
    );
}

#[test]
fn store_statements_in_order() {
    let points = MapData::from(vec![point(1, 41.99, 21.43), point(2, 0.0, 5.0), point(3, 42.0, 21.5)]);
    let boundary = MapData::from(vec![point(10, 0.0, 0.0), point(11, 41.9, 21.3)]);
    let stmts = store_statements("Skopje", &points, &boundary);
    assert_eq!(stmts.len(), 5);
    assert_eq!(stmts[0].sql, CREATE_COORDINATES_TABLE);
    assert!(stmts[0].params.is_empty());
    assert_eq!(stmts[1].sql, create_city_table("Skopje"));
    assert!(stmts[1].params.is_empty());
    assert_eq!(stmts[2].sql, INSERT_COORDINATE);
    assert_eq!(ints(&stmts[2].params), vec![(1, 41.99f64.to_bits(), 21.43f64.to_bits())]);
    assert_eq!(ints(&stmts[3].params), vec![(3, 42.0f64.to_bits(), 21.5f64.to_bits())]);
    assert_eq!(stmts[4].sql, insert_city_point("Skopje"));
    assert_eq!(ints(&stmts[4].params), vec![(11, 41.9f64.to_bits(), 21.3f64.to_bits())]);
}

#[test]
fn read_statements_read_this_answer_only() {
    let points = MapData::from(vec![point(1, 41.99, 21.43), point(2, 0.0, 5.0), point(3, 42.0, 21.5)]);
    let boundary = MapData::from(vec![point(10, 0.0, 0.0), point(11, 41.9, 21.3)]);
    let (point_reads, boundary_reads) = read_statements("Skopje", &points, &boundary);
    let ids = |stmts: &Vec<geomk::database::Statement>| -> Vec<i64> {
        stmts
            .iter()
            .map(|s| match s.params.as_slice() {
                [Param::Int(id)] => *id,
                other => panic!("{:?}", other),
            })
            .collect()
    };
    assert!(point_reads.iter().all(|s| s.sql == SELECT_COORDINATE_BY_ID));
    assert_eq!(ids(&point_reads), vec![1, 3]);
    assert!(boundary_reads.iter().all(|s| s.sql == select_city_point("Skopje")));
    assert_eq!(ids(&boundary_reads), vec![11]);
}

#[test]
fn read_statements_read_each_id_once_in_id_order() {
    let points = MapData::from(vec![
        point(30, 41.0, 21.0),
        point(7, 41.5, 21.5),
        point(30, 41.2, 21.2),
        point(-4, 40.0, 20.0),
        point(7, 41.5, 21.5),
    ]);
    let boundary = MapData::from(vec![point(12, 41.9, 21.3), point(5, 41.8, 21.4), point(12, 41.9, 21.3)]);
    let (point_reads, boundary_reads) = read_statements("Skopje", &points, &boundary);
    let ids = |stmts: &Vec<geomk::database::Statement>| -> Vec<i64> {
        stmts
            .iter()
            .map(|s| match s.params.as_slice() {
                [Param::Int(id)] => *id,
                other => panic!("{:?}", other),
            })
            .collect()
    };
    assert_eq!(ids(&point_reads), vec![-4, 7, 30]);
    assert_eq!(ids(&boundary_reads), vec![5, 12]);
}
