use geomk::args::Args;

#[test]
fn default_search_is_drinking_water_in_skopje() {
    let args = Args::default();
    assert_eq!(args.db_name, "database");
    assert_eq!(args.query, "drinking_water");
    assert_eq!(args.city, "Skopje");
}
