use geomk::errors::Error;
use geomk::osm_api::{check_status, city_boundaries_query, coordinates_query, OVERPASS_URL};

#[test]
fn coordinates_query_text() {
    let query_item = "drinking_water";
    let expected = format!(
        r#"
			[out:json];
			area["ISO3166-1"="MK"]->.a;
			(
				node(area.a)["amenity"="{query_item}"];
			);
			out center;
			"#
    );
    assert_eq!(coordinates_query(query_item), expected);
}

#[test]
fn city_boundaries_query_text() {
    let city = "Skopje";
    let expected = format!(
        r#"
			[out:json];
			area["name:en"="{city}"];
			(
				relation["boundary"="administrative"]["name:en"="{city}"];
			);
			(._;>;);
			out body;
			"#
    );
    assert_eq!(city_boundaries_query(city), expected);
}

#[test]
fn overpass_address() {
    assert_eq!(OVERPASS_URL, "https://overpass-api.de/api/interpreter");
}

#[test]
fn only_success_statuses_pass() {
    assert_eq!(check_status(200), Ok(()));
    assert_eq!(check_status(204), Ok(()));
    assert_eq!(check_status(299), Ok(()));
    assert_eq!(check_status(199), Err(Error::Response));
    assert_eq!(check_status(300), Err(Error::Response));
    assert_eq!(check_status(404), Err(Error::Response));
    assert_eq!(check_status(504), Err(Error::Response));
}
