use vstd::prelude::*;

use crate::errors::Error;

verus! {

/// Address of the Overpass API interpreter.
pub const OVERPASS_URL: &'static str = "https://overpass-api.de/api/interpreter";

/// The Overpass query for the nodes of North Macedonia whose `amenity` tag is `query_item`.
pub open spec fn coordinates_query_text(query_item: Seq<char>) -> Seq<char> {
    "\n\t\t\t[out:json];\n\t\t\tarea[\"ISO3166-1\"=\"MK\"]->.a;\n\t\t\t(\n\t\t\t\tnode(area.a)[\"amenity\"=\""@
        + query_item + "\"];\n\t\t\t);\n\t\t\tout center;\n\t\t\t"@
}

/// The Overpass query for the administrative boundary of the city whose English name is
/// `city`, with the nodes it is made of.
pub open spec fn city_boundaries_query_text(city: Seq<char>) -> Seq<char> {
    "\n\t\t\t[out:json];\n\t\t\tarea[\"name:en\"=\""@ + city
        + "\"];\n\t\t\t(\n\t\t\t\trelation[\"boundary\"=\"administrative\"][\"name:en\"=\""@ + city
        + "\"];\n\t\t\t);\n\t\t\t(._;>;);\n\t\t\tout body;\n\t\t\t"@
}

/// Whatever the amenity `q`, the query holds `q` in full, between `["amenity"="` and `"];`,
/// and is the query for the empty amenity with `q` put in at that place: nothing of `q` is
/// cut, changed or moved.
pub proof fn lemma_coordinates_query_holds_item(q: Seq<char>)
    ensures
        coordinates_query_text(q).len() == 80 + q.len() as int + 28,
        coordinates_query_text(q).subrange(80, 80 + q.len() as int) == q,
        coordinates_query_text(q).subrange(68, 80) == "[\"amenity\"=\""@,
        coordinates_query_text(q).subrange(80 + q.len() as int, 80 + q.len() as int + 3) == "\"];"@,
        coordinates_query_text(q).take(80) == coordinates_query_text(Seq::empty()).take(80),
        coordinates_query_text(q).skip(80 + q.len() as int) == coordinates_query_text(Seq::empty()).skip(80),
{
    reveal_strlit(
        "\n\t\t\t[out:json];\n\t\t\tarea[\"ISO3166-1\"=\"MK\"]->.a;\n\t\t\t(\n\t\t\t\tnode(area.a)[\"amenity\"=\"",
    );
    reveal_strlit("\"];\n\t\t\t);\n\t\t\tout center;\n\t\t\t");
    reveal_strlit("[\"amenity\"=\"");
    reveal_strlit("\"];");
    let t = coordinates_query_text(q);
    let e = coordinates_query_text(Seq::empty());
    assert(t.subrange(80, 80 + q.len() as int) =~= q);
    assert(t.subrange(68, 80) =~= "[\"amenity\"=\""@);
    assert(t.subrange(80 + q.len() as int, 80 + q.len() as int + 3) =~= "\"];"@);
    assert(t.take(80) =~= e.take(80));
    assert(t.skip(80 + q.len() as int) =~= e.skip(80));
}

/// Whatever the city's name `c`, both `name:en` filters of the boundary query hold `c` in
/// full: the first after `area["name:en"="`, the second after `["name:en"="`, each followed
/// by `"];`, and the query is the one for the empty name with `c` put in at both places.
pub proof fn lemma_city_boundaries_query_holds_city(c: Seq<char>)
    ensures
        city_boundaries_query_text(c).len() == 35 + c.len() as int + 62 + c.len() as int + 38,
        city_boundaries_query_text(c).subrange(35, 35 + c.len() as int) == c,
        city_boundaries_query_text(c).subrange(97 + c.len() as int, 97 + 2 * (c.len() as int)) == c,
        city_boundaries_query_text(c).subrange(19, 35) == "area[\"name:en\"=\""@,
        city_boundaries_query_text(c).subrange(85 + c.len() as int, 97 + c.len() as int) == "[\"name:en\"=\""@,
        city_boundaries_query_text(c).subrange(35 + c.len() as int, 38 + c.len() as int) == "\"];"@,
        city_boundaries_query_text(c).subrange(97 + 2 * (c.len() as int), 100 + 2 * (c.len() as int)) == "\"];"@,
        city_boundaries_query_text(c).take(35) == city_boundaries_query_text(Seq::empty()).take(35),
        city_boundaries_query_text(c).subrange(35 + c.len() as int, 97 + c.len() as int)
            == city_boundaries_query_text(Seq::empty()).subrange(35, 97),
        city_boundaries_query_text(c).skip(97 + 2 * (c.len() as int))
            == city_boundaries_query_text(Seq::empty()).skip(97),
{
    reveal_strlit("\n\t\t\t[out:json];\n\t\t\tarea[\"name:en\"=\"");
    reveal_strlit("\"];\n\t\t\t(\n\t\t\t\trelation[\"boundary\"=\"administrative\"][\"name:en\"=\"");
    reveal_strlit("\"];\n\t\t\t);\n\t\t\t(._;>;);\n\t\t\tout body;\n\t\t\t");
    reveal_strlit("area[\"name:en\"=\"");
    reveal_strlit("[\"name:en\"=\"");
    reveal_strlit("\"];");
    let t = city_boundaries_query_text(c);
    let e = city_boundaries_query_text(Seq::empty());
    let n = c.len() as int;
    assert(t.subrange(35, 35 + n) =~= c);
    assert(t.subrange(97 + n, 97 + 2 * n) =~= c);
    assert(t.subrange(19, 35) =~= "area[\"name:en\"=\""@);
    assert(t.subrange(85 + n, 97 + n) =~= "[\"name:en\"=\""@);
    assert(t.subrange(35 + n, 38 + n) =~= "\"];"@);
    assert(t.subrange(97 + 2 * n, 100 + 2 * n) =~= "\"];"@);
    assert(t.take(35) =~= e.take(35));
    assert(t.subrange(35 + n, 97 + n) =~= e.subrange(35, 97));
    assert(t.skip(97 + 2 * n) =~= e.skip(97));
}

/// The `data` parameter of the request that finds the points tagged `query_item`.
pub fn coordinates_query(query_item: &str) -> (query: String)
    ensures
        query@ == coordinates_query_text(query_item@),
{
    let mut query = String::from_str(
        "\n\t\t\t[out:json];\n\t\t\tarea[\"ISO3166-1\"=\"MK\"]->.a;\n\t\t\t(\n\t\t\t\tnode(area.a)[\"amenity\"=\"",
    );
    query.append(query_item);
    query.append("\"];\n\t\t\t);\n\t\t\tout center;\n\t\t\t");
    query
}

/// The `data` parameter of the request that finds the boundary of `city`.
pub fn city_boundaries_query(city: &str) -> (query: String)
    ensures
        query@ == city_boundaries_query_text(city@),
{
    let mut query = String::from_str("\n\t\t\t[out:json];\n\t\t\tarea[\"name:en\"=\"");
    query.append(city);
    query.append("\"];\n\t\t\t(\n\t\t\t\trelation[\"boundary\"=\"administrative\"][\"name:en\"=\"");
    query.append(city);
    query.append("\"];\n\t\t\t);\n\t\t\t(._;>;);\n\t\t\tout body;\n\t\t\t");
    query
}

/// Accepts the answer of the map service when its HTTP status is a success (200 to 299),
/// as `StatusCode::is_success` decides; any other status is `Error::Response`.
pub fn check_status(status: u16) -> (r: Result<(), Error>)
    ensures
        r == (if 200 <= status <= 299 {
            Ok::<(), Error>(())
        } else {
            Err(Error::Response)
        }),
{
    if 200 <= status && status <= 299 {
        Ok(())
    } else {
        Err(Error::Response)
    }
}

} // verus!
