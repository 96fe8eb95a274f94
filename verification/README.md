# geomk

A map service that finds OpenStreetMap amenities (drinking-water taps in Skopje by
default) inside a city, through the Overpass API, keeps them in SQLite and lets users save
points. The library in `src/` is verified with Verus; `app/` is the axum server around it.

- `src/auth.rs`: the authentication token, `user-<id>.<exp>.<sign>`, signed with
  HMAC-SHA256 under a server key: how a login writes it, and how later requests read it
  back and refuse a token whose signature is not the server's.
- `src/text.rs`: decimal text of integers, both ways.
- `src/filter.rs`, `src/pipe.rs`: the pipe-and-filter chain that the request handler runs
  the points through.
- `src/model.rs`: points and sets of points; which points get stored.
- `src/osm_api.rs`: the Overpass queries and the check of the service's answer.
- `src/database.rs`: the SQL statements; the city's name enters them only as a quoted
  identifier, points are replaced when sent again, and a map request reads back only the
  points of its own answer, each once, in id order. The map request itself is this fixed
  list of statements, built in `src/database.rs`.
- `src/handlers.rs`: sign-up, login, saving, listing and deleting saved points, each as a
  flow of steps: the flow says which statement runs next and how the request ends, given
  what the database answered.
- `app/`: the server key (from `GEOMK_SECRET`, or drawn at start-up), HTTP routes, static pages, the calls to Overpass and SQLite, and the test whether
  a point lies inside the city's boundary, which is floating-point arithmetic.
