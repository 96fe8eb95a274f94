use vstd::prelude::*;

verus! {

/// The command-line options: the database name, the amenity to look for and the city.
#[derive(Debug, Clone)]
pub struct Args {
    pub db_name: String,
    pub query: String,
    pub city: String,
}

impl Default for Args {
    /// Drinking-water taps in Skopje, kept in the database "database".
    fn default() -> (args: Self)
        ensures
            args.db_name@ == "database"@,
            args.query@ == "drinking_water"@,
            args.city@ == "Skopje"@,
    {
        Args {
            db_name: String::from_str("database"),
            query: String::from_str("drinking_water"),
            city: String::from_str("Skopje"),
        }
    }
}

} // verus!
