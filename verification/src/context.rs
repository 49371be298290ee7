//! Naming helpers around a connection: per-application collection name
//! prefixes and the endpoint paths a transport collaborator posts to.

use vstd::prelude::*;
use vstd::string::*;

verus! {

/// Connection-wide naming context: `app_prefix` keeps collections of the
/// same name apart for different applications sharing one database.
pub struct Context {
    pub app_prefix: String,
}

impl Context {
    /// The final collection name: the local name, prefixed (with an
    /// underscore between) when a prefix is set.
    pub fn collection_name(&self, local_name: &str) -> (r: String)
        ensures
            self.app_prefix@.len() == 0 ==> r@ == local_name@,
            self.app_prefix@.len() > 0 ==> r@ == self.app_prefix@ + "_"@ + local_name@,
    {
        if self.app_prefix.as_str().unicode_len() == 0 {
            String::from_str(local_name)
        } else {
            let mut r = self.app_prefix.clone();
            r.append("_");
            r.append(local_name);
            r
        }
    }
}

/// The cursor endpoint under the given host and database.
pub fn cursor_url(host: &str, database: &str) -> (r: String)
    ensures
        r@ == host@ + "/_db/"@ + database@ + "/_api/cursor"@,
{
    let mut r = String::from_str(host);
    r.append("/_db/");
    r.append(database);
    r.append("/_api/cursor");
    r
}

/// The collection-management endpoint under the given host and database.
pub fn collection_url(host: &str, database: &str) -> (r: String)
    ensures
        r@ == host@ + "/_db/"@ + database@ + "/_api/collection"@,
{
    let mut r = String::from_str(host);
    r.append("/_db/");
    r.append(database);
    r.append("/_api/collection");
    r
}

} // verus!
