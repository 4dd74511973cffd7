//! Configuration values: the paths of the three external tools, the
//! connection parameters, and the bundle handed to the engine's constructor.

use vstd::prelude::*;
use vstd::string::*;

verus! {

/// Path of the query tool's executable.
#[derive(Clone, Debug)]
pub struct Psql(pub String);

impl View for Psql {
    type V = Seq<char>;

    open spec fn view(&self) -> Seq<char> {
        self.0@
    }
}

impl Default for Psql {
    fn default() -> (r: Self)
        ensures
            r@ == "psql"@,
    {
        Psql(String::from_str("psql"))
    }
}

/// Path of the dump tool's executable.
#[derive(Clone, Debug)]
pub struct PgDump(pub String);

impl View for PgDump {
    type V = Seq<char>;

    open spec fn view(&self) -> Seq<char> {
        self.0@
    }
}

impl Default for PgDump {
    fn default() -> (r: Self)
        ensures
            r@ == "pg_dump"@,
    {
        PgDump(String::from_str("pg_dump"))
    }
}

/// Path of the restore tool's executable.
#[derive(Clone, Debug)]
pub struct PgRestore(pub String);

impl View for PgRestore {
    type V = Seq<char>;

    open spec fn view(&self) -> Seq<char> {
        self.0@
    }
}

impl Default for PgRestore {
    fn default() -> (r: Self)
        ensures
            r@ == "pg_restore"@,
    {
        PgRestore(String::from_str("pg_restore"))
    }
}

/// The first value stored under `key`, if any.
pub open spec fn lookup(params: Seq<(String, String)>, key: Seq<char>) -> Option<Seq<char>>
    decreases params.len(),
{
    if params.len() == 0 {
        None
    } else if params[0].0@ == key {
        Some(params[0].1@)
    } else {
        lookup(params.skip(1), key)
    }
}

/// Database connection parameters, as ordered key-value pairs. The `user`
/// entry doubles as the name of the api schema.
#[derive(Clone, Debug)]
pub struct ConnectionParameters(pub Vec<(String, String)>);

impl ConnectionParameters {
    pub fn new(params: Vec<(String, String)>) -> (r: Self)
        ensures
            r.0 == params,
    {
        ConnectionParameters(params)
    }

    pub fn params(&self) -> (r: &Vec<(String, String)>)
        ensures
            r == &self.0,
    {
        &self.0
    }

    pub fn params_mut(&mut self) -> (r: &mut Vec<(String, String)>)
        ensures
            *r == old(self).0,
            final(self).0 == *final(r),
    {
        &mut self.0
    }

    /// The first value stored under `key`, if any.
    pub fn get(&self, key: &str) -> (r: Option<&String>)
        ensures
            r is Some <==> lookup(self.0@, key@) is Some,
            r is Some ==> r.unwrap()@ == lookup(self.0@, key@).unwrap(),
    {
        let n = self.0.len();
        let mut i: usize = 0;
        assert(self.0@.skip(0) =~= self.0@);
        while i < n
            invariant
                i <= n,
                n == self.0@.len(),
                lookup(self.0@, key@) == lookup(self.0@.skip(i as int), key@),
            decreases n - i,
        {
            let pair = &self.0[i];
            if str_eq(pair.0.as_str(), key) {
                assert(self.0@.skip(i as int)[0] == self.0@[i as int]);
                return Some(&self.0[i].1);
            }
            assert(self.0@.skip(i as int)[0] == self.0@[i as int]);
            assert(self.0@.skip(i as int).skip(1) =~= self.0@.skip(i + 1));
            i = i + 1;
        }
        assert(self.0@.skip(i as int).len() == 0);
        None
    }

    /// Relies on `url::Url::parse_with_params`: builds the connection URL by
    /// percent-encoding each parameter pair into the query of the base URL.
    /// The base is a constant valid URL, so parsing cannot fail.
    #[verifier::external_body]
    pub fn as_url(&self) -> url::Url {
        url::Url::parse_with_params("postgresql://", &self.0).unwrap()
    }
}

impl Default for ConnectionParameters {
    fn default() -> (r: Self)
        ensures
            r.0@ == Seq::<(String, String)>::empty(),
    {
        ConnectionParameters(Vec::new())
    }
}

#[verifier::external_type_specification]
#[verifier::external_body]
pub struct ExUrl(url::Url);

/// What the connection URL of a parameter list reads: the base URL with each
/// pair percent-encoded into its query, in order. The result depends on the
/// parameters alone.
pub uninterp spec fn connection_url_of(params: Seq<(String, String)>) -> Seq<char>;

/// Relies on `url::Url::parse_with_params`, as `as_url` does, rendered to
/// text; the result depends on the parameters alone.
#[verifier::external_body]
pub(crate) fn connection_url(params: &Vec<(String, String)>) -> (r: String)
    ensures
        r@ == connection_url_of(params@),
{
    let url = url::Url::parse_with_params("postgresql://", params).unwrap();
    url.as_str().to_string()
}

/// Whether two texts hold the same characters.
pub(crate) fn str_eq(a: &str, b: &str) -> (r: bool)
    ensures
        r == (a@ == b@),
{
    let n = a.unicode_len();
    if n != b.unicode_len() {
        return false;
    }
    let mut i: usize = 0;
    while i < n
        invariant
            i <= n,
            n == a@.len(),
            a@.len() == b@.len(),
            forall|k: int| 0 <= k < i ==> a@[k] == b@[k],
        decreases n - i,
    {
        if a.get_char(i) != b.get_char(i) {
            return false;
        }
        i = i + 1;
    }
    assert(a@ =~= b@);
    true
}

/// Everything the engine is constructed from: connection parameters, tool
/// paths, and the directory holding the SQL scripts.
#[derive(Clone, Copy, Debug)]
pub struct Options<'a> {
    pub connection: &'a ConnectionParameters,
    pub psql: &'a Psql,
    pub pg_dump: &'a PgDump,
    pub pg_restore: &'a PgRestore,
    pub sql_directory: &'a str,
}

} // verus!
