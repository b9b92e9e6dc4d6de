//! The placeholder policy of the target SQL engine.
//!
//! A compiled statement refers to its bind arguments through positional
//! placeholders. Which textual form those placeholders take depends on the
//! engine the connection speaks: SQLite and MySQL accept `?N`, Postgres
//! expects `$N`. The dialect is resolved once per connection context, from
//! the scheme prefix of the connection URL, and then passed explicitly to
//! every compilation call.

use vstd::prelude::*;

verus! {

/// The database kind of the active connection, fixed for the lifetime of a
/// compilation call. It only decides the placeholder prefix: `?` for the
/// SQLite and MySQL families, `$` for Postgres.
#[derive(Clone, Copy, Debug, PartialEq, Eq, Structural)]
pub enum Dialect {
    Sqlite,
    Mysql,
    Postgres,
}

/// The placeholder prefix a dialect renders in front of each 1-based
/// argument index.
pub open spec fn spec_placeholder_prefix(d: Dialect) -> Seq<char> {
    match d {
        Dialect::Postgres => "$"@,
        _ => "?"@,
    }
}

impl Dialect {
    /// The placeholder prefix rendered into compiled statements.
    pub fn placeholder_prefix(&self) -> (r: &'static str)
        ensures
            r@ == spec_placeholder_prefix(*self),
    {
        match self {
            Dialect::Postgres => "$",
            _ => "?",
        }
    }
}

/// True when `prefix` appears at the very start of `s`.
pub open spec fn is_prefix_of(prefix: Seq<char>, s: Seq<char>) -> bool {
    prefix.len() <= s.len() && s.take(prefix.len() as int) == prefix
}

/// Whether `s` starts with `prefix`, compared character by character.
pub fn str_starts_with(s: &str, prefix: &str) -> (r: bool)
    ensures
        r == is_prefix_of(prefix@, s@),
{
    let n = prefix.unicode_len();
    let sn = s.unicode_len();
    if n > sn {
        return false;
    }
    let mut i: usize = 0;
    while i < n
        invariant
            i <= n,
            n == prefix@.len(),
            sn == s@.len(),
            n <= sn,
            forall|j: int| 0 <= j < i ==> s@[j] == prefix@[j],
        decreases n - i,
    {
        if s.get_char(i) != prefix.get_char(i) {
            assert(s@.take(n as int)[i as int] == s@[i as int]);
            return false;
        }
        i += 1;
    }
    assert(s@.take(n as int) =~= prefix@);
    true
}

/// The dialect selected by a connection string: by its URL scheme prefix,
/// `sqlite`, `mysql` or `postgres` (which also covers `postgresql`). Any
/// other scheme is unsupported and yields `None`.
pub open spec fn spec_dialect_from_url(url: Seq<char>) -> Option<Dialect> {
    if is_prefix_of("sqlite"@, url) {
        Some(Dialect::Sqlite)
    } else if is_prefix_of("mysql"@, url) {
        Some(Dialect::Mysql)
    } else if is_prefix_of("postgres"@, url) {
        Some(Dialect::Postgres)
    } else {
        None
    }
}

impl Dialect {
    /// Resolves the dialect from a connection URL's scheme prefix.
    pub fn from_database_url(url: &str) -> (r: Option<Dialect>)
        ensures
            r == spec_dialect_from_url(url@),
    {
        if str_starts_with(url, "sqlite") {
            Some(Dialect::Sqlite)
        } else if str_starts_with(url, "mysql") {
            Some(Dialect::Mysql)
        } else if str_starts_with(url, "postgres") {
            Some(Dialect::Postgres)
        } else {
            None
        }
    }
}

/// The placeholder prefix for a connection URL, when its scheme names a
/// supported engine: `?` for `sqlite` and `mysql` URLs, `$` for `postgres`
/// URLs, and `None` otherwise.
pub fn get_placeholder(database_url: &str) -> (r: Option<&'static str>)
    ensures
        match spec_dialect_from_url(database_url@) {
            Some(d) => r matches Some(p) && p@ == spec_placeholder_prefix(d),
            None => r is None,
        },
{
    match Dialect::from_database_url(database_url) {
        Some(d) => Some(d.placeholder_prefix()),
        None => None,
    }
}

} // verus!
