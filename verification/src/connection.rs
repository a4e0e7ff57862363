use vstd::prelude::*;
use vstd::string::StringExecFns;
use crate::text::str_eq;

verus! {

/// `text` if it is not empty, else `fallback`.
pub open spec fn or_else(text: Seq<char>, fallback: Seq<char>) -> Seq<char> {
    if text.len() > 0 { text } else { fallback }
}

/// The PostgreSQL connection string for the connection form's host, user,
/// password and database fields (empty when left blank): only local hosts are
/// accepted, and the port is always the default one.
pub open spec fn conn_str_of(host: Seq<char>, user: Seq<char>, password: Seq<char>, dbname: Seq<char>)
    -> Result<Seq<char>, Seq<char>> {
    let with_user = "postgresql://"@ + user;
    let with_password = if password.len() > 0 { with_user + ":"@ + password } else { with_user };
    if host.len() > 0 && host != "localhost"@ && host != "127.0.0.1"@ {
        Err("Remote connections not allowed yet."@)
    } else {
        let with_host = with_password + "@"@ + or_else(host, "localhost"@);
        let with_port = with_host + ":5432"@;
        Ok(if dbname.len() > 0 { with_port + "/"@ + dbname } else { with_port })
    }
}

/// Builds the connection string from the form's fields, in the order host, user,
/// password, database name.
pub fn generate_conn_str(entries: &[String; 4]) -> (r: Result<String, String>)
    ensures
        match r {
            Ok(s) => conn_str_of(entries[0]@, entries[1]@, entries[2]@, entries[3]@) == Ok::<Seq<char>, Seq<char>>(s@),
            Err(e) => conn_str_of(entries[0]@, entries[1]@, entries[2]@, entries[3]@) == Err::<Seq<char>, Seq<char>>(e@),
        },
{
    let host = entries[0].as_str();
    let user = entries[1].as_str();
    let password = entries[2].as_str();
    let dbname = entries[3].as_str();
    let mut conn_str = "postgresql://".to_owned();
    if !user.is_empty() {
        conn_str.append(user);
    } else {
        assert(user@ =~= Seq::<char>::empty());
        assert(conn_str@ + user@ =~= conn_str@);
    }
    let ghost with_user = "postgresql://"@ + user@;
    assert(conn_str@ =~= with_user);
    if !password.is_empty() {
        conn_str.append(":");
        conn_str.append(password);
    }
    let ghost with_password = if password@.len() > 0 { with_user + ":"@ + password@ } else { with_user };
    assert(conn_str@ =~= with_password);
    if !host.is_empty() {
        if str_eq(host, "localhost") || str_eq(host, "127.0.0.1") {
            conn_str.append("@");
            conn_str.append(host);
        } else {
            return Err("Remote connections not allowed yet.".to_owned());
        }
    } else {
        conn_str.append("@localhost");
        proof {
            reveal_strlit("@localhost");
            reveal_strlit("@");
            reveal_strlit("localhost");
            assert("@localhost"@ =~= "@"@ + "localhost"@);
        }
    }
    let ghost with_host = with_password + "@"@ + or_else(host@, "localhost"@);
    assert(conn_str@ =~= with_host);
    conn_str.append(":5432");
    if !dbname.is_empty() {
        conn_str.append("/");
        conn_str.append(dbname);
    }
    Ok(conn_str)
}

/// Whether the host, user and password fields of the connection form are all blank.
pub fn check_entries_clear(entries: &[String; 4]) -> (r: bool)
    ensures
        r == (entries[0]@.len() == 0 && entries[1]@.len() == 0 && entries[2]@.len() == 0),
{
    let mut i: usize = 0;
    while i < 3
        invariant
            i <= 3,
            forall|j: int| 0 <= j < i ==> #[trigger] entries[j]@.len() == 0,
        decreases 3 - i,
    {
        if !entries[i].as_str().is_empty() {
            return false;
        }
        i = i + 1;
    }
    true
}

/// Only local hosts (or none, meaning the local one) are accepted, and every
/// connection string accepted names the PostgreSQL scheme and the default port.
pub proof fn lemma_only_local_hosts(host: Seq<char>, user: Seq<char>, password: Seq<char>, dbname: Seq<char>)
    ensures
        conn_str_of(host, user, password, dbname) is Ok ==> host.len() == 0 || host == "localhost"@ || host == "127.0.0.1"@,
        conn_str_of(host, user, password, dbname) matches Ok(s) ==> s.take("postgresql://"@.len() as int) == "postgresql://"@,
        host.len() == 0 || host == "localhost"@ || host == "127.0.0.1"@ ==> conn_str_of(host, user, password, dbname) is Ok,
{
    let p = "postgresql://"@;
    if conn_str_of(host, user, password, dbname) is Ok {
        let with_user = p + user;
        let with_password = if password.len() > 0 { with_user + ":"@ + password } else { with_user };
        let with_host = with_password + "@"@ + or_else(host, "localhost"@);
        let with_port = with_host + ":5432"@;
        let s = if dbname.len() > 0 { with_port + "/"@ + dbname } else { with_port };
        assert(with_user.take(p.len() as int) =~= p);
        assert(with_password.take(p.len() as int) =~= p);
        assert(with_host.take(p.len() as int) =~= p);
        assert(with_port.take(p.len() as int) =~= p);
        assert(s.take(p.len() as int) =~= p);
    }
}

/// Every accepted connection string starts with the PostgreSQL scheme and the
/// user, then `:` and the password when one is given; it ends with `/` and the
/// database name when one is given, whatever the host field holds, and with
/// the default port `:5432` otherwise. Between them stand `@`, the host (or
/// `localhost` when the field is blank) and the port.
pub proof fn lemma_conn_str_parts(host: Seq<char>, user: Seq<char>, password: Seq<char>, dbname: Seq<char>)
    ensures
        conn_str_of(host, user, password, dbname) matches Ok(s) ==> {
            let p = "postgresql://"@;
            &&& s.len() >= p.len() + user.len()
            &&& s.take((p.len() + user.len()) as int) == p + user
            &&& password.len() > 0 ==> s.len() >= p.len() + user.len() + 1 + password.len()
                && s.subrange((p.len() + user.len()) as int, (p.len() + user.len() + 1 + password.len()) as int) == ":"@ + password
            &&& dbname.len() > 0 ==> s.len() >= dbname.len() + 1 && s.skip((s.len() - dbname.len() - 1) as int) == "/"@ + dbname
            &&& dbname.len() == 0 ==> s.len() >= 5 && s.skip((s.len() - 5) as int) == ":5432"@
            &&& ({
                let q: int = p.len() + user.len() + if password.len() > 0 { 1 + password.len() as int } else { 0int };
                let at_host = "@"@ + (if host.len() > 0 { host } else { "localhost"@ }) + ":5432"@;
                s.len() >= q + at_host.len() && s.subrange(q, q + at_host.len()) == at_host
            })
        },
{
    reveal_strlit("postgresql://");
    reveal_strlit(":");
    reveal_strlit("@");
    reveal_strlit(":5432");
    reveal_strlit("/");
    reveal_strlit("localhost");
    let p = "postgresql://"@;
    if conn_str_of(host, user, password, dbname) is Ok {
        let with_user = p + user;
        let with_password = if password.len() > 0 { with_user + ":"@ + password } else { with_user };
        let with_host = with_password + "@"@ + or_else(host, "localhost"@);
        let with_port = with_host + ":5432"@;
        let s = if dbname.len() > 0 { with_port + "/"@ + dbname } else { with_port };
        assert(s == conn_str_of(host, user, password, dbname)->Ok_0);
        assert(with_password.take((p.len() + user.len()) as int) =~= with_user);
        assert(with_host.take((p.len() + user.len()) as int) =~= with_user);
        assert(with_port.take((p.len() + user.len()) as int) =~= with_user);
        assert(s.take((p.len() + user.len()) as int) =~= with_user);
        if password.len() > 0 {
            let lo = p.len() + user.len();
            let hi = lo + 1 + password.len();
            assert(with_password.subrange(lo as int, hi as int) =~= ":"@ + password);
            assert(with_host.subrange(lo as int, hi as int) =~= ":"@ + password);
            assert(with_port.subrange(lo as int, hi as int) =~= ":"@ + password);
            assert(s.subrange(lo as int, hi as int) =~= ":"@ + password);
        }
        let q: int = p.len() + user.len() + if password.len() > 0 { 1 + password.len() as int } else { 0int };
        let at_host = "@"@ + (if host.len() > 0 { host } else { "localhost"@ }) + ":5432"@;
        assert(with_password.len() == q);
        assert(with_port.subrange(q, q + at_host.len()) =~= at_host);
        assert(s.subrange(q, q + at_host.len()) =~= at_host);
        if dbname.len() > 0 {
            assert(s.skip((s.len() - dbname.len() - 1) as int) =~= "/"@ + dbname);
        } else {
            assert(s.skip((s.len() - 5) as int) =~= ":5432"@);
        }
    }
}


/// How to connect when the connection switch is turned on.
#[derive(Debug, Clone, Copy, PartialEq, Eq, Structural)]
pub enum ConnectionPlan {
    /// An in-memory local database.
    Local,
    /// The local database file chosen.
    LocalFile,
    /// An in-memory local database filled from the chosen delimited files: the
    /// first one only, or all of them.
    LocalUpload { all: bool },
    /// The server named in the form.
    Remote,
    /// Files were chosen and the form filled in too: nothing is done.
    Invalid,
}

/// The plan for `n_paths` chosen files, whether the form's host, user and
/// password are blank, and the first file's extension (`None` when it has none,
/// `Some(None)` when it is not text).
pub open spec fn plan_of(n_paths: usize, entries_clear: bool, first_ext: Option<Option<Seq<char>>>) -> ConnectionPlan {
    if n_paths == 0 {
        if entries_clear { ConnectionPlan::Local } else { ConnectionPlan::Remote }
    } else if !entries_clear {
        ConnectionPlan::Invalid
    } else if n_paths == 1 {
        match first_ext {
            Some(Some(e)) => if e == "csv"@ || e == "txt"@ {
                ConnectionPlan::LocalUpload { all: false }
            } else {
                ConnectionPlan::LocalFile
            },
            Some(None) => ConnectionPlan::LocalFile,
            None => ConnectionPlan::Local,
        }
    } else {
        ConnectionPlan::LocalUpload { all: true }
    }
}

/// Decides how to connect when the connection switch is turned on (see `plan_of`).
pub fn connection_plan(n_paths: usize, entries_clear: bool, first_ext: Option<Option<&str>>) -> (r: ConnectionPlan)
    ensures
        r == plan_of(n_paths, entries_clear, match first_ext {
            Some(Some(e)) => Some(Some(e@)),
            Some(None) => Some(None),
            None => None,
        }),
{
    if n_paths == 0 {
        if entries_clear { ConnectionPlan::Local } else { ConnectionPlan::Remote }
    } else if !entries_clear {
        ConnectionPlan::Invalid
    } else if n_paths == 1 {
        match first_ext {
            Some(Some(e)) => {
                if str_eq(e, "csv") || str_eq(e, "txt") {
                    ConnectionPlan::LocalUpload { all: false }
                } else {
                    ConnectionPlan::LocalFile
                }
            },
            Some(None) => ConnectionPlan::LocalFile,
            None => ConnectionPlan::Local,
        }
    } else {
        ConnectionPlan::LocalUpload { all: true }
    }
}

/// The database name shown for a chosen file, by its extension (`None` when it
/// has none or it is not text) and its path (`None` when it is not text).
pub open spec fn db_label_of(ext: Option<Seq<char>>, path: Option<Seq<char>>) -> Seq<char> {
    match ext {
        Some(e) => if e == "csv"@ || e == "txt"@ {
            "In-memory"@
        } else if e == "db"@ || e == "sqlite3"@ || e == "sqlite"@ {
            match path {
                Some(p) => p,
                None => "(Non UTF-8 path)"@,
            }
        } else {
            "(Unknown extension)"@
        },
        None => "(Unknown extension)"@,
    }
}

/// The database name shown in the form for a chosen file: `In-memory` for
/// delimited files, the path for database files, and a complaint otherwise.
pub fn db_file_label(ext: Option<&str>, path: Option<&str>) -> (r: String)
    ensures
        r@ == db_label_of(match ext { Some(e) => Some(e@), None => None }, match path { Some(p) => Some(p@), None => None }),
{
    match ext {
        Some(e) => {
            if str_eq(e, "csv") || str_eq(e, "txt") {
                "In-memory".to_owned()
            } else if str_eq(e, "db") || str_eq(e, "sqlite3") || str_eq(e, "sqlite") {
                match path {
                    Some(p) => p.to_owned(),
                    None => "(Non UTF-8 path)".to_owned(),
                }
            } else {
                "(Unknown extension)".to_owned()
            }
        },
        None => "(Unknown extension)".to_owned(),
    }
}

} // verus!
