use vstd::prelude::*;
use vstd::string::*;
use vstd::utf8::is_ascii_chars;
use rand::rngs::ThreadRng;
use crate::secret::{hash_password, is_digest_of};
use crate::text::{joined, lower_of, lowercase, owned, push_char};

verus! {

/// What the handlers read of the configuration: the blacklist of
/// extensions (in lower case), the output directory, the digest of the
/// optional API password, and the port listened on, if any.
pub struct AppConfig {
    pub blacklist: Option<Vec<String>>,
    pub output: String,
    pub password_hash: Option<String>,
    pub port: Option<u16>,
}

/// Every entry of `lowered` is the lower case of the entry of `raw` at its place.
pub open spec fn lowered_entries(raw: Seq<String>, lowered: Seq<String>) -> bool {
    &&& lowered.len() == raw.len()
    &&& forall|i: int| 0 <= i < raw.len() ==> #[trigger] lowered[i]@ == lower_of(raw[i]@)
}

/// Each entry of `list` in lower case.
pub fn lowercase_all(list: &Vec<String>) -> (r: Vec<String>)
    ensures
        lowered_entries(list@, r@),
{
    let mut r: Vec<String> = Vec::new();
    let mut i: usize = 0;
    while i < list.len()
        invariant
            i <= list@.len(),
            r@.len() == i,
            forall|j: int| 0 <= j < i ==> #[trigger] r@[j]@ == lower_of(list@[j]@),
        decreases list@.len() - i,
    {
        r.push(lowercase(list[i].as_str()));
        i = i + 1;
    }
    r
}

impl AppConfig {
    /// The configuration from the command-line values: the blacklist in lower
    /// case, the password replaced by its digest, and no port where port
    /// listening is disabled.
    pub fn from_options(
        rng: &mut ThreadRng,
        blacklist: Option<Vec<String>>,
        output: String,
        password: Option<&str>,
        port: Option<u16>,
        disable_port: bool,
    ) -> (r: AppConfig)
        ensures
            r.output@ == output@,
            r.port == (if disable_port { None } else { port }),
            match blacklist {
                None => r.blacklist.is_none(),
                Some(b) => r.blacklist matches Some(l) && lowered_entries(b@, l@),
            },
            match password {
                None => r.password_hash.is_none(),
                Some(p) => r.password_hash matches Some(d) && is_digest_of(d@, p@),
            },
    {
        let lowered = match &blacklist {
            None => None,
            Some(b) => Some(lowercase_all(b)),
        };
        let password_hash = match password {
            None => None,
            Some(p) => Some(hash_password(rng, p)),
        };
        let port = if disable_port { None } else { port };
        AppConfig { blacklist: lowered, output, password_hash, port }
    }
}

/// The database file's name inside its directory.
pub open spec fn database_file_name() -> Seq<char> {
    seq!['d', 'e', 'k', 'i', 'n', 'a', 'i', '.', 's', 'q', 'l', 'i', 't', 'e']
}

/// `name` joined under directory `dir`, with one `/` between them.
pub open spec fn path_join(dir: Seq<char>, name: Seq<char>) -> Seq<char> {
    if dir.len() == 0 || dir.last() == '/' {
        dir + name
    } else {
        dir + seq!['/'] + name
    }
}

/// The URI of the SQLite database kept in directory `dir`.
pub open spec fn database_uri_of(dir: Seq<char>) -> Seq<char> {
    seq!['s', 'q', 'l', 'i', 't', 'e', ':', '/', '/'] + path_join(dir, database_file_name())
}

/// Where the server listens and keeps its database.
pub struct ServerConfig {
    pub unix: Option<String>,
    pub database_uri: String,
}

impl ServerConfig {
    /// The configuration for a unix socket, if any, and the database directory.
    pub fn new(unix: Option<String>, database_dir: &str) -> (r: ServerConfig)
        ensures
            r.unix == unix,
            r.database_uri@ == database_uri_of(database_dir@),
    {
        proof {
            reveal_strlit("sqlite://");
            reveal_strlit("dekinai.sqlite");
            assert("sqlite://"@ =~= seq!['s', 'q', 'l', 'i', 't', 'e', ':', '/', '/']);
            assert("dekinai.sqlite"@ =~= database_file_name());
        }
        let n = database_dir.unicode_len();
        let mut dir = owned(database_dir);
        if n > 0 && database_dir.get_char(n - 1) != '/' {
            push_char(&mut dir, '/');
        }
        let path = joined(dir.as_str(), "dekinai.sqlite");
        let database_uri = joined("sqlite://", path.as_str());
        proof {
            assert(path@ =~= path_join(database_dir@, database_file_name()));
        }
        ServerConfig { unix, database_uri }
    }

    /// The URI of the ledger's database.
    pub fn database_uri(&self) -> (r: &str)
        ensures
            r@ == self.database_uri@,
    {
        self.database_uri.as_str()
    }
}

/// The message that refuses a password with a character outside ASCII.
pub open spec fn non_ascii_password_message() -> Seq<char> {
    "Password needs to contain only ASCII characters"@
}

/// Accepts a password made of ASCII characters only.
pub fn validate_password(value: &str) -> (r: Result<String, String>)
    ensures
        is_ascii_chars(value@) ==> (r matches Ok(v) && v@ == value@),
        !is_ascii_chars(value@) ==> (r matches Err(m) && m@ == non_ascii_password_message()),
{
    if value.is_ascii() {
        Ok(owned(value))
    } else {
        Err(owned("Password needs to contain only ASCII characters"))
    }
}

/// The message that refuses a directory that cannot be accessed.
pub open spec fn inaccessible_dir_message(value: Seq<char>) -> Seq<char> {
    "Cannot access directory \""@ + value + "\""@
}

/// Accepts `value` as a directory where it names one (`is_dir`, as the file
/// system answered).
pub fn validate_dir(value: &str, is_dir: bool) -> (r: Result<String, String>)
    ensures
        is_dir ==> (r matches Ok(v) && v@ == value@),
        !is_dir ==> (r matches Err(m) && m@ == inaccessible_dir_message(value@)),
{
    if is_dir {
        Ok(owned(value))
    } else {
        let m = joined("Cannot access directory \"", value);
        Err(joined(m.as_str(), "\""))
    }
}

} // verus!
