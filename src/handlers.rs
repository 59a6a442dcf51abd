use vstd::prelude::*;
use vstd::string::*;
use crate::error::Error;
use crate::ledger::{lookup, release, LedgerModel};
use crate::names::{extension_of, get_file_extension};
use crate::secret::{check_password, is_digest_of, password_check, digest_parses, digest_accepts};
use crate::text::{opt_view, decimal_of, joined, owned, push_char, push_decimal, same_text};

verus! {

/// The outcome of the API-key check: nothing to check where no password is
/// configured; otherwise a key must come and pass against the digest.
pub open spec fn api_key_check(password_hash: Option<Seq<char>>, api_key: Option<Seq<char>>) -> Result<(), Error> {
    match password_hash {
        None => Ok(()),
        Some(d) => match api_key {
            None => Err(Error::UNAUTHORIZED),
            Some(k) => password_check(d, k),
        },
    }
}

/// Checks the caller's API key against the configured password digest.
pub fn check_api_key(password_hash: Option<&str>, api_key: Option<&str>) -> (r: Result<(), Error>)
    ensures
        r == api_key_check(opt_view(password_hash), opt_view(api_key)),
{
    match password_hash {
        None => Ok(()),
        Some(d) => match api_key {
            None => Err(Error::UNAUTHORIZED),
            Some(k) => check_password(d, k),
        },
    }
}

/// `extension` is one of the entries of `blacklist`.
pub open spec fn listed(blacklist: Seq<String>, extension: Seq<char>) -> bool {
    exists|i: int| 0 <= i < blacklist.len() && #[trigger] blacklist[i]@ == extension
}

/// Whether `extension` is an entry of `blacklist`.
pub fn is_blacklisted(blacklist: &Vec<String>, extension: &str) -> (r: bool)
    ensures
        r == listed(blacklist@, extension@),
{
    let mut i: usize = 0;
    while i < blacklist.len()
        invariant
            i <= blacklist@.len(),
            forall|j: int| 0 <= j < i ==> #[trigger] blacklist@[j]@ != extension@,
        decreases blacklist@.len() - i,
    {
        if same_text(blacklist[i].as_str(), extension) {
            return true;
        }
        i = i + 1;
    }
    false
}

/// The extension an upload is stored under, or why it is refused: a client
/// error where the part carries no file name or its lower-case extension is
/// blacklisted. Nothing is reserved or written before this passes.
pub fn upload_extension(filename: Option<&str>, blacklist: Option<&Vec<String>>) -> (r: Result<String, Error>)
    ensures
        match filename {
            None => r == Err::<String, Error>(Error::BAD_REQUEST),
            Some(f) => match blacklist {
                Some(b) if listed(b@, extension_of(f@)) => r == Err::<String, Error>(Error::BAD_REQUEST),
                _ => r matches Ok(e) && e@ == extension_of(f@),
            },
        },
{
    let f = match filename {
        None => return Err(Error::BAD_REQUEST),
        Some(f) => f,
    };
    let extension = get_file_extension(f);
    match blacklist {
        Some(b) => {
            if is_blacklisted(b, extension.as_str()) {
                return Err(Error::BAD_REQUEST);
            }
        },
        None => {},
    }
    Ok(extension)
}

/// `s` unless it ends in `/`, then `s` with a `/` appended.
pub open spec fn with_trailing_slash(s: Seq<char>) -> Seq<char> {
    if s.len() > 0 && s.last() == '/' {
        s
    } else {
        s.push('/')
    }
}

/// The externally visible base URL: scheme (default `http`), `://`, host
/// (default `localhost`), the listening port where the host is `localhost`,
/// the forwarded path, and a final `/`.
pub open spec fn base_url_of(
    proto: Option<Seq<char>>,
    host: Option<Seq<char>>,
    port: Option<u16>,
    path: Option<Seq<char>>,
) -> Seq<char> {
    let scheme = match proto { Some(p) => p, None => seq!['h', 't', 't', 'p'] };
    let h = match host { Some(h) => h, None => seq!['l', 'o', 'c', 'a', 'l', 'h', 'o', 's', 't'] };
    let port_part = match port {
        Some(p) if h == seq!['l', 'o', 'c', 'a', 'l', 'h', 'o', 's', 't'] => seq![':'] + decimal_of(p as nat),
        _ => Seq::empty(),
    };
    let path_part = match path { Some(p) => p, None => Seq::empty() };
    with_trailing_slash(scheme + seq![':', '/', '/'] + h + port_part + path_part)
}

/// Composes the base URL from the forwarded scheme, the host, the listening
/// port and the forwarded path.
pub fn get_base_url(proto: Option<&str>, host: Option<&str>, port: Option<u16>, path: Option<&str>) -> (r: String)
    ensures
        r@ == base_url_of(opt_view(proto), opt_view(host), port, opt_view(path)),
{
    proof {
        reveal_strlit("http");
        reveal_strlit("://");
        reveal_strlit("localhost");
        assert("http"@ =~= seq!['h', 't', 't', 'p']);
        assert("://"@ =~= seq![':', '/', '/']);
        assert("localhost"@ =~= seq!['l', 'o', 'c', 'a', 'l', 'h', 'o', 's', 't']);
    }
    let scheme = match proto { Some(p) => p, None => "http" };
    let h = match host { Some(h) => h, None => "localhost" };
    let s1 = joined(scheme, "://");
    let mut url = joined(s1.as_str(), h);
    let ghost before_port = url@;
    match port {
        Some(p) => {
            if same_text(h, "localhost") {
                push_char(&mut url, ':');
                push_decimal(&mut url, p);
                assert(url@ =~= before_port + (seq![':'] + decimal_of(p as nat)));
            } else {
                assert(url@ =~= before_port + Seq::<char>::empty());
            }
        },
        None => {
            assert(url@ =~= before_port + Seq::<char>::empty());
        },
    }
    let ghost before_path = url@;
    let url = match path {
        Some(p) => joined(url.as_str(), p),
        None => {
            assert(url@ =~= before_path + Seq::<char>::empty());
            url
        },
    };
    let n = url.as_str().unicode_len();
    if n > 0 && url.as_str().get_char(n - 1) == '/' {
        url
    } else {
        let mut url = url;
        push_char(&mut url, '/');
        url
    }
}

/// The public URL and the deletion URL of a stored upload.
pub fn upload_urls(base_url: &str, filename: &str, secret: &str) -> (r: (String, String))
    ensures
        r.0@ == base_url@ + filename@,
        r.1@ == base_url@ + filename@ + seq!['/'] + secret@,
{
    let public = joined(base_url, filename);
    let mut deletion = owned(public.as_str());
    push_char(&mut deletion, '/');
    let deletion = joined(deletion.as_str(), secret);
    (public, deletion)
}

/// What a delete request does.
#[derive(Debug, Clone, Copy, PartialEq, Eq, Structural)]
pub enum DeleteDecision {
    /// No file has that name: release any stale record, answer not found.
    ReleaseThenNotFound,
    /// Refuse with this error; nothing changes.
    Refuse(Error),
    /// The secret matches: release the record, then remove the file.
    ReleaseThenRemoveFile,
}

/// The decision for a delete request, given whether the file exists, the
/// stored digest (looked up only where it does), and the caller's secret.
pub open spec fn delete_decision(file_exists: bool, stored: Option<Seq<char>>, secret: Seq<char>) -> DeleteDecision {
    if !file_exists {
        DeleteDecision::ReleaseThenNotFound
    } else {
        match stored {
            None => DeleteDecision::Refuse(Error::UNAUTHORIZED),
            Some(d) => match password_check(d, secret) {
                Ok(_) => DeleteDecision::ReleaseThenRemoveFile,
                Err(e) => DeleteDecision::Refuse(e),
            },
        }
    }
}

/// Decides a delete request.
pub fn decide_delete(file_exists: bool, stored: Option<&str>, secret: &str) -> (r: DeleteDecision)
    ensures
        r == delete_decision(file_exists, opt_view(stored), secret@),
{
    if !file_exists {
        return DeleteDecision::ReleaseThenNotFound;
    }
    match stored {
        None => DeleteDecision::Refuse(Error::UNAUTHORIZED),
        Some(d) => match check_password(d, secret) {
            Ok(()) => DeleteDecision::ReleaseThenRemoveFile,
            Err(e) => DeleteDecision::Refuse(e),
        },
    }
}

/// The ledger after a delete decision on `key`.
pub open spec fn ledger_after_delete(l: LedgerModel, key: (Seq<char>, Seq<char>), d: DeleteDecision) -> LedgerModel {
    match d {
        DeleteDecision::Refuse(_) => l,
        _ => release(l, key),
    }
}

/// Whether the file exists after a delete decision.
pub open spec fn file_after_delete(file_exists: bool, d: DeleteDecision) -> bool {
    match d {
        DeleteDecision::ReleaseThenRemoveFile => false,
        _ => file_exists,
    }
}

/// What the client is told.
pub open spec fn delete_response(d: DeleteDecision) -> Result<(), Error> {
    match d {
        DeleteDecision::ReleaseThenNotFound => Err(Error::NOT_FOUND),
        DeleteDecision::Refuse(e) => Err(e),
        DeleteDecision::ReleaseThenRemoveFile => Ok(()),
    }
}

impl DeleteDecision {
    /// The response to the client: success, or the error.
    pub fn response(&self) -> (r: Result<(), Error>)
        ensures
            r == delete_response(*self),
    {
        match *self {
            DeleteDecision::ReleaseThenNotFound => Err(Error::NOT_FOUND),
            DeleteDecision::Refuse(e) => Err(e),
            DeleteDecision::ReleaseThenRemoveFile => Ok(()),
        }
    }
}

/// Deleting a stored upload with its secret removes the record and the file;
/// deleting it again answers not found and changes nothing.
pub proof fn lemma_delete_with_secret(l: LedgerModel, key: (Seq<char>, Seq<char>), secret: Seq<char>)
    requires
        l.contains_key(key),
        is_digest_of(l[key], secret),
    ensures
        ({
            let first = delete_decision(true, lookup(l, key), secret);
            let l1 = ledger_after_delete(l, key, first);
            let f1 = file_after_delete(true, first);
            let second = delete_decision(f1, lookup(l1, key), secret);
            &&& delete_response(first) == Ok::<(), Error>(())
            &&& !l1.contains_key(key)
            &&& !f1
            &&& delete_response(second) == Err::<(), Error>(Error::NOT_FOUND)
            &&& ledger_after_delete(l1, key, second) == l1
            &&& !file_after_delete(f1, second)
        }),
{
    let l1 = release(l, key);
    assert(release(l1, key) =~= l1);
}

/// Deleting with a secret that does not match leaves the record and the file,
/// and answers unauthorized.
pub proof fn lemma_delete_with_wrong_secret(l: LedgerModel, key: (Seq<char>, Seq<char>), guess: Seq<char>)
    requires
        l.contains_key(key),
        digest_parses(l[key]),
        !digest_accepts(l[key], guess),
    ensures
        ({
            let d = delete_decision(true, lookup(l, key), guess);
            &&& delete_response(d) == Err::<(), Error>(Error::UNAUTHORIZED)
            &&& ledger_after_delete(l, key, d) == l
            &&& file_after_delete(true, d)
        }),
{
}

} // verus!
