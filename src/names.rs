use vstd::prelude::*;
use vstd::string::*;
use crate::text::{lower_of, lowercase};

verus! {

/// The position of the last `c` in `s`, or -1 where there is none.
pub open spec fn last_index_of(s: Seq<char>, c: char) -> int
    decreases s.len(),
{
    if s.len() == 0 {
        -1
    } else if s.last() == c {
        s.len() - 1
    } else {
        last_index_of(s.drop_last(), c)
    }
}

/// A path without what ends it but names nothing: trailing `/` separators
/// and `.` components.
pub open spec fn trimmed(s: Seq<char>) -> Seq<char>
    decreases s.len(),
{
    if s.len() > 0 && s.last() == '/' {
        trimmed(s.drop_last())
    } else if s == seq!['.'] {
        Seq::empty()
    } else if s.len() >= 2 && s.last() == '.' && s[s.len() - 2] == '/' {
        trimmed(s.drop_last())
    } else {
        s
    }
}

/// The final component of a path as `std::path::Path::file_name` finds it:
/// the last component that is neither empty nor `.`; empty where there is
/// none or it is `..`.
pub open spec fn file_name_of(s: Seq<char>) -> Seq<char> {
    let t = trimmed(s);
    let last = t.subrange(last_index_of(t, '/') + 1, t.len() as int);
    if last == seq!['.', '.'] {
        Seq::empty()
    } else {
        last
    }
}

/// A file name has an extension when it holds a `.` past its first character;
/// `..` names no file and has none.
pub open spec fn has_extension(n: Seq<char>) -> bool {
    last_index_of(n, '.') > 0 && n != seq!['.', '.']
}

/// The stem of a path: its file name without the extension and its dot;
/// empty where the path names no file.
pub open spec fn stem_of(s: Seq<char>) -> Seq<char> {
    let n = file_name_of(s);
    if has_extension(n) {
        n.subrange(0, last_index_of(n, '.'))
    } else {
        n
    }
}

/// The extension of a path as written, without its dot; empty where there is none.
pub open spec fn raw_extension_of(s: Seq<char>) -> Seq<char> {
    let n = file_name_of(s);
    if has_extension(n) {
        n.subrange(last_index_of(n, '.') + 1, n.len() as int)
    } else {
        Seq::empty()
    }
}

/// The extension of a path in lower case; empty where there is none.
pub open spec fn extension_of(s: Seq<char>) -> Seq<char> {
    if has_extension(file_name_of(s)) {
        lower_of(raw_extension_of(s))
    } else {
        Seq::empty()
    }
}

proof fn lemma_last_index_of(s: Seq<char>, c: char, j: int)
    requires
        -1 <= j < s.len(),
        j >= 0 ==> s[j] == c,
        forall|k: int| j < k < s.len() ==> s[k] != c,
    ensures
        last_index_of(s, c) == j,
    decreases s.len(),
{
    if s.len() > 0 {
        if s.last() == c {
            assert(s[s.len() - 1] == c);
        } else {
            assert forall|k: int| j < k < s.drop_last().len() implies s.drop_last()[k] != c by {
                assert(s.drop_last()[k] == s[k]);
            }
            lemma_last_index_of(s.drop_last(), c, j);
        }
    }
}

/// The position of the last `c` in `s`, if any.
fn find_last(s: &str, c: char) -> (r: Option<usize>)
    ensures
        match r {
            Some(j) => j == last_index_of(s@, c),
            None => last_index_of(s@, c) == -1,
        },
        last_index_of(s@, c) < s@.len(),
{
    let n = s.unicode_len();
    let mut i: usize = n;
    while i > 0
        invariant
            n == s@.len(),
            i <= n,
            forall|k: int| i <= k < n ==> s@[k] != c,
        decreases i,
    {
        if s.get_char(i - 1) == c {
            proof {
                lemma_last_index_of(s@, c, i - 1);
            }
            return Some(i - 1);
        }
        i = i - 1;
    }
    proof {
        lemma_last_index_of(s@, c, -1);
    }
    None
}

/// The file name that ends `path`.
fn file_name(path: &str) -> (r: &str)
    ensures
        r@ == file_name_of(path@),
{
    let n = path.unicode_len();
    let mut j: usize = n;
    assert(path@.subrange(0, n as int) =~= path@);
    while j > 0
        invariant
            n == path@.len(),
            j <= n,
            trimmed(path@) == trimmed(path@.subrange(0, j as int)),
        ensures
            trimmed(path@.subrange(0, j as int)) == path@.subrange(0, j as int),
        decreases j,
    {
        let ghost p = path@.subrange(0, j as int);
        if path.get_char(j - 1) == '/' {
            assert(p.drop_last() =~= path@.subrange(0, j - 1));
            j = j - 1;
        } else if j == 1 && path.get_char(0) == '.' {
            assert(p =~= seq!['.']);
            assert(path@.subrange(0, 0) =~= Seq::<char>::empty());
            j = 0;
        } else if j >= 2 && path.get_char(j - 1) == '.' && path.get_char(j - 2) == '/' {
            assert(p.drop_last() =~= path@.subrange(0, j - 1));
            j = j - 1;
        } else {
            assert(p != seq!['.']) by {
                if p == seq!['.'] {
                    assert(p[0] == path@[0]);
                }
            }
            assert(p.last() == path@[j - 1]);
            assert(j >= 2 ==> p[p.len() - 2] == path@[j - 2]);
            assert(trimmed(p) == p);
            break;
        }
    }
    let t = path.substring_char(0, j);
    assert(t@ == trimmed(path@));
    let last = match find_last(t, '/') {
        Some(k) => t.substring_char(k + 1, j),
        None => t.substring_char(0, j),
    };
    if is_dot_or_dot_dot(last) && last.unicode_len() == 2 {
        last.substring_char(0, 0)
    } else {
        last
    }
}

fn is_dot_or_dot_dot(n: &str) -> (r: bool)
    ensures
        r == (n@ == seq!['.'] || n@ == seq!['.', '.']),
{
    let len = n.unicode_len();
    if len == 1 {
        let r = n.get_char(0) == '.';
        assert(r ==> n@ =~= seq!['.']);
        r
    } else if len == 2 {
        let r = n.get_char(0) == '.' && n.get_char(1) == '.';
        assert(r ==> n@ =~= seq!['.', '.']);
        r
    } else {
        false
    }
}

/// The position of the dot that starts the extension of file name `n`, if it has one.
fn extension_dot(n: &str) -> (r: Option<usize>)
    ensures
        match r {
            Some(d) => has_extension(n@) && d == last_index_of(n@, '.') && d < n@.len(),
            None => !has_extension(n@),
        },
{
    if is_dot_or_dot_dot(n) {
        return None;
    }
    match find_last(n, '.') {
        Some(d) => if d > 0 { Some(d) } else { None },
        None => None,
    }
}

/// The stem of `filename` and its extension in lower case.
pub fn get_file_stem_with_extension(filename: &str) -> (r: (&str, String))
    ensures
        r.0@ == stem_of(filename@),
        r.1@ == extension_of(filename@),
{
    let name = file_name(filename);
    let len = name.unicode_len();
    match extension_dot(name) {
        Some(d) => (name.substring_char(0, d), lowercase(name.substring_char(d + 1, len))),
        None => (name, String::new()),
    }
}

/// The extension of `filename` in lower case; empty where it has none.
pub fn get_file_extension(filename: &str) -> (r: String)
    ensures
        r@ == extension_of(filename@),
{
    let name = file_name(filename);
    let len = name.unicode_len();
    match extension_dot(name) {
        Some(d) => lowercase(name.substring_char(d + 1, len)),
        None => String::new(),
    }
}

} // verus!
