//! The static file side of the web server: which file a request path asks
//! for, and the content type a file is served with.

use vstd::prelude::*;
use vstd::string::*;
use crate::text::{chars_of, starts_with, starts_with_exec, string_of, sub_vec};
use crate::loader::same_chars;

verus! {

/// The text without its leading `c` characters.
pub open spec fn strip_leading(s: Seq<char>, c: char) -> Seq<char>
    decreases s.len(),
{
    if s.len() > 0 && s[0] == c {
        strip_leading(s.drop_first(), c)
    } else {
        s
    }
}

/// The file a request path asks for, relative to the web root: none for an
/// API path (`/api/...`, answered "not found"), `index.html` for `/`, else
/// the path without its leading slashes.
pub open spec fn static_target(path: Seq<char>) -> Option<Seq<char>> {
    if starts_with(path, "/api/"@) {
        None
    } else if path == "/"@ {
        Some("index.html"@)
    } else {
        Some(strip_leading(path, '/'))
    }
}

/// The file a request path asks for (see `static_target`).
pub fn static_file_target(path: &str) -> (r: Option<String>)
    ensures
        match static_target(path@) {
            Some(t) => r matches Some(x) && x@ == t,
            None => r is None,
        },
{
    let p = chars_of(path);
    let api = chars_of("/api/");
    if starts_with_exec(p.as_slice(), api.as_slice()) {
        return None;
    }
    let root = chars_of("/");
    if same_chars(p.as_slice(), root.as_slice()) {
        return Some("index.html".to_owned());
    }
    let mut i: usize = 0;
    assert(p@.subrange(0, p@.len() as int) =~= p@);
    while i < p.len() && p[i] == '/'
        invariant
            i <= p@.len(),
            strip_leading(path@, '/') == strip_leading(p@.subrange(i as int, p@.len() as int), '/'),
            p@ == path@,
        decreases p@.len() - i,
    {
        assert(p@.subrange(i as int, p@.len() as int).drop_first() =~= p@.subrange(i + 1, p@.len() as int));
        i = i + 1;
    }
    let rest = sub_vec(p.as_slice(), i, p.len());
    Some(string_of(rest.as_slice()))
}

/// Position of the last `.` of a text, or -1.
pub open spec fn last_dot(s: Seq<char>) -> int
    decreases s.len(),
{
    if s.len() == 0 {
        -1
    } else if s.last() == '.' {
        s.len() - 1
    } else {
        last_dot(s.drop_last())
    }
}

/// The extension of a file name as `Path::extension` reads it: what follows
/// the last dot, unless there is none, the only dot starts the name, or the
/// name is `..`.
pub open spec fn file_extension(name: Seq<char>) -> Option<Seq<char>> {
    if name == ".."@ || last_dot(name) <= 0 {
        None
    } else {
        Some(name.subrange(last_dot(name) + 1, name.len() as int))
    }
}

/// The content type of a file by its extension.
pub open spec fn content_type_of(name: Option<Seq<char>>) -> Seq<char> {
    match match name {
        Some(n) => file_extension(n),
        None => None,
    } {
        Some(e) => if e == "html"@ {
            "text/html; charset=utf-8"@
        } else if e == "css"@ {
            "text/css; charset=utf-8"@
        } else if e == "js"@ {
            "application/javascript; charset=utf-8"@
        } else if e == "json"@ {
            "application/json"@
        } else if e == "png"@ {
            "image/png"@
        } else if e == "jpg"@ || e == "jpeg"@ {
            "image/jpeg"@
        } else if e == "gif"@ {
            "image/gif"@
        } else if e == "svg"@ {
            "image/svg+xml"@
        } else if e == "ico"@ {
            "image/x-icon"@
        } else {
            "application/octet-stream"@
        },
        None => "application/octet-stream"@,
    }
}

proof fn lemma_last_dot(s: Seq<char>)
    ensures
        -1 <= last_dot(s) < s.len(),
        last_dot(s) >= 0 ==> s[last_dot(s)] == '.',
        forall|j: int| last_dot(s) < j < s.len() ==> s[j] != '.',
    decreases s.len(),
{
    if s.len() > 0 && s.last() != '.' {
        lemma_last_dot(s.drop_last());
        assert forall|j: int| last_dot(s) < j < s.len() implies s[j] != '.' by {
            if j < s.len() - 1 {
                assert(s[j] == s.drop_last()[j]);
            }
        }
    }
}

fn last_dot_exec(s: &[char]) -> (r: Option<usize>)
    ensures
        match r {
            Some(k) => last_dot(s@) == k as int,
            None => last_dot(s@) == -1,
        },
{
    let mut i = s.len();
    assert(s@.subrange(0, s@.len() as int) =~= s@);
    while i > 0
        invariant
            i <= s@.len(),
            last_dot(s@) == last_dot(s@.subrange(0, i as int)),
        decreases i,
    {
        let ghost pre = s@.subrange(0, i as int);
        assert(pre.last() == s@[i - 1]);
        if s[i - 1] == '.' {
            return Some(i - 1);
        }
        assert(pre.drop_last() =~= s@.subrange(0, i - 1));
        i = i - 1;
    }
    None
}

fn is_text(v: &[char], lit: &str) -> (r: bool)
    ensures
        r == (v@ == lit@),
{
    let l = chars_of(lit);
    same_chars(v, l.as_slice())
}

/// The content type a file is served with, by the extension of its name
/// (`None` when the path has no file name).
pub fn content_type_for(file_name: Option<&str>) -> (r: &'static str)
    ensures
        r@ == content_type_of(match file_name {
            Some(n) => Some(n@),
            None => None,
        }),
{
    let name = match file_name {
        Some(n) => chars_of(n),
        None => {
            return "application/octet-stream";
        },
    };
    if is_text(name.as_slice(), "..") {
        return "application/octet-stream";
    }
    let k = match last_dot_exec(name.as_slice()) {
        Some(k) => k,
        None => {
            return "application/octet-stream";
        },
    };
    if k == 0 {
        return "application/octet-stream";
    }
    proof {
        lemma_last_dot(name@);
    }
    let e = sub_vec(name.as_slice(), k + 1, name.len());
    if is_text(e.as_slice(), "html") {
        "text/html; charset=utf-8"
    } else if is_text(e.as_slice(), "css") {
        "text/css; charset=utf-8"
    } else if is_text(e.as_slice(), "js") {
        "application/javascript; charset=utf-8"
    } else if is_text(e.as_slice(), "json") {
        "application/json"
    } else if is_text(e.as_slice(), "png") {
        "image/png"
    } else if is_text(e.as_slice(), "jpg") || is_text(e.as_slice(), "jpeg") {
        "image/jpeg"
    } else if is_text(e.as_slice(), "gif") {
        "image/gif"
    } else if is_text(e.as_slice(), "svg") {
        "image/svg+xml"
    } else if is_text(e.as_slice(), "ico") {
        "image/x-icon"
    } else {
        "application/octet-stream"
    }
}

} // verus!
