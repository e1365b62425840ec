//! Device identity: telling the modem's placeholder answers from real ones,
//! and the identity read from the device tree model or the OS release file
//! when the modem has none.

use vstd::prelude::*;
use vstd::string::*;
use crate::loader::{same_chars, strip_trailing, strip_trailing_exec, trimmed};
use crate::text::{
    ascii_lower, chars_of, chars_of_string, contains, contains_exec, is_ascii_text, lines, lines_of,
    seqs_of, starts_with, starts_with_exec, string_of, sub_vec, trim, words, words_of,
};
use crate::web::strip_leading;

verus! {

/// The text in lower case as `str::to_lowercase` gives it.
pub uninterp spec fn lowercase_of(s: Seq<char>) -> Seq<char>;

/// std `str::to_lowercase`: the Unicode lower-case mapping, only named here;
/// on ASCII text it is the ASCII lower case, as its documentation says.
#[verifier::external_body]
pub(crate) fn to_lowercase(s: &str) -> (r: String)
    ensures
        r@ == lowercase_of(s@),
        is_ascii_text(s@) ==> r@ == ascii_lower(s@),
{
    s.to_lowercase()
}

/// A value is a placeholder: empty, or holding `fake` in any letter case.
pub open spec fn looks_fake(s: Seq<char>) -> bool {
    s.len() == 0 || contains(lowercase_of(s), "fake"@)
}

/// Whether a reported value is a placeholder (see `looks_fake`).
pub fn is_placeholder(s: &str) -> (r: bool)
    ensures
        r == looks_fake(s@),
{
    if s.unicode_len() == 0 {
        return true;
    }
    let low = to_lowercase(s);
    let lv = chars_of_string(&low);
    let fake = chars_of("fake");
    contains_exec(lv.as_slice(), fake.as_slice())
}

/// The device tree model as read: trailing NUL characters, then the
/// surrounding whitespace, removed.
pub open spec fn model_text(raw: Seq<char>) -> Seq<char> {
    trim(strip_trailing(raw, '\0'))
}

/// The value of an OS release line with its surrounding quotes removed.
pub open spec fn unquoted(s: Seq<char>) -> Seq<char> {
    strip_trailing(strip_leading(s, '"'), '"')
}

/// The first `PRETTY_NAME=` line whose unquoted value is no placeholder.
pub open spec fn pretty_name(ls: Seq<Seq<char>>) -> Option<Seq<char>>
    decreases ls.len(),
{
    if ls.len() == 0 {
        None
    } else {
        let p = "PRETTY_NAME="@;
        if starts_with(ls[0], p) && !looks_fake(unquoted(ls[0].subrange(p.len() as int, ls[0].len() as int))) {
            Some(unquoted(ls[0].subrange(p.len() as int, ls[0].len() as int)))
        } else {
            pretty_name(ls.drop_first())
        }
    }
}

/// The (manufacturer, model) the system reports: the device tree model when
/// it is no placeholder, with its first word as the manufacturer (`Unknown`
/// without one); else the OS release's pretty name with an `Unknown`
/// manufacturer; else nothing.
pub open spec fn system_identity(model_file: Option<Seq<char>>, os_release: Option<Seq<char>>) -> Option<
    (Seq<char>, Seq<char>),
> {
    let from_tree = match model_file {
        Some(raw) => {
            let s = model_text(raw);
            if !looks_fake(s) {
                Some(
                    (
                        if words(s).len() > 0 {
                            words(s)[0]
                        } else {
                            "Unknown"@
                        },
                        s,
                    ),
                )
            } else {
                None
            }
        },
        None => None,
    };
    match from_tree {
        Some(p) => Some(p),
        None => match os_release {
            Some(c) => match pretty_name(lines(c)) {
                Some(v) => Some(("Unknown"@, v)),
                None => None,
            },
            None => None,
        },
    }
}

fn strip_leading_exec(s: &[char], c: char) -> (r: Vec<char>)
    ensures
        r@ == strip_leading(s@, c),
{
    let mut i: usize = 0;
    assert(s@.subrange(0, s@.len() as int) =~= s@);
    while i < s.len() && s[i] == c
        invariant
            i <= s@.len(),
            strip_leading(s@, c) == strip_leading(s@.subrange(i as int, s@.len() as int), c),
        decreases s@.len() - i,
    {
        assert(s@.subrange(i as int, s@.len() as int).drop_first() =~= s@.subrange(
            i + 1,
            s@.len() as int,
        ));
        i = i + 1;
    }
    sub_vec(s, i, s.len())
}

fn placeholder_chars(v: &Vec<char>) -> (r: bool)
    ensures
        r == looks_fake(v@),
{
    let s = string_of(v.as_slice());
    is_placeholder(s.as_str())
}

fn pretty_name_exec(ls: &Vec<Vec<char>>) -> (r: Option<Vec<char>>)
    ensures
        match pretty_name(seqs_of(ls@)) {
            Some(v) => r matches Some(x) && x@ == v,
            None => r is None,
        },
{
    let ghost all = seqs_of(ls@);
    let p = chars_of("PRETTY_NAME=");
    let mut i: usize = 0;
    assert(all.subrange(0, all.len() as int) =~= all);
    while i < ls.len()
        invariant
            i <= ls@.len() == all.len(),
            all == seqs_of(ls@),
            p@ == "PRETTY_NAME="@,
            pretty_name(all) == pretty_name(all.subrange(i as int, all.len() as int)),
        decreases ls@.len() - i,
    {
        let ghost rest = all.subrange(i as int, all.len() as int);
        assert(rest[0] == ls@[i as int]@);
        assert(rest.drop_first() =~= all.subrange(i + 1, all.len() as int));
        let line = &ls[i];
        if starts_with_exec(line.as_slice(), p.as_slice()) {
            let value = sub_vec(line.as_slice(), p.len(), line.len());
            let lead = strip_leading_exec(value.as_slice(), '"');
            let v = strip_trailing_exec(lead.as_slice(), '"');
            if !placeholder_chars(&v) {
                return Some(v);
            }
        }
        i = i + 1;
    }
    None
}

/// The identity the system reports (see `system_identity`), from the
/// contents of the device tree model file and of the OS release file, each
/// `None` when it could not be read.
pub fn real_device_identity(model_file: Option<&str>, os_release: Option<&str>) -> (r: Option<(String, String)>)
    ensures
        match system_identity(
            match model_file {
                Some(m) => Some(m@),
                None => None,
            },
            match os_release {
                Some(o) => Some(o@),
                None => None,
            },
        ) {
            Some((a, b)) => r matches Some(x) && x.0@ == a && x.1@ == b,
            None => r is None,
        },
{
    if let Some(raw) = model_file {
        let rv = chars_of(raw);
        let stripped = strip_trailing_exec(rv.as_slice(), '\0');
        let s = trimmed(stripped.as_slice());
        if !placeholder_chars(&s) {
            let ws = words_of(s.as_slice());
            let manufacturer = if ws.len() > 0 {
                proof {
                    assert(seqs_of(ws@)[0] == ws@[0]@);
                }
                string_of(ws[0].as_slice())
            } else {
                "Unknown".to_owned()
            };
            return Some((manufacturer, string_of(s.as_slice())));
        }
    }
    match os_release {
        Some(c) => {
            let cv = chars_of(c);
            let ls = lines_of(cv.as_slice());
            match pretty_name_exec(&ls) {
                Some(v) => Some(("Unknown".to_owned(), string_of(v.as_slice()))),
                None => None,
            }
        },
        None => None,
    }
}

/// The system's identity is needed: the modem's manufacturer or model is a placeholder.
pub fn needs_real_identity(manufacturer: &str, model: &str) -> (r: bool)
    ensures
        r == (looks_fake(manufacturer@) || looks_fake(model@)),
{
    is_placeholder(manufacturer) || is_placeholder(model)
}

/// The reported (manufacturer, model): each placeholder replaced by the
/// system's value when the system reports an identity.
pub open spec fn resolved_identity(
    manufacturer: Seq<char>,
    model: Seq<char>,
    system: Option<(Seq<char>, Seq<char>)>,
) -> (Seq<char>, Seq<char>) {
    match system {
        Some((rm, rmod)) => (
            if looks_fake(manufacturer) {
                rm
            } else {
                manufacturer
            },
            if looks_fake(model) {
                rmod
            } else {
                model
            },
        ),
        None => (manufacturer, model),
    }
}

/// The reported (manufacturer, model) (see `resolved_identity`).
pub fn resolve_device_identity(manufacturer: String, model: String, system: Option<(String, String)>) -> (r: (
    String,
    String,
))
    ensures
        (r.0@, r.1@) == resolved_identity(
            manufacturer@,
            model@,
            match system {
                Some((a, b)) => Some((a@, b@)),
                None => None,
            },
        ),
{
    match system {
        Some((rm, rmod)) => {
            let m = if is_placeholder(manufacturer.as_str()) {
                rm
            } else {
                manufacturer
            };
            let d = if is_placeholder(model.as_str()) {
                rmod
            } else {
                model
            };
            (m, d)
        },
        None => (manufacturer, model),
    }
}

} // verus!
