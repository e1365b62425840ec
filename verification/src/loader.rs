//! Boot loader script maintenance: the rules that keep `loader.sh` starting
//! the backend and the user's init script, and free of the retired OTA hook.

use vstd::prelude::*;
use vstd::string::*;
use crate::text::{
    chars_of, contains, contains_exec, lines, lines_of, replace_all, replace_all_exec, seqs_of, starts_with,
    starts_with_exec, string_of, sub_vec, trim, trim_bounds, index_of_char, lemma_index_of_char, lemma_index_of_char_is, is_ws,
    trim_start, trim_end, strip_cr, lemma_trim_start_first,
};

verus! {

/// The stock loader script.
pub open spec fn default_loader() -> Seq<char> {
    "#!/bin/sh\n/home/root/ttyd/start.sh &\n/home/root/udx710 -p 80 &\n"@
}

/// The command with which the loader starts the user's init script.
pub open spec fn init_command() -> Seq<char> {
    "sh /home/root/init.sh &"@
}

/// `s` with every CRLF turned into LF.
pub open spec fn normalized(s: Seq<char>) -> Seq<char> {
    replace_all(s, "\r\n"@, "\n"@)
}

/// A line is a comment or blank once trimmed.
pub open spec fn inert_line(t: Seq<char>) -> bool {
    t.len() == 0 || t[0] == '#'
}

/// The line starts the retired OTA script.
pub open spec fn ota_hook_line(line: Seq<char>) -> bool {
    let t = trim(line);
    !inert_line(t) && (t == "sh /home/root/ota.sh &"@ || t == "/home/root/ota.sh"@ || t
        == "/home/root/ota.sh &"@ || starts_with(t, "sh /home/root/ota.sh"@))
}

/// The line starts the user's init script.
pub open spec fn init_hook_line(line: Seq<char>) -> bool {
    let t = trim(line);
    !inert_line(t) && (t == init_command() || t == "/home/root/init.sh"@ || t
        == "/home/root/init.sh &"@ || starts_with(t, "sh /home/root/init.sh"@))
}

/// Some line of the text starts the retired OTA script.
pub open spec fn has_ota_hook(s: Seq<char>) -> bool {
    exists|i: int| 0 <= i < lines(s).len() && ota_hook_line(#[trigger] lines(s)[i])
}

/// Some line of the text starts the user's init script.
pub open spec fn has_init_hook(s: Seq<char>) -> bool {
    exists|i: int| 0 <= i < lines(s).len() && init_hook_line(#[trigger] lines(s)[i])
}

/// The lines that are not OTA hook lines, in order.
pub open spec fn without_ota_lines(ls: Seq<Seq<char>>) -> Seq<Seq<char>>
    decreases ls.len(),
{
    if ls.len() == 0 {
        seq![]
    } else if ota_hook_line(ls.last()) {
        without_ota_lines(ls.drop_last())
    } else {
        without_ota_lines(ls.drop_last()).push(ls.last())
    }
}

/// The lines without the blank lines at their end.
pub open spec fn drop_trailing_blank(ls: Seq<Seq<char>>) -> Seq<Seq<char>>
    decreases ls.len(),
{
    if ls.len() > 0 && trim(ls.last()).len() == 0 {
        drop_trailing_blank(ls.drop_last())
    } else {
        ls
    }
}

/// The lines joined by `sep`.
pub open spec fn join(ls: Seq<Seq<char>>, sep: Seq<char>) -> Seq<char>
    decreases ls.len(),
{
    if ls.len() == 0 {
        seq![]
    } else if ls.len() == 1 {
        ls[0]
    } else {
        join(ls.drop_last(), sep) + sep + ls.last()
    }
}

/// The text without the `c` characters at its end.
pub open spec fn strip_trailing(s: Seq<char>, c: char) -> Seq<char>
    decreases s.len(),
{
    if s.len() > 0 && s.last() == c {
        strip_trailing(s.drop_last(), c)
    } else {
        s
    }
}

/// Loader text with the OTA hook lines and the trailing blank lines removed,
/// each remaining line ended by LF.
pub open spec fn loader_without_ota(content: Seq<char>) -> Seq<char> {
    let kept = drop_trailing_blank(without_ota_lines(lines(normalized(content))));
    if kept.len() == 0 {
        seq![]
    } else {
        join(kept, "\n"@) + "\n"@
    }
}

/// Loader text with the init hook present once its own hook is found, or
/// appended after the (possibly default) script otherwise.
pub open spec fn loader_with_init(content: Seq<char>) -> Seq<char> {
    let n = normalized(content);
    if has_init_hook(n) {
        strip_trailing(n, '\n') + "\n"@
    } else {
        let base = if trim(n).len() == 0 {
            strip_trailing(default_loader(), '\n')
        } else {
            strip_trailing(n, '\n')
        };
        base + "\n"@ + init_command() + "\n"@
    }
}

/// Marks of the A/B OTA bootstrap loader.
pub open spec fn uses_ab_bootstrap(content: Seq<char>) -> bool {
    contains(content, "UDX710 OTA bootstrap"@) || contains(
        content,
        "OTA_STATE_FILE=\"/home/root/ota/state.env\""@,
    )
}

/// Trimmed non-blank lines, comments dropped except the shebang.
pub open spec fn script_lines(ls: Seq<Seq<char>>) -> Seq<Seq<char>>
    decreases ls.len(),
{
    if ls.len() == 0 {
        seq![]
    } else {
        let t = trim(ls.last());
        let rest = script_lines(ls.drop_last());
        if t.len() == 0 || (t[0] == '#' && t != "#!/bin/sh"@) {
            rest
        } else {
            rest.push(t)
        }
    }
}

/// The loader is the stock script, possibly followed by init hook commands.
pub open spec fn plain_legacy_bootstrap(content: Seq<char>) -> bool {
    let sl = script_lines(lines(content));
    &&& sl.len() >= 3
    &&& sl[0] == "#!/bin/sh"@
    &&& sl[1] == "/home/root/ttyd/start.sh &"@
    &&& sl[2] == "/home/root/udx710 -p 80 &"@
    &&& forall|i: int| 3 <= i < sl.len() ==> sl[i] == init_command()
}

/// Some line of the text is, trimmed, the backend start command.
pub open spec fn has_backend_line(s: Seq<char>) -> bool {
    exists|i: int|
        0 <= i < lines(s).len() && trim(#[trigger] lines(s)[i]) == "/home/root/udx710 -p 80 &"@
}

/// The loader text written back when the hooks are (re)installed.
pub open spec fn installed_loader(current: Seq<char>) -> Seq<char> {
    let stripped = loader_without_ota(current);
    let base = if uses_ab_bootstrap(current) || has_ota_hook(current) || !has_backend_line(
        stripped,
    ) {
        default_loader()
    } else if trim(current).len() == 0 || plain_legacy_bootstrap(current) {
        default_loader()
    } else {
        stripped
    };
    loader_with_init(base)
}

/// Two texts are equal.
pub fn same_chars(a: &[char], b: &[char]) -> (r: bool)
    ensures
        r == (a@ == b@),
{
    if a.len() != b.len() {
        return false;
    }
    let r = starts_with_exec(a, b);
    assert(a@.subrange(0, b@.len() as int) =~= a@);
    r
}

/// The trimmed text.
pub fn trimmed(s: &[char]) -> (t: Vec<char>)
    ensures
        t@ == trim(s@),
{
    let (lo, hi) = trim_bounds(s);
    sub_vec(s, lo, hi)
}

/// CRLF line ends turned into LF.
pub fn normalize_chars(s: &[char]) -> (r: Vec<char>)
    ensures
        r@ == normalized(s@),
{
    let pat = chars_of("\r\n");
    let rep = chars_of("\n");
    proof {
        reveal_strlit("\r\n");
    }
    replace_all_exec(s, pat.as_slice(), rep.as_slice())
}

/// CRLF line ends turned into LF.
pub fn normalize_newlines(content: &str) -> (r: String)
    ensures
        r@ == normalized(content@),
{
    let v = chars_of(content);
    let n = normalize_chars(v.as_slice());
    string_of(n.as_slice())
}

/// The line starts the retired OTA script.
pub fn ota_hook_chars(line: &[char]) -> (r: bool)
    ensures
        r == ota_hook_line(line@),
{
    let t = trimmed(line);
    if t.len() == 0 || t[0] == '#' {
        return false;
    }
    let a = chars_of("sh /home/root/ota.sh &");
    let b = chars_of("/home/root/ota.sh");
    let c = chars_of("/home/root/ota.sh &");
    let d = chars_of("sh /home/root/ota.sh");
    same_chars(t.as_slice(), a.as_slice()) || same_chars(t.as_slice(), b.as_slice()) || same_chars(
        t.as_slice(),
        c.as_slice(),
    ) || starts_with_exec(t.as_slice(), d.as_slice())
}

/// The line starts the user's init script.
pub fn init_hook_chars(line: &[char]) -> (r: bool)
    ensures
        r == init_hook_line(line@),
{
    let t = trimmed(line);
    if t.len() == 0 || t[0] == '#' {
        return false;
    }
    let a = chars_of("sh /home/root/init.sh &");
    let b = chars_of("/home/root/init.sh");
    let c = chars_of("/home/root/init.sh &");
    let d = chars_of("sh /home/root/init.sh");
    same_chars(t.as_slice(), a.as_slice()) || same_chars(t.as_slice(), b.as_slice()) || same_chars(
        t.as_slice(),
        c.as_slice(),
    ) || starts_with_exec(t.as_slice(), d.as_slice())
}

/// The line (of a loader script) starts the retired OTA script.
pub fn is_ota_hook_line(line: &str) -> (r: bool)
    ensures
        r == ota_hook_line(line@),
{
    let v = chars_of(line);
    ota_hook_chars(v.as_slice())
}

/// The line (of a loader script) starts the user's init script.
pub fn is_init_hook_line(line: &str) -> (r: bool)
    ensures
        r == init_hook_line(line@),
{
    let v = chars_of(line);
    init_hook_chars(v.as_slice())
}

fn any_ota_hook(ls: &Vec<Vec<char>>) -> (r: bool)
    ensures
        r == exists|i: int| 0 <= i < ls@.len() && ota_hook_line(#[trigger] seqs_of(ls@)[i]),
{
    let mut i: usize = 0;
    while i < ls.len()
        invariant
            i <= ls@.len(),
            forall|j: int| 0 <= j < i ==> !ota_hook_line(#[trigger] seqs_of(ls@)[j]),
        decreases ls@.len() - i,
    {
        if ota_hook_chars(ls[i].as_slice()) {
            assert(ota_hook_line(seqs_of(ls@)[i as int]));
            return true;
        }
        i = i + 1;
    }
    false
}

fn any_init_hook(ls: &Vec<Vec<char>>) -> (r: bool)
    ensures
        r == exists|i: int| 0 <= i < ls@.len() && init_hook_line(#[trigger] seqs_of(ls@)[i]),
{
    let mut i: usize = 0;
    while i < ls.len()
        invariant
            i <= ls@.len(),
            forall|j: int| 0 <= j < i ==> !init_hook_line(#[trigger] seqs_of(ls@)[j]),
        decreases ls@.len() - i,
    {
        if init_hook_chars(ls[i].as_slice()) {
            assert(init_hook_line(seqs_of(ls@)[i as int]));
            return true;
        }
        i = i + 1;
    }
    false
}

/// Some line of the loader starts the retired OTA script.
pub fn loader_contains_ota_command(content: &str) -> (r: bool)
    ensures
        r == has_ota_hook(content@),
{
    let v = chars_of(content);
    let ls = lines_of(v.as_slice());
    any_ota_hook(&ls)
}

/// Some line of the loader starts the user's init script.
pub fn loader_contains_init_command(content: &str) -> (r: bool)
    ensures
        r == has_init_hook(content@),
{
    let v = chars_of(content);
    let ls = lines_of(v.as_slice());
    any_init_hook(&ls)
}


/// Appends the characters of `s`.
pub fn extend_chars(out: &mut Vec<char>, s: &[char])
    ensures
        final(out)@ == old(out)@ + s@,
{
    let mut i: usize = 0;
    while i < s.len()
        invariant
            i <= s@.len(),
            out@ == old(out)@ + s@.subrange(0, i as int),
        decreases s@.len() - i,
    {
        out.push(s[i]);
        i = i + 1;
        assert(out@ =~= old(out)@ + s@.subrange(0, i as int));
    }
    assert(s@.subrange(0, s@.len() as int) =~= s@);
}

/// The text without the `c` characters at its end.
pub fn strip_trailing_exec(s: &[char], c: char) -> (r: Vec<char>)
    ensures
        r@ == strip_trailing(s@, c),
{
    let mut j = s.len();
    assert(s@.subrange(0, j as int) =~= s@);
    while j > 0 && s[j - 1] == c
        invariant
            j <= s@.len(),
            strip_trailing(s@, c) == strip_trailing(s@.subrange(0, j as int), c),
        decreases j,
    {
        assert(s@.subrange(0, j as int).drop_last() =~= s@.subrange(0, j - 1));
        j = j - 1;
    }
    sub_vec(s, 0, j)
}

/// The lines joined by `sep`.
pub fn join_chars(ls: &Vec<Vec<char>>, sep: char) -> (r: Vec<char>)
    ensures
        r@ == join(seqs_of(ls@), seq![sep]),
{
    let mut out: Vec<char> = Vec::new();
    if ls.len() == 0 {
        return out;
    }
    extend_chars(&mut out, ls[0].as_slice());
    let mut i: usize = 1;
    assert(seqs_of(ls@).subrange(0, 1) =~= seq![ls@[0]@]);
    while i < ls.len()
        invariant
            1 <= i <= ls@.len(),
            out@ == join(seqs_of(ls@).subrange(0, i as int), seq![sep]),
        decreases ls@.len() - i,
    {
        let ghost prev = seqs_of(ls@).subrange(0, i as int);
        out.push(sep);
        extend_chars(&mut out, ls[i].as_slice());
        assert(seqs_of(ls@).subrange(0, i + 1).drop_last() =~= prev);
        assert(out@ =~= join(prev, seq![sep]) + seq![sep] + ls@[i as int]@);
        i = i + 1;
    }
    assert(seqs_of(ls@).subrange(0, ls@.len() as int) =~= seqs_of(ls@));
    out
}

fn keep_non_ota(ls: &Vec<Vec<char>>) -> (r: Vec<Vec<char>>)
    ensures
        seqs_of(r@) == without_ota_lines(seqs_of(ls@)),
{
    let mut out: Vec<Vec<char>> = Vec::new();
    let mut i: usize = 0;
    while i < ls.len()
        invariant
            i <= ls@.len(),
            seqs_of(out@) == without_ota_lines(seqs_of(ls@).subrange(0, i as int)),
        decreases ls@.len() - i,
    {
        let ghost prev = seqs_of(ls@).subrange(0, i as int);
        assert(seqs_of(ls@).subrange(0, i + 1).drop_last() =~= prev);
        if !ota_hook_chars(ls[i].as_slice()) {
            let ghost o = out@;
            let line = sub_vec(ls[i].as_slice(), 0, ls[i].len());
            out.push(line);
            assert(ls@[i as int]@.subrange(0, ls@[i as int]@.len() as int) =~= ls@[i as int]@);
            assert(seqs_of(out@) =~= seqs_of(o).push(ls@[i as int]@));
        }
        i = i + 1;
    }
    assert(seqs_of(ls@).subrange(0, ls@.len() as int) =~= seqs_of(ls@));
    out
}

/// Loader text with every OTA hook line and the trailing blank lines
/// removed; CRLF becomes LF and each kept line ends with LF.
pub fn remove_ota_command_from_loader(content: &str) -> (r: String)
    ensures
        r@ == loader_without_ota(content@),
{
    let v = chars_of(content);
    let n = normalize_chars(v.as_slice());
    let ls = lines_of(n.as_slice());
    let mut kept = keep_non_ota(&ls);
    while kept.len() > 0 && trimmed(kept[kept.len() - 1].as_slice()).len() == 0
        invariant
            drop_trailing_blank(seqs_of(kept@)) == drop_trailing_blank(
                without_ota_lines(lines(normalized(content@))),
            ),
        decreases kept@.len(),
    {
        let ghost o = kept@;
        kept.pop();
        assert(seqs_of(kept@) =~= seqs_of(o).drop_last());
    }
    if kept.len() == 0 {
        return String::new();
    }
    assert(seqs_of(kept@).last() == kept@[kept@.len() - 1]@);
    assert("\n"@ =~= seq!['\n']) by {
        reveal_strlit("\n");
    }
    assert(drop_trailing_blank(seqs_of(kept@)) == seqs_of(kept@));
    let mut joined = join_chars(&kept, '\n');
    joined.push('\n');
    proof {
        reveal_strlit("\n");
    }
    string_of(joined.as_slice())
}

/// Loader text with the init hook: kept as is (with one final LF) when a
/// hook line is present, appended otherwise.
pub fn append_init_chars(content: &[char]) -> (r: Vec<char>)
    ensures
        r@ == loader_with_init(content@),
{
    let n = normalize_chars(content);
    let ls = lines_of(n.as_slice());
    proof {
        reveal_strlit("\n");
    }
    if any_init_hook(&ls) {
        let mut out = strip_trailing_exec(n.as_slice(), '\n');
        out.push('\n');
        return out;
    }
    let t = trimmed(n.as_slice());
    let mut out = if t.len() == 0 {
        let d = chars_of("#!/bin/sh\n/home/root/ttyd/start.sh &\n/home/root/udx710 -p 80 &\n");
        strip_trailing_exec(d.as_slice(), '\n')
    } else {
        strip_trailing_exec(n.as_slice(), '\n')
    };
    out.push('\n');
    let cmd = chars_of("sh /home/root/init.sh &");
    extend_chars(&mut out, cmd.as_slice());
    out.push('\n');
    out
}

/// Loader text with the init hook (see `append_init_chars`).
pub fn append_init_command_to_loader(content: &str) -> (r: String)
    ensures
        r@ == loader_with_init(content@),
{
    let v = chars_of(content);
    let out = append_init_chars(v.as_slice());
    string_of(out.as_slice())
}

/// The loader carries the marks of the A/B OTA bootstrap.
pub fn loader_uses_ab_bootstrap(content: &str) -> (r: bool)
    ensures
        r == uses_ab_bootstrap(content@),
{
    let v = chars_of(content);
    let a = chars_of("UDX710 OTA bootstrap");
    let b = chars_of("OTA_STATE_FILE=\"/home/root/ota/state.env\"");
    contains_exec(v.as_slice(), a.as_slice()) || contains_exec(v.as_slice(), b.as_slice())
}

fn script_lines_exec(ls: &Vec<Vec<char>>) -> (r: Vec<Vec<char>>)
    ensures
        seqs_of(r@) == script_lines(seqs_of(ls@)),
{
    let shebang = chars_of("#!/bin/sh");
    let mut out: Vec<Vec<char>> = Vec::new();
    let mut i: usize = 0;
    while i < ls.len()
        invariant
            i <= ls@.len(),
            shebang@ == "#!/bin/sh"@,
            seqs_of(out@) == script_lines(seqs_of(ls@).subrange(0, i as int)),
        decreases ls@.len() - i,
    {
        let ghost prev = seqs_of(ls@).subrange(0, i as int);
        assert(seqs_of(ls@).subrange(0, i + 1).drop_last() =~= prev);
        let t = trimmed(ls[i].as_slice());
        if !(t.len() == 0 || (t[0] == '#' && !same_chars(t.as_slice(), shebang.as_slice()))) {
            let ghost o = out@;
            let ghost tv = t@;
            out.push(t);
            assert(seqs_of(out@) =~= seqs_of(o).push(tv));
        }
        i = i + 1;
    }
    assert(seqs_of(ls@).subrange(0, ls@.len() as int) =~= seqs_of(ls@));
    out
}

/// The loader is the stock script, possibly followed by init hook commands.
pub fn loader_is_plain_legacy_bootstrap(content: &str) -> (r: bool)
    ensures
        r == plain_legacy_bootstrap(content@),
{
    let v = chars_of(content);
    let ls = lines_of(v.as_slice());
    let sl = script_lines_exec(&ls);
    if sl.len() < 3 {
        return false;
    }
    let l0 = chars_of("#!/bin/sh");
    let l1 = chars_of("/home/root/ttyd/start.sh &");
    let l2 = chars_of("/home/root/udx710 -p 80 &");
    assert(seqs_of(sl@)[0] == sl@[0]@);
    assert(seqs_of(sl@)[1] == sl@[1]@);
    assert(seqs_of(sl@)[2] == sl@[2]@);
    if !same_chars(sl[0].as_slice(), l0.as_slice()) {
        return false;
    }
    if !same_chars(sl[1].as_slice(), l1.as_slice()) || !same_chars(
        sl[2].as_slice(),
        l2.as_slice(),
    ) {
        return false;
    }
    let cmd = chars_of("sh /home/root/init.sh &");
    let mut i: usize = 3;
    while i < sl.len()
        invariant
            3 <= i <= sl@.len(),
            seqs_of(sl@) == script_lines(lines(content@)),
            seqs_of(sl@)[0] == "#!/bin/sh"@,
            seqs_of(sl@)[1] == "/home/root/ttyd/start.sh &"@,
            seqs_of(sl@)[2] == "/home/root/udx710 -p 80 &"@,
            cmd@ == init_command(),
            forall|j: int| 3 <= j < i ==> seqs_of(sl@)[j] == init_command(),
        decreases sl@.len() - i,
    {
        assert(seqs_of(sl@)[i as int] == sl@[i as int]@);
        if !same_chars(sl[i].as_slice(), cmd.as_slice()) {
            assert(seqs_of(sl@)[i as int] != init_command());
            return false;
        }
        i = i + 1;
    }
    true
}

fn any_backend_line(ls: &Vec<Vec<char>>) -> (r: bool)
    ensures
        r == exists|i: int|
            0 <= i < ls@.len() && trim(#[trigger] seqs_of(ls@)[i]) == "/home/root/udx710 -p 80 &"@,
{
    let target = chars_of("/home/root/udx710 -p 80 &");
    let mut i: usize = 0;
    while i < ls.len()
        invariant
            i <= ls@.len(),
            target@ == "/home/root/udx710 -p 80 &"@,
            forall|j: int|
                0 <= j < i ==> trim(#[trigger] seqs_of(ls@)[j]) != "/home/root/udx710 -p 80 &"@,
        decreases ls@.len() - i,
    {
        let t = trimmed(ls[i].as_slice());
        if same_chars(t.as_slice(), target.as_slice()) {
            assert(trim(seqs_of(ls@)[i as int]) == "/home/root/udx710 -p 80 &"@);
            return true;
        }
        i = i + 1;
    }
    false
}

/// The loader text to write back when installing the init hook: the stock
/// script when the current one is the A/B bootstrap, holds the OTA hook, lacks
/// the backend command, is blank or is the plain legacy script; otherwise the
/// current script without OTA hooks; in both cases with the init hook.
pub fn loader_with_init_hook(current: &str) -> (r: String)
    ensures
        r@ == installed_loader(current@),
{
    let stripped = remove_ota_command_from_loader(current);
    let sv = chars_of(stripped.as_str());
    let sls = lines_of(sv.as_slice());
    let missing_backend = !any_backend_line(&sls);
    let cv = chars_of(current);
    let ct = trimmed(cv.as_slice());
    let base: Vec<char> = if loader_uses_ab_bootstrap(current) || loader_contains_ota_command(
        current,
    ) || missing_backend {
        chars_of("#!/bin/sh\n/home/root/ttyd/start.sh &\n/home/root/udx710 -p 80 &\n")
    } else if ct.len() == 0 || loader_is_plain_legacy_bootstrap(current) {
        chars_of("#!/bin/sh\n/home/root/ttyd/start.sh &\n/home/root/udx710 -p 80 &\n")
    } else {
        sv
    };
    let out = append_init_chars(base.as_slice());
    string_of(out.as_slice())
}


/// The command line that starts the user's init script.
pub const INIT_SCRIPT_LOADER_COMMAND: &'static str = "sh /home/root/init.sh &";

/// The text holds no carriage return.
pub open spec fn no_cr(s: Seq<char>) -> bool {
    forall|i: int| 0 <= i < s.len() ==> s[i] != '\r'
}

/// `s[i..j]` is a whole line of `s`: it holds no line break, and a line break
/// or an end of `s` stands on either side of it.
pub open spec fn is_line_span(s: Seq<char>, i: int, j: int) -> bool {
    &&& 0 <= i <= j <= s.len()
    &&& (i == 0 || s[i - 1] == '\n')
    &&& (j == s.len() || s[j] == '\n')
    &&& forall|k: int| i <= k < j ==> s[k] != '\n'
}

proof fn lemma_normalized_no_cr(s: Seq<char>)
    requires
        no_cr(s),
    ensures
        normalized(s) == s,
    decreases s.len(),
{
    reveal_strlit("\r\n");
    if s.len() >= 2 {
        assert(s.subrange(0, 2)[0] == s[0]);
        assert(s.subrange(0, 2) != "\r\n"@);
        lemma_normalized_no_cr(s.drop_first());
        assert(seq![s[0]] + s.drop_first() =~= s);
    }
}

/// A non-empty whole line of a text without carriage returns is one of its lines.
proof fn lemma_span_is_line(s: Seq<char>, i: int, j: int)
    requires
        no_cr(s),
        is_line_span(s, i, j),
        i < j,
    ensures
        exists|k: int| 0 <= k < lines(s).len() && #[trigger] lines(s)[k] == s.subrange(i, j),
    decreases s.len(),
{
    let k0 = index_of_char(s, '\n');
    lemma_index_of_char(s, '\n');
    if i == 0 {
        if k0 < 0 {
            assert(s.subrange(0, j) =~= s);
            assert(lines(s)[0] == s.subrange(i, j));
        } else {
            assert(k0 == j);
            assert(lines(s)[0] == s.subrange(i, j));
        }
    } else {
        assert(0 <= k0 < i);
        let t = s.subrange(k0 + 1, s.len() as int);
        assert(is_line_span(t, i - k0 - 1, j - k0 - 1));
        lemma_span_is_line(t, i - k0 - 1, j - k0 - 1);
        let k = choose|k: int|
            0 <= k < lines(t).len() && #[trigger] lines(t)[k] == t.subrange(i - k0 - 1, j - k0 - 1);
        assert(t.subrange(i - k0 - 1, j - k0 - 1) =~= s.subrange(i, j));
        assert(lines(s)[k + 1] == lines(t)[k]);
    }
}

/// Every line of a text without carriage returns is a whole line of it.
proof fn lemma_line_is_span(s: Seq<char>, k: int)
    requires
        no_cr(s),
        0 <= k < lines(s).len(),
    ensures
        exists|i: int, j: int| #[trigger] is_line_span(s, i, j) && lines(s)[k] == s.subrange(i, j),
    decreases s.len(),
{
    let k0 = index_of_char(s, '\n');
    lemma_index_of_char(s, '\n');
    if k0 < 0 {
        assert(s.subrange(0, s.len() as int) =~= s);
        assert(is_line_span(s, 0, s.len() as int));
    } else if k == 0 {
        assert(is_line_span(s, 0, k0));
    } else {
        let t = s.subrange(k0 + 1, s.len() as int);
        assert(lines(s)[k] == lines(t)[k - 1]);
        lemma_line_is_span(t, k - 1);
        let (i, j) = choose|i: int, j: int|
            #[trigger] is_line_span(t, i, j) && lines(t)[k - 1] == t.subrange(i, j);
        assert forall|x: int| i + k0 + 1 <= x < j + k0 + 1 implies s[x] != '\n' by {
            assert(s[x] == t[x - k0 - 1]);
        }
        if i > 0 {
            assert(s[i + k0] == t[i - 1]);
        }
        if j < t.len() {
            assert(s[j + k0 + 1] == t[j]);
        }
        assert(is_line_span(s, i + k0 + 1, j + k0 + 1));
        assert(t.subrange(i, j) =~= s.subrange(i + k0 + 1, j + k0 + 1));
    }
}

proof fn lemma_strip_trailing(s: Seq<char>, c: char)
    ensures
        strip_trailing(s, c).len() <= s.len(),
        strip_trailing(s, c) == s.subrange(0, strip_trailing(s, c).len() as int),
        forall|k: int| strip_trailing(s, c).len() <= k < s.len() ==> s[k] == c,
        strip_trailing(s, c).len() > 0 ==> strip_trailing(s, c).last() != c,
        strip_trailing(strip_trailing(s, c), c) == strip_trailing(s, c),
    decreases s.len(),
{
    if s.len() > 0 && s.last() == c {
        lemma_strip_trailing(s.drop_last(), c);
        assert forall|k: int| strip_trailing(s, c).len() <= k < s.len() implies s[k] == c by {
            if k < s.len() - 1 {
                assert(s[k] == s.drop_last()[k]);
            }
        }
        assert(s.drop_last().subrange(0, strip_trailing(s, c).len() as int) =~= s.subrange(
            0,
            strip_trailing(s, c).len() as int,
        ));
    } else {
        assert(s.subrange(0, s.len() as int) =~= s);
    }
}

/// The init command, as a line, starts the init script.
proof fn lemma_init_command_is_hook()
    ensures
        init_hook_line(init_command()),
        init_command().len() == 23,
        forall|k: int| 0 <= k < 23 ==> init_command()[k] != '\n' && init_command()[k] != '\r',
        init_command()[22] == '&',
{
    reveal_strlit("sh /home/root/init.sh &");
    let s = init_command();
    assert(!is_ws(s[0]));
    assert(trim_start(s) == s);
    assert(!is_ws(s.last()));
    assert(trim_end(s) == s);
}

/// After the init command was added, a final LF is all that the next pass adds
/// or removes.
proof fn lemma_with_init_has_hook(c: Seq<char>)
    requires
        no_cr(c),
    ensures
        no_cr(loader_with_init(c)),
        has_init_hook(loader_with_init(c)),
        loader_with_init(c).len() > 0,
        loader_with_init(c).last() == '\n',
        strip_trailing(loader_with_init(c), '\n') + "\n"@ == loader_with_init(c),
{
    reveal_strlit("\n");
    lemma_normalized_no_cr(c);
    let r = loader_with_init(c);
    let st = strip_trailing(c, '\n');
    lemma_strip_trailing(c, '\n');
    if has_init_hook(c) {
        assert(r == st + seq!['\n']);
        let k = choose|k: int| 0 <= k < lines(c).len() && init_hook_line(#[trigger] lines(c)[k]);
        lemma_line_is_span(c, k);
        let (i, j) = choose|i: int, j: int|
            #[trigger] is_line_span(c, i, j) && lines(c)[k] == c.subrange(i, j);
        if i == j {
            assert(c.subrange(i, j) =~= Seq::<char>::empty());
            assert(trim_start(Seq::<char>::empty()) == Seq::<char>::empty());
            assert(trim(c.subrange(i, j)).len() == 0);
        }
        assert(i < j);
        let m = st.len() as int;
        if j > m {
            assert(c[j - 1] == '\n');
            assert(c.subrange(i, j)[j - 1 - i] == c[j - 1]);
        }
        assert(j <= m);
        assert(is_line_span(r, i, j));
        assert(r.subrange(i, j) =~= c.subrange(i, j));
        lemma_span_is_line(r, i, j);
        let k2 = choose|k2: int| 0 <= k2 < lines(r).len() && #[trigger] lines(r)[k2] == r.subrange(i, j);
        assert(init_hook_line(lines(r)[k2]));
        assert(r.drop_last() =~= st);
        assert(strip_trailing(r, '\n') == strip_trailing(st, '\n'));
        if st.len() > 0 {
            assert(strip_trailing(st, '\n') == st);
        }
        assert(strip_trailing(r, '\n') + "\n"@ =~= r);
    } else {
        let base = if trim(c).len() == 0 {
            strip_trailing(default_loader(), '\n')
        } else {
            st
        };
        reveal_strlit("#!/bin/sh\n/home/root/ttyd/start.sh &\n/home/root/udx710 -p 80 &\n");
        lemma_strip_trailing(default_loader(), '\n');
        assert(no_cr(base)) by {
            assert forall|k: int| 0 <= k < base.len() implies base[k] != '\r' by {
                if trim(c).len() == 0 {
                    assert(base[k] == default_loader()[k]);
                } else {
                    assert(base[k] == c[k]);
                }
            }
        }
        lemma_init_command_is_hook();
        let cmd = init_command();
        assert(r == base + seq!['\n'] + cmd + seq!['\n']);
        let i: int = base.len() as int + 1;
        let j: int = i + 23;
        assert(is_line_span(r, i, j));
        assert(r.subrange(i, j) =~= cmd);
        lemma_span_is_line(r, i, j);
        let k2 = choose|k2: int| 0 <= k2 < lines(r).len() && #[trigger] lines(r)[k2] == r.subrange(i, j);
        assert(init_hook_line(lines(r)[k2]));
        assert(r.drop_last().last() == '&');
        assert(strip_trailing(r.drop_last(), '\n') == r.drop_last());
        assert(strip_trailing(r, '\n') == r.drop_last());
        assert(strip_trailing(r, '\n') + "\n"@ =~= r);
    }
}

proof fn lemma_trim_start_blank(s: Seq<char>)
    ensures
        trim_start(s).len() == 0 <==> forall|k: int| 0 <= k < s.len() ==> is_ws(#[trigger] s[k]),
    decreases s.len(),
{
    if s.len() > 0 {
        lemma_trim_start_blank(s.drop_first());
        if is_ws(s[0]) {
            assert forall|k: int| 1 <= k < s.len() implies s[k] == s.drop_first()[k - 1] by {}
        }
    }
}

proof fn lemma_trim_end_blank(s: Seq<char>)
    ensures
        trim_end(s).len() == 0 <==> forall|k: int| 0 <= k < s.len() ==> is_ws(#[trigger] s[k]),
    decreases s.len(),
{
    if s.len() > 0 {
        lemma_trim_end_blank(s.drop_last());
        if is_ws(s.last()) {
            assert forall|k: int| 0 <= k < s.len() - 1 implies s[k] == s.drop_last()[k] by {}
        }
    }
}

/// A text trims to nothing exactly when all its characters are whitespace.
proof fn lemma_trim_blank(s: Seq<char>)
    ensures
        trim(s).len() == 0 <==> forall|k: int| 0 <= k < s.len() ==> is_ws(#[trigger] s[k]),
{
    let t = trim_start(s);
    lemma_trim_start_blank(s);
    lemma_trim_end_blank(t);
    lemma_trim_start_first(s);
    if t.len() == 0 {
        lemma_trim_end_blank(t);
    }
}

/// A blank text has no line that starts the init script.
proof fn lemma_blank_has_no_init_hook(c: Seq<char>)
    requires
        no_cr(c),
        trim(c).len() == 0,
    ensures
        !has_init_hook(c),
{
    lemma_trim_blank(c);
    if has_init_hook(c) {
        let k = choose|k: int| 0 <= k < lines(c).len() && init_hook_line(#[trigger] lines(c)[k]);
        lemma_line_is_span(c, k);
        let (i, j) = choose|i: int, j: int|
            #[trigger] is_line_span(c, i, j) && lines(c)[k] == c.subrange(i, j);
        let l = c.subrange(i, j);
        assert forall|x: int| 0 <= x < l.len() implies is_ws(#[trigger] l[x]) by {
            assert(l[x] == c[i + x]);
        }
        lemma_trim_blank(l);
        assert(!init_hook_line(l));
    }
}

/// Adding the init hook leaves a script that starts the init script and ends
/// with one line feed, and a second pass gives it back unchanged. A script
/// that already starts it is kept as is, with its trailing line feeds made
/// one; a blank script becomes the stock loader followed by the hook line.
/// (A carriage return that is not followed by a line feed would turn into a
/// line break on the second pass, so the text is taken without carriage
/// returns.)
pub proof fn lemma_append_init_idempotent(c: Seq<char>)
    requires
        no_cr(c),
    ensures
        has_init_hook(loader_with_init(c)),
        loader_with_init(c).len() > 0,
        loader_with_init(c).last() == '\n',
        loader_with_init(loader_with_init(c)) == loader_with_init(c),
        has_init_hook(c) ==> loader_with_init(c) == strip_trailing(c, '\n') + "\n"@,
        trim(c).len() == 0 ==> loader_with_init(c) == default_loader() + init_command() + "\n"@,
{
    lemma_with_init_has_hook(c);
    lemma_normalized_no_cr(loader_with_init(c));
    lemma_normalized_no_cr(c);
    if trim(c).len() == 0 {
        lemma_blank_has_no_init_hook(c);
        reveal_strlit("#!/bin/sh\n/home/root/ttyd/start.sh &\n/home/root/udx710 -p 80 &\n");
        reveal_strlit("\n");
        let d = default_loader();
        assert(d.last() == '\n');
        assert(d.drop_last().last() == '&');
        assert(strip_trailing(d.drop_last(), '\n') == d.drop_last());
        assert(strip_trailing(d, '\n') == d.drop_last());
        assert(strip_trailing(d, '\n') + "\n"@ =~= d);
        assert(loader_with_init(c) =~= default_loader() + init_command() + "\n"@);
    }
}


/// A text without line breaks.
pub open spec fn no_nl(s: Seq<char>) -> bool {
    forall|i: int| 0 <= i < s.len() ==> s[i] != '\n'
}

proof fn lemma_trim_drop_ws_last(s: Seq<char>)
    requires
        s.len() > 0,
        is_ws(s.last()),
    ensures
        trim(s.drop_last()) == trim(s),
    decreases s.len(),
{
    if is_ws(s[0]) {
        if s.len() == 1 {
            assert(s.drop_first() =~= Seq::<char>::empty());
            assert(s.drop_last() =~= Seq::<char>::empty());
        } else {
            let d = s.drop_first();
            assert(d.last() == s.last());
            lemma_trim_drop_ws_last(d);
            assert(s.drop_last().drop_first() =~= d.drop_last());
            assert(s.drop_last()[0] == s[0]);
        }
    } else {
        assert(s.len() > 1);
        assert(s.drop_last()[0] == s[0]);
    }
}

/// Dropping the carriage return of a line changes neither hook test.
proof fn lemma_strip_cr_hooks(l: Seq<char>)
    ensures
        ota_hook_line(strip_cr(l)) == ota_hook_line(l),
        init_hook_line(strip_cr(l)) == init_hook_line(l),
{
    if l.len() > 0 && l.last() == '\r' {
        assert(is_ws(l.last()));
        lemma_trim_drop_ws_last(l);
    }
}

/// The lines of a text hold no line break.
proof fn lemma_lines_no_nl(s: Seq<char>)
    ensures
        forall|k: int| 0 <= k < lines(s).len() ==> no_nl(#[trigger] lines(s)[k]),
    decreases s.len(),
{
    let k0 = index_of_char(s, '\n');
    lemma_index_of_char(s, '\n');
    if s.len() > 0 && k0 >= 0 {
        let t = s.subrange(k0 + 1, s.len() as int);
        lemma_lines_no_nl(t);
        assert forall|k: int| 0 <= k < lines(s).len() implies no_nl(#[trigger] lines(s)[k]) by {
            if k > 0 {
                assert(lines(s)[k] == lines(t)[k - 1]);
            } else {
                let h = s.subrange(0, k0);
                assert forall|i: int| 0 <= i < strip_cr(h).len() implies strip_cr(h)[i] != '\n' by {
                    assert(strip_cr(h)[i] == h[i]);
                }
            }
        }
    } else if s.len() > 0 {
        assert(lines(s) == seq![s]);
        assert(lines(s)[0] == s);
    }
}

/// The lines of a text without carriage returns hold none.
proof fn lemma_lines_no_cr(s: Seq<char>)
    requires
        no_cr(s),
    ensures
        forall|k: int| 0 <= k < lines(s).len() ==> no_cr(#[trigger] lines(s)[k]),
{
    assert forall|k: int| 0 <= k < lines(s).len() implies no_cr(#[trigger] lines(s)[k]) by {
        lemma_line_is_span(s, k);
        let (i, j) = choose|i: int, j: int|
            #[trigger] is_line_span(s, i, j) && lines(s)[k] == s.subrange(i, j);
        assert forall|x: int| 0 <= x < j - i implies s.subrange(i, j)[x] != '\r' by {
            assert(s.subrange(i, j)[x] == s[i + x]);
        }
    }
}

/// The lines kept by `without_ota_lines` start no OTA script, and keep the
/// properties that every line had.
proof fn lemma_without_ota_lines(ls: Seq<Seq<char>>)
    ensures
        forall|k: int|
            0 <= k < without_ota_lines(ls).len() ==> !ota_hook_line(
                #[trigger] without_ota_lines(ls)[k],
            ) && exists|j: int| 0 <= j < ls.len() && without_ota_lines(ls)[k] == ls[j],
    decreases ls.len(),
{
    if ls.len() > 0 {
        lemma_without_ota_lines(ls.drop_last());
        let w = without_ota_lines(ls.drop_last());
        assert forall|k: int| 0 <= k < without_ota_lines(ls).len() implies !ota_hook_line(
            #[trigger] without_ota_lines(ls)[k],
        ) && exists|j: int| 0 <= j < ls.len() && without_ota_lines(ls)[k] == ls[j] by {
            if k < w.len() {
                assert(without_ota_lines(ls)[k] == w[k]);
                let j = choose|j: int| 0 <= j < ls.drop_last().len() && w[k] == ls.drop_last()[j];
                assert(ls.drop_last()[j] == ls[j]);
            } else {
                assert(without_ota_lines(ls)[k] == ls[ls.len() - 1]);
            }
        }
    }
}

proof fn lemma_drop_trailing_blank(ls: Seq<Seq<char>>)
    ensures
        drop_trailing_blank(ls).len() <= ls.len(),
        drop_trailing_blank(ls) == ls.subrange(0, drop_trailing_blank(ls).len() as int),
    decreases ls.len(),
{
    if ls.len() > 0 && trim(ls.last()).len() == 0 {
        lemma_drop_trailing_blank(ls.drop_last());
        assert(ls.drop_last().subrange(0, drop_trailing_blank(ls).len() as int) =~= ls.subrange(
            0,
            drop_trailing_blank(ls).len() as int,
        ));
    } else {
        assert(ls.subrange(0, ls.len() as int) =~= ls);
    }
}

proof fn lemma_join_front(ls: Seq<Seq<char>>, sep: Seq<char>)
    requires
        ls.len() >= 2,
    ensures
        join(ls, sep) == ls[0] + sep + join(ls.drop_first(), sep),
    decreases ls.len(),
{
    let d = ls.drop_first();
    if ls.len() == 2 {
        assert(d.len() == 1);
        assert(join(d, sep) == d[0]);
        assert(join(ls.drop_last(), sep) == ls.drop_last()[0]);
        assert(join(ls, sep) =~= ls[0] + sep + join(d, sep));
    } else {
        lemma_join_front(ls.drop_last(), sep);
        assert(ls.drop_last().drop_first() =~= d.drop_last());
        assert(d.last() == ls.last());
        assert(join(ls, sep) =~= ls[0] + sep + join(d, sep));
    }
}

proof fn lemma_lines_cons(x: Seq<char>, y: Seq<char>)
    requires
        no_nl(x),
    ensures
        lines(x + seq!['\n'] + y) == seq![strip_cr(x)] + lines(y),
{
    let s = x + seq!['\n'] + y;
    lemma_index_of_char_is(s, '\n', x.len() as int);
    assert(s.subrange(0, x.len() as int) =~= x);
    assert(s.subrange(x.len() as int + 1, s.len() as int) =~= y);
}

/// The lines of lines joined by LF with a final LF are those lines, each
/// without a final carriage return.
proof fn lemma_lines_of_joined(ls: Seq<Seq<char>>)
    requires
        ls.len() > 0,
        forall|k: int| 0 <= k < ls.len() ==> no_nl(#[trigger] ls[k]),
    ensures
        lines(join(ls, "\n"@) + "\n"@).len() == ls.len(),
        forall|k: int|
            0 <= k < ls.len() ==> #[trigger] lines(join(ls, "\n"@) + "\n"@)[k] == strip_cr(ls[k]),
    decreases ls.len(),
{
    reveal_strlit("\n");
    assert(no_nl(ls[0]));
    if ls.len() == 1 {
        lemma_lines_cons(ls[0], Seq::<char>::empty());
        assert(ls[0] + seq!['\n'] + Seq::<char>::empty() =~= join(ls, "\n"@) + "\n"@);
    } else {
        let d = ls.drop_first();
        lemma_join_front(ls, "\n"@);
        assert forall|k: int| 0 <= k < d.len() implies no_nl(#[trigger] d[k]) by {
            assert(d[k] == ls[k + 1]);
        }
        lemma_lines_of_joined(d);
        let y = join(d, "\n"@) + "\n"@;
        lemma_lines_cons(ls[0], y);
        assert(ls[0] + seq!['\n'] + y =~= join(ls, "\n"@) + "\n"@);
        assert forall|k: int| 0 <= k < ls.len() implies #[trigger] lines(
            join(ls, "\n"@) + "\n"@,
        )[k] == strip_cr(ls[k]) by {
            if k > 0 {
                assert(d[k - 1] == ls[k]);
            }
        }
    }
}

/// Lines without carriage returns joined by LF hold none.
proof fn lemma_join_no_cr(ls: Seq<Seq<char>>)
    requires
        forall|k: int| 0 <= k < ls.len() ==> no_cr(#[trigger] ls[k]),
    ensures
        no_cr(join(ls, "\n"@)),
    decreases ls.len(),
{
    reveal_strlit("\n");
    if ls.len() == 1 {
        assert(no_cr(ls[0]));
    } else if ls.len() > 1 {
        let d = ls.drop_last();
        assert forall|k: int| 0 <= k < d.len() implies no_cr(#[trigger] d[k]) by {
            assert(d[k] == ls[k]);
        }
        lemma_join_no_cr(d);
        assert(no_cr(ls[ls.len() - 1]));
        let j = join(ls, "\n"@);
        let a = join(d, "\n"@);
        assert forall|i: int| 0 <= i < j.len() implies j[i] != '\r' by {
            if i < a.len() {
                assert(j[i] == a[i]);
            } else if i > a.len() {
                assert(j[i] == ls.last()[i - a.len() - 1]);
            }
        }
    }
}

/// Removing the OTA hook leaves no line that starts the OTA script.
pub proof fn lemma_remove_ota_clears(c: Seq<char>)
    ensures
        !has_ota_hook(loader_without_ota(c)),
        no_cr(c) ==> no_cr(loader_without_ota(c)),
{
    reveal_strlit("\n");
    let ls = lines(normalized(c));
    lemma_lines_no_nl(normalized(c));
    lemma_without_ota_lines(ls);
    let w = without_ota_lines(ls);
    lemma_drop_trailing_blank(w);
    let kept = drop_trailing_blank(w);
    assert forall|k: int| 0 <= k < kept.len() implies no_nl(#[trigger] kept[k]) && !ota_hook_line(
        kept[k],
    ) by {
        assert(kept[k] == w[k]);
        let j = choose|j: int| 0 <= j < ls.len() && w[k] == ls[j];
        assert(no_nl(ls[j]));
    }
    let r = loader_without_ota(c);
    if kept.len() == 0 {
        assert(r.len() == 0);
        assert(lines(r).len() == 0);
    } else {
        lemma_lines_of_joined(kept);
        assert forall|k: int| 0 <= k < lines(r).len() implies !ota_hook_line(#[trigger] lines(r)[k]) by {
            lemma_strip_cr_hooks(kept[k]);
        }
    }
    if no_cr(c) {
        lemma_normalized_no_cr(c);
        lemma_lines_no_cr(c);
        if kept.len() > 0 {
            assert forall|k: int| 0 <= k < kept.len() implies no_cr(#[trigger] kept[k]) by {
                assert(kept[k] == w[k]);
                let j = choose|j: int| 0 <= j < ls.len() && w[k] == ls[j];
                assert(no_cr(ls[j]));
            }
            lemma_join_no_cr(kept);
            let j = join(kept, "\n"@);
            assert forall|i: int| 0 <= i < r.len() implies r[i] != '\r' by {
                if i < j.len() {
                    assert(r[i] == j[i]);
                }
            }
        }
    }
}

/// The loader written back when the hooks are installed starts the init
/// script, for any current loader without carriage returns.
pub proof fn lemma_installed_loader_hooks_init(c: Seq<char>)
    requires
        no_cr(c),
    ensures
        has_init_hook(installed_loader(c)),
{
    lemma_remove_ota_clears(c);
    reveal_strlit("#!/bin/sh\n/home/root/ttyd/start.sh &\n/home/root/udx710 -p 80 &\n");
    assert(no_cr(default_loader()));
    let stripped = loader_without_ota(c);
    let base = if uses_ab_bootstrap(c) || has_ota_hook(c) || !has_backend_line(stripped) {
        default_loader()
    } else if trim(c).len() == 0 || plain_legacy_bootstrap(c) {
        default_loader()
    } else {
        stripped
    };
    lemma_with_init_has_hook(base);
}

} // verus!
