//! Character-level text utilities with their mathematical models.

use vstd::prelude::*;
use vstd::string::*;
use vstd::utf8::{
    decode_utf8, encode_utf8, encode_utf8_decode_utf8, encode_utf8_valid_utf8, is_char_boundary,
};

verus! {

/// Unicode `White_Space` property, the set that `char::is_whitespace` uses.
pub open spec fn is_ws(c: char) -> bool {
    let n = c as u32;
    ||| 9 <= n <= 13
    ||| n == 32
    ||| n == 0x85
    ||| n == 0xA0
    ||| n == 0x1680
    ||| 0x2000 <= n <= 0x200A
    ||| n == 0x2028
    ||| n == 0x2029
    ||| n == 0x202F
    ||| n == 0x205F
    ||| n == 0x3000
}

/// The text without its leading whitespace.
pub open spec fn trim_start(s: Seq<char>) -> Seq<char>
    decreases s.len(),
{
    if s.len() > 0 && is_ws(s[0]) {
        trim_start(s.drop_first())
    } else {
        s
    }
}

/// The text without its trailing whitespace.
pub open spec fn trim_end(s: Seq<char>) -> Seq<char>
    decreases s.len(),
{
    if s.len() > 0 && is_ws(s.last()) {
        trim_end(s.drop_last())
    } else {
        s
    }
}

/// The text without leading and trailing whitespace.
pub open spec fn trim(s: Seq<char>) -> Seq<char> {
    trim_end(trim_start(s))
}

/// Appends one character to a string (std `String::push`).
#[verifier::external_body]
pub(crate) fn push_char(s: &mut String, c: char)
    ensures
        final(s)@ == old(s)@.push(c),
{
    s.push(c);
}

pub fn is_whitespace_char(c: char) -> (r: bool)
    ensures
        r == is_ws(c),
{
    let n = c as u32;
    (9 <= n && n <= 13) || n == 32 || n == 0x85 || n == 0xA0 || n == 0x1680 || (0x2000 <= n
        && n <= 0x200A) || n == 0x2028 || n == 0x2029 || n == 0x202F || n == 0x205F || n == 0x3000
}

/// The characters of a string slice.
pub fn chars_of(s: &str) -> (v: Vec<char>)
    ensures
        v@ == s@,
{
    let n = s.unicode_len();
    let mut v: Vec<char> = Vec::new();
    let mut i: usize = 0;
    while i < n
        invariant
            n == s@.len(),
            i <= n,
            v@ == s@.subrange(0, i as int),
        decreases n - i,
    {
        let c = s.get_char(i);
        v.push(c);
        i = i + 1;
    }
    v
}

/// A string holding exactly the given characters.
pub fn string_of(v: &[char]) -> (s: String)
    ensures
        s@ == v@,
{
    let mut s = String::new();
    let mut i: usize = 0;
    while i < v.len()
        invariant
            i <= v@.len(),
            s@ == v@.subrange(0, i as int),
        decreases v@.len() - i,
    {
        push_char(&mut s, v[i]);
        i = i + 1;
    }
    s
}

proof fn lemma_trim_start_skip(s: Seq<char>, i: int)
    requires
        0 <= i < s.len(),
        is_ws(s[i]),
    ensures
        trim_start(s.subrange(i, s.len() as int)) == trim_start(s.subrange(i + 1, s.len() as int)),
{
    assert(s.subrange(i, s.len() as int).drop_first() =~= s.subrange(i + 1, s.len() as int));
}

proof fn lemma_trim_end_skip(s: Seq<char>, j: int)
    requires
        0 < j <= s.len(),
        is_ws(s[j - 1]),
    ensures
        trim_end(s.subrange(0, j)) == trim_end(s.subrange(0, j - 1)),
{
    assert(s.subrange(0, j).drop_last() =~= s.subrange(0, j - 1));
}

/// Index range `[lo, hi)` of the text left after trimming.
pub fn trim_bounds(s: &[char]) -> (r: (usize, usize))
    ensures
        r.0 <= r.1 <= s@.len(),
        trim(s@) == s@.subrange(r.0 as int, r.1 as int),
        trim_start(s@) == s@.subrange(r.0 as int, s@.len() as int),
{
    let n = s.len();
    let mut lo: usize = 0;
    assert(s@.subrange(0, n as int) =~= s@);
    while lo < n && is_whitespace_char(s[lo])
        invariant
            lo <= n == s@.len(),
            trim_start(s@) == trim_start(s@.subrange(lo as int, n as int)),
        decreases n - lo,
    {
        proof {
            lemma_trim_start_skip(s@, lo as int);
        }
        lo = lo + 1;
    }
    let ghost rest = s@.subrange(lo as int, n as int);
    assert(trim_start(rest) == rest);
    let mut hi: usize = n;
    assert(rest.subrange(0, (n - lo) as int) =~= rest);
    while hi > lo && is_whitespace_char(s[hi - 1])
        invariant
            lo <= hi <= n == s@.len(),
            trim_start(s@) == rest,
            trim_end(rest) == trim_end(s@.subrange(lo as int, hi as int)),
        decreases hi,
    {
        proof {
            let t = s@.subrange(lo as int, hi as int);
            lemma_trim_end_skip(t, (hi - lo) as int);
            assert(t.subrange(0, (hi - lo) as int) =~= t);
            assert(t.subrange(0, (hi - lo - 1) as int) =~= s@.subrange(lo as int, hi - 1));
        }
        hi = hi - 1;
    }
    (lo, hi)
}

/// Length of the text left after removing trailing whitespace.
pub open spec fn trim_end_len(s: Seq<char>) -> nat
    decreases s.len(),
{
    if s.len() > 0 && is_ws(s.last()) {
        trim_end_len(s.drop_last())
    } else {
        s.len()
    }
}

/// Trimming the end keeps a prefix of the text.
pub proof fn lemma_trim_end_len(s: Seq<char>)
    ensures
        trim_end_len(s) <= s.len(),
        trim_end(s) == s.subrange(0, trim_end_len(s) as int),
    decreases s.len(),
{
    if s.len() > 0 && is_ws(s.last()) {
        lemma_trim_end_len(s.drop_last());
        assert(s.drop_last().subrange(0, trim_end_len(s) as int) =~= s.subrange(
            0,
            trim_end_len(s) as int,
        ));
    } else {
        assert(s.subrange(0, s.len() as int) =~= s);
    }
}


/// Position of the first occurrence of `c` in `s`, or -1.
pub open spec fn index_of_char(s: Seq<char>, c: char) -> int
    decreases s.len(),
{
    if s.len() == 0 {
        -1
    } else if s[0] == c {
        0
    } else {
        let r = index_of_char(s.drop_first(), c);
        if r < 0 {
            -1
        } else {
            r + 1
        }
    }
}

/// The first index of a character is in range, holds it, and no earlier index does.
pub proof fn lemma_index_of_char(s: Seq<char>, c: char)
    ensures
        -1 <= index_of_char(s, c) < s.len(),
        index_of_char(s, c) >= 0 ==> s[index_of_char(s, c)] == c,
        forall|j: int| 0 <= j < index_of_char(s, c) ==> s[j] != c,
        index_of_char(s, c) < 0 ==> forall|j: int| 0 <= j < s.len() ==> s[j] != c,
    decreases s.len(),
{
    if s.len() > 0 && s[0] != c {
        lemma_index_of_char(s.drop_first(), c);
        let r = index_of_char(s.drop_first(), c);
        assert forall|j: int| 0 <= j < index_of_char(s, c) implies s[j] != c by {
            if j > 0 {
                assert(s[j] == s.drop_first()[j - 1]);
            }
        }
        if r < 0 {
            assert forall|j: int| 0 <= j < s.len() implies s[j] != c by {
                if j > 0 {
                    assert(s[j] == s.drop_first()[j - 1]);
                }
            }
        }
    }
}

/// An index holding the character with none before it is its first index.
pub proof fn lemma_index_of_char_is(s: Seq<char>, c: char, k: int)
    requires
        0 <= k <= s.len(),
        k < s.len() ==> s[k] == c,
        forall|j: int| 0 <= j < k ==> s[j] != c,
    ensures
        index_of_char(s, c) == (if k < s.len() { k } else { -1 }),
    decreases s.len(),
{
    if s.len() > 0 && k > 0 {
        assert forall|j: int| 0 <= j < k - 1 implies s.drop_first()[j] != c by {
            assert(s.drop_first()[j] == s[j + 1]);
        }
        lemma_index_of_char_is(s.drop_first(), c, k - 1);
    }
}

/// A line with the carriage return of a `\r\n` terminator removed.
pub open spec fn strip_cr(line: Seq<char>) -> Seq<char> {
    if line.len() > 0 && line.last() == '\r' {
        line.drop_last()
    } else {
        line
    }
}

/// The lines of a text as `str::lines` yields them: split at `\n`, a `\r`
/// just before a `\n` dropped, and no empty line after a final `\n`.
pub open spec fn lines(s: Seq<char>) -> Seq<Seq<char>>
    decreases s.len(),
{
    if s.len() == 0 {
        seq![]
    } else {
        let k = index_of_char(s, '\n');
        if k < 0 {
            seq![s]
        } else {
            proof {
                lemma_index_of_char(s, '\n');
            }
            seq![strip_cr(s.subrange(0, k))] + lines(s.subrange(k + 1, s.len() as int))
        }
    }
}

/// The pieces of a text between occurrences of `sep`, as `str::split` yields them.
pub open spec fn split_char(s: Seq<char>, sep: char) -> Seq<Seq<char>>
    decreases s.len(),
{
    let k = index_of_char(s, sep);
    if k < 0 {
        seq![s]
    } else {
        proof {
            lemma_index_of_char(s, sep);
        }
        seq![s.subrange(0, k)] + split_char(s.subrange(k + 1, s.len() as int), sep)
    }
}

/// `p` is a prefix of `s`.
pub open spec fn starts_with(s: Seq<char>, p: Seq<char>) -> bool {
    p.len() <= s.len() && s.subrange(0, p.len() as int) == p
}

/// `p` is a suffix of `s`.
pub open spec fn ends_with(s: Seq<char>, p: Seq<char>) -> bool {
    p.len() <= s.len() && s.subrange(s.len() - p.len(), s.len() as int) == p
}

/// `p` occurs in `s` at position `i`.
pub open spec fn occurs_at(s: Seq<char>, p: Seq<char>, i: int) -> bool {
    0 <= i && i + p.len() <= s.len() && s.subrange(i, i + p.len()) == p
}

/// `p` occurs somewhere in `s`.
pub open spec fn contains(s: Seq<char>, p: Seq<char>) -> bool {
    exists|i: int| occurs_at(s, p, i)
}

/// Every non-overlapping occurrence of `pat`, taken left to right, replaced
/// by `rep` (the semantics of `str::replace` for a non-empty pattern).
pub open spec fn replace_all(s: Seq<char>, pat: Seq<char>, rep: Seq<char>) -> Seq<char>
    decreases s.len(),
{
    if pat.len() == 0 || s.len() < pat.len() {
        s
    } else if s.subrange(0, pat.len() as int) == pat {
        rep + replace_all(s.subrange(pat.len() as int, s.len() as int), pat, rep)
    } else {
        seq![s[0]] + replace_all(s.drop_first(), pat, rep)
    }
}

/// The texts held by a vector of character vectors.
pub open spec fn seqs_of(v: Seq<Vec<char>>) -> Seq<Seq<char>> {
    v.map_values(|x: Vec<char>| x@)
}

/// The texts of a pushed list are the texts of the list with the new text pushed.
pub proof fn lemma_seqs_of_push(v: Seq<Vec<char>>, x: Vec<char>)
    ensures
        seqs_of(v.push(x)) == seqs_of(v).push(x@),
{
    assert(seqs_of(v.push(x)) =~= seqs_of(v).push(x@));
}

/// Copy of `s[lo..hi]`.
pub fn sub_vec(s: &[char], lo: usize, hi: usize) -> (v: Vec<char>)
    requires
        lo <= hi <= s@.len(),
    ensures
        v@ == s@.subrange(lo as int, hi as int),
{
    let mut v: Vec<char> = Vec::new();
    let mut i = lo;
    while i < hi
        invariant
            lo <= i <= hi <= s@.len(),
            v@ == s@.subrange(lo as int, i as int),
        decreases hi - i,
    {
        v.push(s[i]);
        i = i + 1;
    }
    v
}

/// First index at or after `start` holding `c`, or the length when none does.
pub fn find_char_from(s: &[char], c: char, start: usize) -> (k: usize)
    requires
        start <= s@.len(),
    ensures
        start <= k <= s@.len(),
        k < s@.len() ==> s@[k as int] == c,
        forall|j: int| start <= j < k ==> s@[j] != c,
        index_of_char(s@.subrange(start as int, s@.len() as int), c) == (if k < s@.len() {
            k - start
        } else {
            -1
        }),
{
    let mut k = start;
    while k < s.len() && s[k] != c
        invariant
            start <= k <= s@.len(),
            forall|j: int| start <= j < k ==> s@[j] != c,
        decreases s@.len() - k,
    {
        k = k + 1;
    }
    proof {
        let t = s@.subrange(start as int, s@.len() as int);
        assert forall|j: int| 0 <= j < k - start implies t[j] != c by {
            assert(t[j] == s@[j + start]);
        }
        lemma_index_of_char_is(t, c, (k - start) as int);
    }
    k
}

/// The lines of a text (see `lines`).
pub fn lines_of(s: &[char]) -> (r: Vec<Vec<char>>)
    ensures
        seqs_of(r@) == lines(s@),
{
    let n = s.len();
    let mut out: Vec<Vec<char>> = Vec::new();
    let mut start: usize = 0;
    assert(s@.subrange(0, n as int) =~= s@);
    while start < n
        invariant
            start <= n == s@.len(),
            seqs_of(out@) + lines(s@.subrange(start as int, n as int)) == lines(s@),
        decreases n - start,
    {
        let ghost t = s@.subrange(start as int, n as int);
        let k = find_char_from(s, '\n', start);
        if k == n {
            let line = sub_vec(s, start, n);
            let ghost old_out = seqs_of(out@);
            let ghost old_raw = out@;
            out.push(line);
            proof { lemma_seqs_of_push(old_raw, line); }
            assert(seqs_of(out@) =~= old_out.push(t));
            assert(lines(t) == seq![t]);
            assert(s@.subrange(n as int, n as int) =~= Seq::<char>::empty());
            assert(seqs_of(out@) + lines(s@.subrange(n as int, n as int)) =~= old_out + lines(t));
            start = n;
        } else {
            let mut hi = k;
            if hi > start && s[hi - 1] == '\r' {
                hi = hi - 1;
            }
            let line = sub_vec(s, start, hi);
            let ghost old_out = seqs_of(out@);
            let ghost old_raw = out@;
            proof {
                assert(t.subrange(0, k - start) =~= s@.subrange(start as int, k as int));
                assert(t.subrange(k - start + 1, t.len() as int) =~= s@.subrange(k + 1, n as int));
                assert(line@ =~= strip_cr(s@.subrange(start as int, k as int)));
            }
            out.push(line);
            proof { lemma_seqs_of_push(old_raw, line); }
            assert(seqs_of(out@) =~= old_out.push(line@));
            assert(seqs_of(out@) + lines(s@.subrange(k + 1, n as int)) =~= old_out + lines(t));
            start = k + 1;
        }
    }
    assert(s@.subrange(n as int, n as int) =~= Seq::<char>::empty());
    assert(seqs_of(out@) + lines(Seq::<char>::empty()) =~= seqs_of(out@));
    out
}

/// The pieces of a text between occurrences of `sep` (see `split_char`).
pub fn split_of(s: &[char], sep: char) -> (r: Vec<Vec<char>>)
    ensures
        seqs_of(r@) == split_char(s@, sep),
        r@.len() >= 1,
{
    let n = s.len();
    let mut out: Vec<Vec<char>> = Vec::new();
    let mut start: usize = 0;
    assert(s@.subrange(0, n as int) =~= s@);
    loop
        invariant
            start <= n == s@.len(),
            seqs_of(out@) + split_char(s@.subrange(start as int, n as int), sep) == split_char(s@, sep),
        decreases n - start,
    {
        let ghost t = s@.subrange(start as int, n as int);
        let k = find_char_from(s, sep, start);
        let piece = sub_vec(s, start, k);
        let ghost old_out = seqs_of(out@);
        let ghost old_raw = out@;
        let ghost pv = piece;
        out.push(piece);
        proof { lemma_seqs_of_push(old_raw, pv); }
        assert(seqs_of(out@) =~= old_out.push(pv@));
        if k == n {
            assert(pv@ =~= t);
            assert(seqs_of(out@) =~= old_out + split_char(t, sep));
            return out;
        }
        proof {
            assert(t.subrange(0, k - start) =~= s@.subrange(start as int, k as int));
            assert(t.subrange(k - start + 1, t.len() as int) =~= s@.subrange(k + 1, n as int));
        }
        assert(seqs_of(out@) + split_char(s@.subrange(k + 1, n as int), sep) =~= old_out + split_char(t, sep));
        start = k + 1;
    }
}


/// `p` occurs in `s` at position `i`.
pub fn occurs_at_exec(s: &[char], p: &[char], i: usize) -> (r: bool)
    ensures
        r == occurs_at(s@, p@, i as int),
{
    if i > s.len() || p.len() > s.len() - i {
        return false;
    }
    let mut j: usize = 0;
    while j < p.len()
        invariant
            i + p@.len() <= s@.len(),
            s@.len() == s.len(),
            j <= p@.len(),
            forall|k: int| 0 <= k < j ==> s@[i + k] == p@[k],
        decreases p@.len() - j,
    {
        if s[i + j] != p[j] {
            assert(s@.subrange(i as int, i + p@.len())[j as int] != p@[j as int]);
            return false;
        }
        j = j + 1;
    }
    assert(s@.subrange(i as int, i + p@.len()) =~= p@);
    true
}

/// `p` is a prefix of `s`.
pub fn starts_with_exec(s: &[char], p: &[char]) -> (r: bool)
    ensures
        r == starts_with(s@, p@),
{
    occurs_at_exec(s, p, 0)
}

/// `p` is a suffix of `s`.
pub fn ends_with_exec(s: &[char], p: &[char]) -> (r: bool)
    ensures
        r == ends_with(s@, p@),
{
    if p.len() > s.len() {
        false
    } else {
        occurs_at_exec(s, p, s.len() - p.len())
    }
}

/// `p` occurs somewhere in `s`.
pub fn contains_exec(s: &[char], p: &[char]) -> (r: bool)
    ensures
        r == contains(s@, p@),
{
    if p.len() > s.len() {
        assert forall|i: int| !occurs_at(s@, p@, i) by {}
        return false;
    }
    let last = s.len() - p.len();
    let mut i: usize = 0;
    loop
        invariant
            i <= last,
            last + p@.len() == s@.len(),
            forall|k: int| 0 <= k < i ==> !occurs_at(s@, p@, k),
        decreases last - i,
    {
        if occurs_at_exec(s, p, i) {
            return true;
        }
        if i == last {
            assert forall|k: int| !occurs_at(s@, p@, k) by {
                if 0 <= k < i {
                }
            }
            return false;
        }
        i = i + 1;
    }
}

proof fn lemma_replace_step(s: Seq<char>, pat: Seq<char>, rep: Seq<char>, i: int)
    requires
        pat.len() > 0,
        0 <= i <= s.len(),
    ensures
        ({
            let t = s.subrange(i, s.len() as int);
            &&& s.len() - i < pat.len() ==> replace_all(t, pat, rep) == t
            &&& occurs_at(s, pat, i) ==> replace_all(t, pat, rep) == rep + replace_all(
                s.subrange(i + pat.len(), s.len() as int),
                pat,
                rep,
            )
            &&& (s.len() - i >= pat.len() && !occurs_at(s, pat, i)) ==> replace_all(t, pat, rep)
                == seq![s[i]] + replace_all(s.subrange(i + 1, s.len() as int), pat, rep)
        }),
{
    let t = s.subrange(i, s.len() as int);
    if s.len() - i >= pat.len() {
        assert(t.subrange(0, pat.len() as int) =~= s.subrange(i, i + pat.len()));
        assert(t.subrange(pat.len() as int, t.len() as int) =~= s.subrange(
            i + pat.len(),
            s.len() as int,
        ));
        assert(t.drop_first() =~= s.subrange(i + 1, s.len() as int));
    }
}

/// `s` with every occurrence of `pat` replaced by `rep` (unchanged for an
/// empty `pat`).
pub fn replace_all_exec(s: &[char], pat: &[char], rep: &[char]) -> (r: Vec<char>)
    ensures
        r@ == replace_all(s@, pat@, rep@),
{
    let n = s.len();
    let m = pat.len();
    if m == 0 {
        return sub_vec(s, 0, n);
    }
    let mut out: Vec<char> = Vec::new();
    let mut i: usize = 0;
    assert(s@.subrange(0, n as int) =~= s@);
    loop
        invariant
            i <= n == s@.len(),
            m == pat@.len() > 0,
            out@ + replace_all(s@.subrange(i as int, n as int), pat@, rep@) == replace_all(
                s@,
                pat@,
                rep@,
            ),
        decreases n - i,
    {
        proof {
            lemma_replace_step(s@, pat@, rep@, i as int);
        }
        if n - i < m {
            let ghost o = out@;
            let mut j = i;
            while j < n
                invariant
                    i <= j <= n == s@.len(),
                    out@ == o + s@.subrange(i as int, j as int),
                decreases n - j,
            {
                out.push(s[j]);
                j = j + 1;
                assert(out@ =~= o + s@.subrange(i as int, j as int));
            }
            return out;
        }
        if occurs_at_exec(s, pat, i) {
            let ghost o = out@;
            let mut j: usize = 0;
            while j < rep.len()
                invariant
                    j <= rep@.len(),
                    out@ == o + rep@.subrange(0, j as int),
                decreases rep@.len() - j,
            {
                out.push(rep[j]);
                j = j + 1;
                assert(out@ =~= o + rep@.subrange(0, j as int));
            }
            assert(rep@.subrange(0, rep@.len() as int) =~= rep@);
            assert(out@ + replace_all(s@.subrange(i + m, n as int), pat@, rep@) =~= o + (rep@
                + replace_all(s@.subrange(i + m, n as int), pat@, rep@)));
            i = i + m;
        } else {
            let ghost o = out@;
            out.push(s[i]);
            assert(out@ + replace_all(s@.subrange(i + 1, n as int), pat@, rep@) =~= o + (seq![
                s@[i as int],
            ] + replace_all(s@.subrange(i + 1, n as int), pat@, rep@)));
            i = i + 1;
        }
    }
}

/// Value of a digit character in radix 10 or 16 (either letter case), or -1.
pub open spec fn digit_val(c: char, radix: int) -> int {
    let n = (c as u32) as int;
    if 48 <= n <= 57 && n - 48 < radix {
        n - 48
    } else if radix == 16 && 65 <= n <= 70 {
        n - 55
    } else if radix == 16 && 97 <= n <= 102 {
        n - 87
    } else {
        -1
    }
}

/// Every character is a digit of the radix.
pub open spec fn all_digits(s: Seq<char>, radix: int) -> bool {
    forall|i: int| 0 <= i < s.len() ==> digit_val(#[trigger] s[i], radix) >= 0
}

/// Value of a digit string in the radix.
pub open spec fn digits_value(s: Seq<char>, radix: int) -> int
    decreases s.len(),
{
    if s.len() == 0 {
        0
    } else {
        digits_value(s.drop_last(), radix) * radix + digit_val(s.last(), radix)
    }
}

/// Value of an unsigned number text as `FromStr` / `from_str_radix` read it:
/// an optional `+`, then one or more digits of the radix.
pub open spec fn num_value(s: Seq<char>, radix: int) -> Option<int> {
    let body = num_body(s);
    if body.len() > 0 && all_digits(body, radix) {
        Some(digits_value(body, radix))
    } else {
        None
    }
}

/// The digits of a number text after an optional leading `+`.
pub open spec fn num_body(s: Seq<char>) -> Seq<char> {
    if s.len() > 0 && s[0] == '+' {
        s.drop_first()
    } else {
        s
    }
}

/// Result of parsing an unsigned integer type whose largest value is `max`.
pub open spec fn parse_uint(s: Seq<char>, radix: int, max: int) -> Option<int> {
    match num_value(s, radix) {
        Some(v) => if v <= max {
            Some(v)
        } else {
            None
        },
        None => None,
    }
}

proof fn lemma_digits_value_nonneg(s: Seq<char>, radix: int)
    requires
        radix == 10 || radix == 16,
        all_digits(s, radix),
    ensures
        digits_value(s, radix) >= 0,
    decreases s.len(),
{
    if s.len() > 0 {
        assert(all_digits(s.drop_last(), radix)) by {
            assert forall|i: int| 0 <= i < s.drop_last().len() implies digit_val(
                #[trigger] s.drop_last()[i],
                radix,
            ) >= 0 by {
                assert(s.drop_last()[i] == s[i]);
            }
        }
        lemma_digits_value_nonneg(s.drop_last(), radix);
        assert(digit_val(s[s.len() - 1], radix) >= 0);
    }
}

/// Parses an unsigned integer of largest value `max` (at most `u32::MAX`).
pub fn parse_uint_exec(s: &[char], radix: u32, max: u32) -> (r: Option<u32>)
    requires
        radix == 10 || radix == 16,
    ensures
        r matches Some(v) ==> parse_uint(s@, radix as int, max as int) == Some(v as int),
        r is None ==> parse_uint(s@, radix as int, max as int) is None,
{
    let n = s.len();
    let start: usize = if n > 0 && s[0] == '+' {
        1
    } else {
        0
    };
    let ghost body = num_body(s@);
    assert(body =~= s@.subrange(start as int, n as int));
    if start == n {
        return None;
    }
    let mut acc: u64 = 0;
    let mut over = false;
    let mut i = start;
    assert(s@.subrange(start as int, start as int) =~= Seq::<char>::empty());
    while i < n
        invariant
            start <= i <= n == s@.len(),
            body == s@.subrange(start as int, n as int),
            body == num_body(s@),
            radix == 10 || radix == 16,
            all_digits(s@.subrange(start as int, i as int), radix as int),
            !over ==> acc == digits_value(s@.subrange(start as int, i as int), radix as int) && acc
                <= max,
            over ==> digits_value(s@.subrange(start as int, i as int), radix as int) > max,
        decreases n - i,
    {
        let c = s[i];
        let cn = c as u32;
        let d: u64 = if 48 <= cn && cn <= 57 && cn - 48 < radix {
            (cn - 48) as u64
        } else if radix == 16 && 65 <= cn && cn <= 70 {
            (cn - 55) as u64
        } else if radix == 16 && 97 <= cn && cn <= 102 {
            (cn - 87) as u64
        } else {
            proof {
                assert(s@.subrange(start as int, n as int)[i - start] == c);
                assert(body[i - start] == c);
                assert(digit_val(body[i - start], radix as int) < 0);
                assert(!all_digits(body, radix as int));
                assert(num_value(s@, radix as int) is None);
            }
            return None;
        };
        let ghost pre = s@.subrange(start as int, i as int);
        let ghost nxt = s@.subrange(start as int, i + 1);
        proof {
            assert(nxt.drop_last() =~= pre);
            assert(nxt.last() == c);
            assert(digit_val(c, radix as int) == d);
            assert(all_digits(nxt, radix as int)) by {
                assert forall|k: int| 0 <= k < nxt.len() implies digit_val(
                    #[trigger] nxt[k],
                    radix as int,
                ) >= 0 by {
                    if k < pre.len() {
                        assert(nxt[k] == pre[k]);
                    }
                }
            }
            lemma_digits_value_nonneg(pre, radix as int);
            assert(digits_value(nxt, radix as int) == digits_value(pre, radix as int) * radix + d);
        }
        if !over {
            let next = acc * (radix as u64) + d;
            if next > max as u64 {
                over = true;
            } else {
                acc = next;
            }
        }
        proof {
            if over {
                assert(digits_value(nxt, radix as int) > max) by (nonlinear_arith)
                    requires
                        digits_value(nxt, radix as int) == digits_value(pre, radix as int) * radix
                            + d,
                        digits_value(pre, radix as int) >= 0,
                        radix >= 10,
                        d >= 0,
                        digits_value(pre, radix as int) > max || digits_value(pre, radix as int)
                            * radix + d > max,
                ;
            }
        }
        i = i + 1;
    }
    if over {
        None
    } else {
        Some(acc as u32)
    }
}

/// Decimal digits of a natural number.
pub open spec fn dec_string(n: nat) -> Seq<char>
    decreases n,
{
    if n < 10 {
        seq![((n + 48) as u32) as char]
    } else {
        dec_string(n / 10) + seq![((n % 10 + 48) as u32) as char]
    }
}

/// Appends the decimal digits of `n`.
pub fn push_dec(out: &mut Vec<char>, n: u64)
    ensures
        final(out)@ == old(out)@ + dec_string(n as nat),
    decreases n,
{
    if n >= 10 {
        push_dec(out, n / 10);
    }
    let d = (n % 10) as u32;
    let c = char_of_digit(d);
    let ghost mid = out@;
    out.push(c);
    proof {
        if n >= 10 {
            assert(out@ =~= old(out)@ + dec_string(n as nat));
        } else {
            assert(out@ =~= old(out)@ + dec_string(n as nat));
        }
    }
}

fn char_of_digit(d: u32) -> (c: char)
    requires
        d < 10,
    ensures
        c == ((d + 48) as u32) as char,
{
    if d == 0 { '0' } else if d == 1 { '1' } else if d == 2 { '2' } else if d == 3 { '3' } else if d == 4 { '4' }
    else if d == 5 { '5' } else if d == 6 { '6' } else if d == 7 { '7' } else if d == 8 { '8' } else { '9' }
}


/// The texts held by a vector of strings.
pub open spec fn strs_view(v: Seq<String>) -> Seq<Seq<char>> {
    v.map_values(|x: String| x@)
}

/// The texts held by a vector of string rows.
pub open spec fn rows_view(v: Seq<Vec<String>>) -> Seq<Seq<Seq<char>>> {
    v.map_values(|r: Vec<String>| strs_view(r@))
}

/// A string for each character vector.
pub fn strings_of(v: &Vec<Vec<char>>) -> (r: Vec<String>)
    ensures
        strs_view(r@) == seqs_of(v@),
{
    let mut out: Vec<String> = Vec::new();
    let mut i: usize = 0;
    while i < v.len()
        invariant
            i <= v@.len(),
            strs_view(out@) == seqs_of(v@).subrange(0, i as int),
        decreases v@.len() - i,
    {
        let s = string_of(v[i].as_slice());
        let ghost o = out@;
        let ghost sv = s@;
        out.push(s);
        assert(strs_view(out@) =~= strs_view(o).push(sv));
        assert(seqs_of(v@)[i as int] == v@[i as int]@);
        assert(strs_view(out@) =~= seqs_of(v@).subrange(0, i + 1));
        i = i + 1;
    }
    assert(seqs_of(v@).subrange(0, v@.len() as int) =~= seqs_of(v@));
    out
}

/// An owned copy of a string slice.
pub fn owned(s: &str) -> (r: String)
    ensures
        r@ == s@,
{
    s.to_owned()
}

/// The text without all repetitions of the non-empty suffix `p` at its end.
pub open spec fn strip_suffixes(s: Seq<char>, p: Seq<char>) -> Seq<char>
    decreases s.len(),
{
    if p.len() > 0 && ends_with(s, p) {
        strip_suffixes(s.subrange(0, s.len() - p.len()), p)
    } else {
        s
    }
}

/// The text without carriage returns and line feeds.
pub open spec fn without_crlf(s: Seq<char>) -> Seq<char>
    decreases s.len(),
{
    if s.len() == 0 {
        s
    } else if s.last() == '\r' || s.last() == '\n' {
        without_crlf(s.drop_last())
    } else {
        without_crlf(s.drop_last()).push(s.last())
    }
}

/// The text without all repetitions of the non-empty suffix `p` at its end.
pub fn strip_suffixes_exec(s: &[char], p: &[char]) -> (r: Vec<char>)
    requires
        p@.len() > 0,
    ensures
        r@ == strip_suffixes(s@, p@),
{
    let mut j = s.len();
    assert(s@.subrange(0, j as int) =~= s@);
    loop
        invariant
            j <= s@.len(),
            p@.len() > 0,
            strip_suffixes(s@, p@) == strip_suffixes(s@.subrange(0, j as int), p@),
        decreases j,
    {
        let t = sub_vec(s, 0, j);
        if !ends_with_exec(t.as_slice(), p) {
            return t;
        }
        assert(t@.subrange(0, t@.len() - p@.len()) =~= s@.subrange(0, j - p@.len()));
        j = j - p.len();
    }
}

/// The text without carriage returns and line feeds.
pub fn without_crlf_exec(s: &[char]) -> (r: Vec<char>)
    ensures
        r@ == without_crlf(s@),
{
    let mut out: Vec<char> = Vec::new();
    let mut i: usize = 0;
    while i < s.len()
        invariant
            i <= s@.len(),
            out@ == without_crlf(s@.subrange(0, i as int)),
        decreases s@.len() - i,
    {
        assert(s@.subrange(0, i + 1).drop_last() =~= s@.subrange(0, i as int));
        if s[i] != '\r' && s[i] != '\n' {
            out.push(s[i]);
        }
        i = i + 1;
    }
    assert(s@.subrange(0, s@.len() as int) =~= s@);
    out
}

/// Characters of a string.
pub fn chars_of_string(s: &String) -> (v: Vec<char>)
    ensures
        v@ == s@,
{
    chars_of(s.as_str())
}

/// The strings joined by `sep`.
pub open spec fn join_with(ls: Seq<Seq<char>>, sep: Seq<char>) -> Seq<char>
    decreases ls.len(),
{
    if ls.len() == 0 {
        seq![]
    } else if ls.len() == 1 {
        ls[0]
    } else {
        join_with(ls.drop_last(), sep) + sep + ls.last()
    }
}

/// Appends the characters of `s`.
pub fn append_chars(out: &mut Vec<char>, s: &[char])
    ensures
        final(out)@ == old(out)@ + s@,
{
    let mut i: usize = 0;
    while i < s.len()
        invariant
            i <= s@.len(),
            out@ == old(out)@ + s@.subrange(0, i as int),
        decreases s@.len() - i,
    {
        out.push(s[i]);
        i = i + 1;
        assert(out@ =~= old(out)@ + s@.subrange(0, i as int));
    }
    assert(s@.subrange(0, s@.len() as int) =~= s@);
}

/// The strings joined by the character `sep`.
pub fn join_strings(v: &[String], sep: char) -> (r: String)
    ensures
        r@ == join_with(strs_view(v@), seq![sep]),
{
    let mut out: Vec<char> = Vec::new();
    if v.len() == 0 {
        return string_of(out.as_slice());
    }
    let first = chars_of_string(&v[0]);
    append_chars(&mut out, first.as_slice());
    let mut i: usize = 1;
    assert(strs_view(v@).subrange(0, 1) =~= seq![v@[0]@]);
    while i < v.len()
        invariant
            1 <= i <= v@.len(),
            out@ == join_with(strs_view(v@).subrange(0, i as int), seq![sep]),
        decreases v@.len() - i,
    {
        let ghost prev = strs_view(v@).subrange(0, i as int);
        out.push(sep);
        let next = chars_of_string(&v[i]);
        append_chars(&mut out, next.as_slice());
        assert(strs_view(v@).subrange(0, i + 1).drop_last() =~= prev);
        assert(out@ =~= join_with(prev, seq![sep]) + seq![sep] + v@[i as int]@);
        i = i + 1;
    }
    assert(strs_view(v@).subrange(0, v@.len() as int) =~= strs_view(v@));
    string_of(out.as_slice())
}

/// Decimal text of an integer, with a leading `-` when negative.
pub open spec fn int_string(n: int) -> Seq<char> {
    if n < 0 {
        seq!['-'] + dec_string((-n) as nat)
    } else {
        dec_string(n as nat)
    }
}

/// Appends the decimal text of a signed integer.
pub fn push_int(out: &mut Vec<char>, n: i64)
    ensures
        final(out)@ == old(out)@ + int_string(n as int),
{
    if n < 0 {
        out.push('-');
        let m: u64 = if n == i64::MIN {
            9223372036854775808u64
        } else {
            (-n) as u64
        };
        push_dec(out, m);
        assert(out@ =~= old(out)@ + int_string(n as int));
    } else {
        push_dec(out, n as u64);
    }
}

/// Result of parsing a signed integer type with range `min..=max`
/// (`FromStr`): an optional `+` or `-`, then one or more decimal digits.
pub open spec fn parse_int(s: Seq<char>, min: int, max: int) -> Option<int> {
    if s.len() > 0 && s[0] == '-' {
        let body = s.drop_first();
        if body.len() > 0 && all_digits(body, 10) && -digits_value(body, 10) >= min {
            Some(-digits_value(body, 10))
        } else {
            None
        }
    } else {
        parse_uint(s, 10, max)
    }
}

/// Parses an `i32` as `str::parse::<i32>` does.
pub fn parse_i32_exec(s: &[char]) -> (r: Option<i32>)
    ensures
        r matches Some(v) ==> parse_int(s@, i32::MIN as int, i32::MAX as int) == Some(v as int),
        r is None ==> parse_int(s@, i32::MIN as int, i32::MAX as int) is None,
{
    if s.len() > 0 && s[0] == '-' {
        let body = sub_vec(s, 1, s.len());
        assert(body@ =~= s@.drop_first());
        if body.len() > 0 && body[0] == '+' {
            assert(!all_digits(body@, 10)) by {
                assert(digit_val(body@[0], 10) < 0);
            }
            return None;
        }
        assert(num_body(body@) == body@);
        match parse_uint_exec(body.as_slice(), 10, 2147483648) {
            Some(v) => {
                let w: i64 = -(v as i64);
                Some(w as i32)
            },
            None => None,
        }
    } else {
        match parse_uint_exec(s, 10, 2147483647) {
            Some(v) => Some(v as i32),
            None => None,
        }
    }
}

/// Integer division rounding toward zero, as Rust's `/` on signed integers.
pub open spec fn trunc_div(a: int, b: int) -> int {
    if a >= 0 {
        a / b
    } else {
        -((-a) / b)
    }
}

/// `v / 100` on an `i32`, rounding toward zero.
pub fn div100(v: i32) -> (r: i32)
    ensures
        r as int == trunc_div(v as int, 100),
{
    let w = v as i64;
    if w >= 0 {
        (w / 100) as i32
    } else {
        (-((-w) / 100)) as i32
    }
}

/// The characters of `a` followed by those of `b`.
pub fn concat_str(a: &str, b: &[char]) -> (r: Vec<char>)
    ensures
        r@ == a@ + b@,
{
    let mut out = chars_of(a);
    append_chars(&mut out, b);
    out
}

/// A Unicode scalar value: below 0xD800, or 0xE000 to 0x10FFFF.
pub open spec fn is_scalar(n: int) -> bool {
    (0 <= n < 0xD800) || (0xE000 <= n <= 0x10FFFF)
}

/// The character of a code point (std `char::from_u32`): documented to give
/// the character for a Unicode scalar value and `None` for anything else.
#[verifier::external_body]
pub fn char_from_u32(n: u32) -> (r: Option<char>)
    ensures
        is_scalar(n as int) ==> r == Some(n as char),
        !is_scalar(n as int) ==> r is None,
{
    char::from_u32(n)
}

/// Every character is ASCII.
pub open spec fn is_ascii_text(s: Seq<char>) -> bool {
    forall|i: int| 0 <= i < s.len() ==> (#[trigger] s[i] as u32) < 128
}

/// ASCII letters made upper case (what `str::to_uppercase` does to ASCII text).
pub open spec fn ascii_upper(s: Seq<char>) -> Seq<char> {
    s.map_values(|c: char| if 'a' <= c <= 'z' { ((c as u32) - 32) as char } else { c })
}

/// The text with ASCII letters made upper case.
pub fn ascii_upper_exec(s: &[char]) -> (r: Vec<char>)
    ensures
        r@ == ascii_upper(s@),
{
    let mut out: Vec<char> = Vec::new();
    let mut i: usize = 0;
    while i < s.len()
        invariant
            i <= s@.len(),
            out@ == ascii_upper(s@.subrange(0, i as int)),
        decreases s@.len() - i,
    {
        let c = s[i];
        let u = if 'a' <= c && c <= 'z' {
            let v = (c as u32) - 32;
            let d = char_from_u32(v);
            match d {
                Some(x) => x,
                None => c,
            }
        } else {
            c
        };
        out.push(u);
        i = i + 1;
        assert(out@ =~= ascii_upper(s@.subrange(0, i as int)));
    }
    assert(s@.subrange(0, s@.len() as int) =~= s@);
    out
}

/// Whether every character is ASCII.
pub fn is_ascii_exec(s: &[char]) -> (r: bool)
    ensures
        r == is_ascii_text(s@),
{
    let mut i: usize = 0;
    while i < s.len()
        invariant
            i <= s@.len(),
            forall|j: int| 0 <= j < i ==> (#[trigger] s@[j] as u32) < 128,
        decreases s@.len() - i,
    {
        if (s[i] as u32) >= 128 {
            return false;
        }
        i = i + 1;
    }
    true
}

/// ASCII letters made lower case.
pub open spec fn ascii_lower(s: Seq<char>) -> Seq<char> {
    s.map_values(|c: char| if 'A' <= c <= 'Z' { ((c as u32) + 32) as char } else { c })
}

/// The text with ASCII letters made lower case.
pub fn ascii_lower_exec(s: &[char]) -> (r: Vec<char>)
    ensures
        r@ == ascii_lower(s@),
{
    let mut out: Vec<char> = Vec::new();
    let mut i: usize = 0;
    while i < s.len()
        invariant
            i <= s@.len(),
            out@ == ascii_lower(s@.subrange(0, i as int)),
        decreases s@.len() - i,
    {
        let c = s[i];
        let u = if 'A' <= c && c <= 'Z' {
            match char_from_u32((c as u32) + 32) {
                Some(x) => x,
                None => c,
            }
        } else {
            c
        };
        out.push(u);
        i = i + 1;
        assert(out@ =~= ascii_lower(s@.subrange(0, i as int)));
    }
    assert(s@.subrange(0, s@.len() as int) =~= s@);
    out
}

/// Position of the first occurrence of `p` in `s` at or after `i`.
pub open spec fn find_from(s: Seq<char>, p: Seq<char>, i: int) -> Option<int>
    decreases s.len() - i,
{
    if i < 0 || i + p.len() > s.len() {
        None
    } else if occurs_at(s, p, i) {
        Some(i)
    } else if i >= s.len() {
        None
    } else {
        find_from(s, p, i + 1)
    }
}

/// Position of the first occurrence of `p` in `s` at or after `start`.
pub fn find_exec(s: &[char], p: &[char], start: usize) -> (r: Option<usize>)
    requires
        p@.len() > 0,
    ensures
        match r {
            Some(k) => find_from(s@, p@, start as int) == Some(k as int) && occurs_at(s@, p@, k as int),
            None => find_from(s@, p@, start as int) is None,
        },
{
    let mut i = start;
    while i <= s.len() && p.len() <= s.len() - i
        invariant
            start <= i,
            p@.len() > 0,
            find_from(s@, p@, start as int) == find_from(s@, p@, i as int),
        decreases s@.len() + 1 - i,
    {
        if occurs_at_exec(s, p, i) {
            return Some(i);
        }
        i = i + 1;
    }
    None
}

/// Index of the first whitespace character, or the length when none.
pub open spec fn ws_index(s: Seq<char>) -> int
    decreases s.len(),
{
    if s.len() == 0 {
        0
    } else if is_ws(s[0]) {
        0
    } else {
        1 + ws_index(s.drop_first())
    }
}

/// The first whitespace index is in range, no earlier character is whitespace, and it is one.
pub proof fn lemma_ws_index(s: Seq<char>)
    ensures
        0 <= ws_index(s) <= s.len(),
        forall|j: int| 0 <= j < ws_index(s) ==> !is_ws(#[trigger] s[j]),
        ws_index(s) < s.len() ==> is_ws(s[ws_index(s)]),
    decreases s.len(),
{
    if s.len() > 0 && !is_ws(s[0]) {
        lemma_ws_index(s.drop_first());
        assert forall|j: int| 0 <= j < ws_index(s) implies !is_ws(#[trigger] s[j]) by {
            if j > 0 {
                assert(s[j] == s.drop_first()[j - 1]);
            }
        }
    }
}

/// Trimming the start keeps a suffix of the text that does not start with whitespace.
pub proof fn lemma_trim_start_first(s: Seq<char>)
    ensures
        trim_start(s).len() <= s.len(),
        trim_start(s).len() > 0 ==> !is_ws(trim_start(s)[0]),
        trim_start(s) == s.subrange(s.len() - trim_start(s).len(), s.len() as int),
    decreases s.len(),
{
    if s.len() > 0 && is_ws(s[0]) {
        lemma_trim_start_first(s.drop_first());
        assert(s.drop_first().subrange(
            s.drop_first().len() - trim_start(s.drop_first()).len(),
            s.drop_first().len() as int,
        ) =~= s.subrange(s.len() - trim_start(s).len(), s.len() as int));
    } else {
        assert(s.subrange(0, s.len() as int) =~= s);
    }
}

/// The whitespace-separated words of a text (`str::split_whitespace`).
pub open spec fn words(s: Seq<char>) -> Seq<Seq<char>>
    decreases s.len(),
{
    let t = trim_start(s);
    if t.len() == 0 {
        seq![]
    } else {
        proof {
            lemma_trim_start_first(s);
            lemma_ws_index(t);
            lemma_ws_index(t.drop_first());
        }
        let k = ws_index(t);
        seq![t.subrange(0, k)] + words(t.subrange(k, t.len() as int))
    }
}

/// The whitespace-separated words of a text.
pub fn words_of(s: &[char]) -> (r: Vec<Vec<char>>)
    ensures
        seqs_of(r@) == words(s@),
{
    let n = s.len();
    let mut out: Vec<Vec<char>> = Vec::new();
    let mut i: usize = 0;
    assert(s@.subrange(0, n as int) =~= s@);
    loop
        invariant
            i <= n == s@.len(),
            seqs_of(out@) + words(s@.subrange(i as int, n as int)) == words(s@),
        decreases n - i,
    {
        let ghost rest = s@.subrange(i as int, n as int);
        let mut j = i;
        while j < n && is_whitespace_char(s[j])
            invariant
                i <= j <= n == s@.len(),
                rest == s@.subrange(i as int, n as int),
                trim_start(rest) == trim_start(s@.subrange(j as int, n as int)),
            decreases n - j,
        {
            assert(s@.subrange(j as int, n as int).drop_first() =~= s@.subrange(j + 1, n as int));
            j = j + 1;
        }
        let ghost t = s@.subrange(j as int, n as int);
        assert(j == n || !is_ws(t[0]));
        assert(trim_start(t) == t) by {
            if t.len() > 0 {
                assert(!is_ws(t[0]));
            }
        }
        if j == n {
            assert(trim_start(rest).len() == 0);
            assert(words(rest) =~= Seq::<Seq<char>>::empty());
            assert(seqs_of(out@) =~= words(s@));
            return out;
        }
        let mut k = j;
        while k < n && !is_whitespace_char(s[k])
            invariant
                j <= k <= n == s@.len(),
                forall|m: int| j <= m < k ==> !is_ws(#[trigger] s@[m]),
            decreases n - k,
        {
            k = k + 1;
        }
        proof {
            lemma_ws_index(t);
            assert(ws_index(t) == k - j) by {
                lemma_ws_index_is(t, k - j);
                assert forall|m: int| 0 <= m < k - j implies !is_ws(#[trigger] t[m]) by {
                    assert(t[m] == s@[j + m]);
                }
                if k < n {
                    assert(t[k - j] == s@[k as int]);
                }
            }
            assert(t.subrange(0, k - j) =~= s@.subrange(j as int, k as int));
            assert(t.subrange(k - j, t.len() as int) =~= s@.subrange(k as int, n as int));
        }
        let w = sub_vec(s, j, k);
        let ghost o = out@;
        out.push(w);
        proof {
            lemma_seqs_of_push(o, w);
            assert(seqs_of(out@) + words(s@.subrange(k as int, n as int)) =~= seqs_of(o) + words(
                rest,
            ));
        }
        i = k;
    }
}

proof fn lemma_ws_index_is(t: Seq<char>, k: int)
    requires
        0 <= k <= t.len(),
        forall|m: int| 0 <= m < k ==> !is_ws(#[trigger] t[m]),
        k < t.len() ==> is_ws(t[k]),
    ensures
        ws_index(t) == k,
    decreases k,
{
    if k > 0 {
        assert forall|m: int| 0 <= m < k - 1 implies !is_ws(#[trigger] t.drop_first()[m]) by {
            assert(t.drop_first()[m] == t[m + 1]);
        }
        if k - 1 < t.drop_first().len() {
            assert(t.drop_first()[k - 1] == t[k]);
        }
        lemma_ws_index_is(t.drop_first(), k - 1);
    }
}

/// The text of the UTF-8 bytes `from..to` of a text, as a `str` byte range
/// gives it (where both ends are character boundaries).
pub open spec fn byte_slice(s: Seq<char>, from: int, to: int) -> Seq<char> {
    decode_utf8(encode_utf8(s).subrange(from, to))
}

/// The length of a text in UTF-8 bytes (std `str::len`).
pub fn byte_len(s: &str) -> (r: usize)
    ensures
        r == encode_utf8(s@).len(),
{
    s.as_bytes().len()
}

/// A text split at a byte offset that is a character boundary (std
/// `str::split_at`): the characters before and after it.
pub fn split_at_byte(s: &str, mid: usize) -> (r: (Vec<char>, Vec<char>))
    requires
        is_char_boundary(encode_utf8(s@), mid as int),
    ensures
        mid <= encode_utf8(s@).len(),
        r.0@ == byte_slice(s@, 0, mid as int),
        r.1@ == byte_slice(s@, mid as int, encode_utf8(s@).len() as int),
{
    proof {
        encode_utf8_valid_utf8(s@);
    }
    let (a, b) = s.split_at(mid);
    proof {
        encode_utf8_valid_utf8(s@);
        encode_utf8_decode_utf8(a@);
        encode_utf8_decode_utf8(b@);
    }
    (chars_of(a), chars_of(b))
}

} // verus!
