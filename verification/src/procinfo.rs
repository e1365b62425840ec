//! Readings of system texts: the memory figures of `/proc/meminfo`, the
//! addresses listed by `ip addr show`, and the round-trip time printed by
//! `ping`.

use vstd::prelude::*;
use vstd::string::*;
use crate::text::{
    chars_of, find_exec, find_from, index_of_char, lemma_index_of_char, lines, lines_of,
    parse_uint, parse_uint_exec, seqs_of, starts_with, starts_with_exec, string_of, sub_vec,
    words, words_of,
};
use crate::loader::same_chars;
use crate::system::parse_u64;
use crate::mounts::{sort_texts, texts_sorted, texts_view};

verus! {

// ---------------------------------------------------------------- memory

/// The byte value of a `/proc/meminfo` line's words: the second word read as
/// kilobytes (0 when it does not parse) times 1024.
pub open spec fn kb_bytes(w: Seq<Seq<char>>) -> int {
    match parse_uint(w[1], 10, u64::MAX as int) {
        Some(v) => v * 1024,
        None => 0,
    }
}

/// Total, available, cached and buffer memory in bytes after the lines in
/// order: a line of at least two words whose first word is `MemTotal:`,
/// `MemAvailable:`, `Cached:` or `Buffers:` sets that figure; 0 for a figure
/// no line sets.
pub open spec fn meminfo_scan(ls: Seq<Seq<char>>) -> (int, int, int, int)
    decreases ls.len(),
{
    if ls.len() == 0 {
        (0, 0, 0, 0)
    } else {
        let r = meminfo_scan(ls.drop_last());
        let w = words(ls.last());
        if w.len() < 2 {
            r
        } else if w[0] == "MemTotal:"@ {
            (kb_bytes(w), r.1, r.2, r.3)
        } else if w[0] == "MemAvailable:"@ {
            (r.0, kb_bytes(w), r.2, r.3)
        } else if w[0] == "Cached:"@ {
            (r.0, r.1, kb_bytes(w), r.3)
        } else if w[0] == "Buffers:"@ {
            (r.0, r.1, r.2, kb_bytes(w))
        } else {
            r
        }
    }
}

/// Every line's byte value fits in 64 bits (it does for real kilobyte counts).
pub open spec fn meminfo_fits(content: Seq<char>) -> bool {
    forall|k: int|
        0 <= k < lines(content).len() && words(#[trigger] lines(content)[k]).len() >= 2
            ==> kb_bytes(words(lines(content)[k])) <= u64::MAX
}

fn kb_bytes_exec(w: &Vec<Vec<char>>) -> (r: Option<u64>)
    requires
        w@.len() >= 2,
    ensures
        match r {
            Some(v) => v as int == kb_bytes(seqs_of(w@)),
            None => kb_bytes(seqs_of(w@)) > u64::MAX,
        },
{
    assert(seqs_of(w@)[1] == w@[1]@);
    match parse_u64(w[1].as_slice()) {
        Some(v) => if v <= u64::MAX / 1024 {
            Some(v * 1024)
        } else {
            None
        },
        None => Some(0),
    }
}

fn is_text(v: &[char], lit: &str) -> (r: bool)
    ensures
        r == (v@ == lit@),
{
    let l = chars_of(lit);
    same_chars(v, l.as_slice())
}

/// Whether every line's byte value of a `/proc/meminfo` text fits in 64 bits.
pub fn meminfo_in_range(content: &str) -> (r: bool)
    ensures
        r == meminfo_fits(content@),
{
    let text = chars_of(content);
    let ls = lines_of(text.as_slice());
    let ghost all = seqs_of(ls@);
    let mut i: usize = 0;
    while i < ls.len()
        invariant
            i <= ls@.len(),
            all == seqs_of(ls@),
            all == lines(content@),
            forall|k: int|
                0 <= k < i && words(#[trigger] all[k]).len() >= 2 ==> kb_bytes(words(all[k])) <= u64::MAX,
        decreases ls@.len() - i,
    {
        let w = words_of(ls[i].as_slice());
        assert(all[i as int] == ls@[i as int]@);
        if w.len() >= 2 {
            if kb_bytes_exec(&w).is_none() {
                return false;
            }
        }
        i = i + 1;
    }
    true
}

/// Total, available, cached and buffer memory of a `/proc/meminfo` text.
pub fn meminfo_values(content: &str) -> (r: (u64, u64, u64, u64))
    requires
        meminfo_fits(content@),
    ensures
        (r.0 as int, r.1 as int, r.2 as int, r.3 as int) == meminfo_scan(lines(content@)),
{
    let text = chars_of(content);
    let ls = lines_of(text.as_slice());
    let ghost all = seqs_of(ls@);
    let mut total: u64 = 0;
    let mut available: u64 = 0;
    let mut cached: u64 = 0;
    let mut buffers: u64 = 0;
    let mut i: usize = 0;
    while i < ls.len()
        invariant
            i <= ls@.len(),
            all == seqs_of(ls@),
            all == lines(content@),
            meminfo_fits(content@),
            (total as int, available as int, cached as int, buffers as int) == meminfo_scan(
                all.subrange(0, i as int),
            ),
        decreases ls@.len() - i,
    {
        proof {
            assert(all.subrange(0, i + 1).drop_last() =~= all.subrange(0, i as int));
            assert(all.subrange(0, i + 1).last() == ls@[i as int]@);
        }
        let w = words_of(ls[i].as_slice());
        if w.len() >= 2 {
            let v = match kb_bytes_exec(&w) {
                Some(v) => v,
                None => {
                    assert(all[i as int] == ls@[i as int]@);
                    return (total, available, cached, buffers);
                },
            };
            assert(seqs_of(w@)[0] == w@[0]@);
            if is_text(w[0].as_slice(), "MemTotal:") {
                total = v;
            } else if is_text(w[0].as_slice(), "MemAvailable:") {
                available = v;
            } else if is_text(w[0].as_slice(), "Cached:") {
                cached = v;
            } else if is_text(w[0].as_slice(), "Buffers:") {
                buffers = v;
            }
        }
        i = i + 1;
    }
    assert(all.subrange(0, all.len() as int) =~= all);
    (total, available, cached, buffers)
}


// ---------------------------------------------------------------- addresses

/// An address line of `ip addr show`: the address text, its prefix length
/// and `ipv4` or `ipv6`.
pub struct InetCandidate {
    pub address: String,
    pub prefix_len: u8,
    pub ip_type: String,
}

/// A candidate as (address, prefix length, type).
pub open spec fn inet_view(c: InetCandidate) -> (Seq<char>, u8, Seq<char>) {
    (c.address@, c.prefix_len, c.ip_type@)
}

/// The views of candidates.
pub open spec fn inets_view(v: Seq<InetCandidate>) -> Seq<(Seq<char>, u8, Seq<char>)> {
    v.map_values(|c: InetCandidate| inet_view(c))
}

/// The candidate of one line: trimmed, it starts with `inet ` or `inet6 `,
/// has a second word, and that word holds a `/`; the address is before the
/// first `/`, the prefix length after it (0 when it does not parse as `u8`),
/// the type `ipv4` when the first word is `inet`, else `ipv6`.
pub open spec fn inet_line(raw: Seq<char>) -> Option<(Seq<char>, u8, Seq<char>)> {
    let line = crate::text::trim(raw);
    let w = words(line);
    if !(starts_with(line, "inet "@) || starts_with(line, "inet6 "@)) || w.len() < 2 {
        None
    } else {
        let k = index_of_char(w[1], '/');
        if k < 0 {
            None
        } else {
            Some(
                (
                    w[1].subrange(0, k),
                    match parse_uint(w[1].subrange(k + 1, w[1].len() as int), 10, 255) {
                        Some(v) => v as u8,
                        None => 0u8,
                    },
                    if w[0] == "inet"@ {
                        "ipv4"@
                    } else {
                        "ipv6"@
                    },
                ),
            )
        }
    }
}

/// The candidates of the lines, in order.
pub open spec fn inet_lines(ls: Seq<Seq<char>>) -> Seq<(Seq<char>, u8, Seq<char>)>
    decreases ls.len(),
{
    if ls.len() == 0 {
        seq![]
    } else {
        let rest = inet_lines(ls.drop_last());
        match inet_line(ls.last()) {
            Some(c) => rest.push(c),
            None => rest,
        }
    }
}

fn inet_line_exec(raw: &[char]) -> (r: Option<InetCandidate>)
    ensures
        match inet_line(raw@) {
            Some(c) => r matches Some(x) && inet_view(x) == c,
            None => r is None,
        },
{
    let line = crate::loader::trimmed(raw);
    let a = chars_of("inet ");
    let b = chars_of("inet6 ");
    if !(starts_with_exec(line.as_slice(), a.as_slice()) || starts_with_exec(line.as_slice(), b.as_slice())) {
        return None;
    }
    let w = words_of(line.as_slice());
    if w.len() < 2 {
        return None;
    }
    let ghost wv = seqs_of(w@);
    assert(wv[0] == w@[0]@ && wv[1] == w@[1]@);
    let second = &w[1];
    let k = crate::text::find_char_from(second.as_slice(), '/', 0);
    proof {
        lemma_index_of_char(second@, '/');
    }
    if k == second.len() {
        return None;
    }
    let addr = sub_vec(second.as_slice(), 0, k);
    let pre = sub_vec(second.as_slice(), k + 1, second.len());
    let prefix_len: u8 = match parse_uint_exec(pre.as_slice(), 10, 255) {
        Some(v) => v as u8,
        None => 0,
    };
    let ip_type = if is_text(w[0].as_slice(), "inet") {
        "ipv4".to_owned()
    } else {
        "ipv6".to_owned()
    };
    Some(InetCandidate { address: string_of(addr.as_slice()), prefix_len, ip_type })
}

/// The address lines of an `ip addr show` output (see `inet_line`), in order.
pub fn inet_candidates(output: &str) -> (r: Vec<InetCandidate>)
    ensures
        inets_view(r@) == inet_lines(lines(output@)),
{
    let text = chars_of(output);
    let ls = lines_of(text.as_slice());
    let ghost all = seqs_of(ls@);
    let mut out: Vec<InetCandidate> = Vec::new();
    let mut i: usize = 0;
    assert(inets_view(out@) =~= inet_lines(all.subrange(0, 0)));
    while i < ls.len()
        invariant
            i <= ls@.len(),
            all == seqs_of(ls@),
            all == lines(output@),
            inets_view(out@) == inet_lines(all.subrange(0, i as int)),
        decreases ls@.len() - i,
    {
        proof {
            assert(all.subrange(0, i + 1).drop_last() =~= all.subrange(0, i as int));
            assert(all.subrange(0, i + 1).last() == ls@[i as int]@);
        }
        match inet_line_exec(ls[i].as_slice()) {
            Some(c) => {
                let ghost o = inets_view(out@);
                let ghost cv = inet_view(c);
                out.push(c);
                assert(inets_view(out@) =~= o.push(cv));
            },
            None => {},
        }
        i = i + 1;
    }
    assert(all.subrange(0, all.len() as int) =~= all);
    out
}

// ---------------------------------------------------------------- ping

/// The longest prefix of digits and dots.
pub open spec fn digits_and_dots(s: Seq<char>) -> Seq<char>
    decreases s.len(),
{
    if s.len() > 0 && (('0' <= s[0] <= '9') || s[0] == '.') {
        seq![s[0]] + digits_and_dots(s.drop_first())
    } else {
        seq![]
    }
}

/// Number of dots in a text.
pub open spec fn dot_count(s: Seq<char>) -> nat
    decreases s.len(),
{
    if s.len() == 0 {
        0
    } else {
        dot_count(s.drop_last()) + if s.last() == '.' {
            1nat
        } else {
            0nat
        }
    }
}

/// A digits-and-dots text that `str::parse::<f64>` accepts: at least one
/// digit and at most one dot.
pub open spec fn decimal_text(t: Seq<char>) -> bool {
    dot_count(t) <= 1 && dot_count(t) < t.len()
}

/// The round-trip text of ping output: from the first line that holds
/// `time=` and whose digits and dots right after its first `time=` form a
/// decimal number.
pub open spec fn ping_latency_of(ls: Seq<Seq<char>>) -> Option<Seq<char>>
    decreases ls.len(),
{
    if ls.len() == 0 {
        None
    } else {
        let rest = ping_latency_of(ls.drop_first());
        match find_from(ls[0], "time="@, 0) {
            Some(p) => {
                let t = digits_and_dots(ls[0].subrange(p + 5, ls[0].len() as int));
                if decimal_text(t) {
                    Some(t)
                } else {
                    rest
                }
            },
            None => rest,
        }
    }
}

fn digits_and_dots_exec(s: &[char], from: usize) -> (r: Vec<char>)
    requires
        from <= s@.len(),
    ensures
        r@ == digits_and_dots(s@.subrange(from as int, s@.len() as int)),
        dot_count(r@) <= r@.len(),
{
    let mut out: Vec<char> = Vec::new();
    let mut i = from;
    let ghost whole = digits_and_dots(s@.subrange(from as int, s@.len() as int));
    while i < s.len() && (('0' <= s[i] && s[i] <= '9') || s[i] == '.')
        invariant
            from <= i <= s@.len(),
            out@ + digits_and_dots(s@.subrange(i as int, s@.len() as int)) == whole,
        decreases s@.len() - i,
    {
        let ghost rest = s@.subrange(i as int, s@.len() as int);
        assert(rest[0] == s@[i as int]);
        assert(rest.drop_first() =~= s@.subrange(i + 1, s@.len() as int));
        out.push(s[i]);
        i = i + 1;
        assert(out@ + digits_and_dots(s@.subrange(i as int, s@.len() as int)) =~= whole);
    }
    let ghost rest = s@.subrange(i as int, s@.len() as int);
    if i < s.len() {
        assert(rest[0] == s@[i as int]);
    }
    assert(out@ =~= whole);
    proof {
        lemma_dot_count_le(out@);
    }
    out
}

proof fn lemma_dot_count_le(s: Seq<char>)
    ensures
        dot_count(s) <= s.len(),
    decreases s.len(),
{
    if s.len() > 0 {
        lemma_dot_count_le(s.drop_last());
    }
}

fn count_dots(t: &Vec<char>) -> (r: usize)
    ensures
        r == dot_count(t@),
{
    let mut n: usize = 0;
    let mut i: usize = 0;
    while i < t.len()
        invariant
            i <= t@.len(),
            n == dot_count(t@.subrange(0, i as int)),
            n <= i,
        decreases t@.len() - i,
    {
        assert(t@.subrange(0, i + 1).drop_last() =~= t@.subrange(0, i as int));
        if t[i] == '.' {
            n = n + 1;
        }
        i = i + 1;
    }
    assert(t@.subrange(0, t@.len() as int) =~= t@);
    n
}

/// The round-trip time text of ping output (see `ping_latency_of`); it reads
/// as a decimal number.
pub fn ping_latency_text(output: &str) -> (r: Option<String>)
    ensures
        match ping_latency_of(lines(output@)) {
            Some(t) => r matches Some(x) && x@ == t,
            None => r is None,
        },
{
    let text = chars_of(output);
    let ls = lines_of(text.as_slice());
    let ghost all = seqs_of(ls@);
    let key = chars_of("time=");
    proof {
        reveal_strlit("time=");
    }
    let mut i: usize = 0;
    assert(all.subrange(0, all.len() as int) =~= all);
    while i < ls.len()
        invariant
            i <= ls@.len(),
            all == seqs_of(ls@),
            all == lines(output@),
            key@ == "time="@,
            key@.len() == 5,
            ping_latency_of(all) == ping_latency_of(all.subrange(i as int, all.len() as int)),
        decreases ls@.len() - i,
    {
        let ghost rest = all.subrange(i as int, all.len() as int);
        assert(rest[0] == ls@[i as int]@);
        assert(rest.drop_first() =~= all.subrange(i + 1, all.len() as int));
        let line = &ls[i];
        match find_exec(line.as_slice(), key.as_slice(), 0) {
            Some(p) => {
                let n = line.len();
                assert(p + key@.len() <= line@.len());
                assert(p + 5 <= n);
                let t = digits_and_dots_exec(line.as_slice(), p + 5);
                let dots = count_dots(&t);
                if dots <= 1 && dots < t.len() {
                    return Some(string_of(t.as_slice()));
                }
            },
            None => {},
        }
        i = i + 1;
    }
    None
}

/// The names that are thermal zones (`thermal_zone...`).
pub open spec fn zone_names(v: Seq<Seq<char>>) -> Seq<Seq<char>> {
    v.filter(|n: Seq<char>| crate::text::starts_with(n, "thermal_zone"@))
}

/// The thermal zones among directory entry names, in character order.
pub fn thermal_zone_names(entries: Vec<String>) -> (r: Vec<String>)
    ensures
        texts_sorted(texts_view(r@)),
        texts_view(r@).to_multiset() == zone_names(texts_view(entries@)).to_multiset(),
{
    let prefix = chars_of("thermal_zone");
    let mut zones: Vec<String> = Vec::new();
    let mut i: usize = 0;
    while i < entries.len()
        invariant
            i <= entries@.len(),
            prefix@ == "thermal_zone"@,
            texts_view(zones@) == zone_names(texts_view(entries@).subrange(0, i as int)),
        decreases entries@.len() - i,
    {
        let ghost pre = texts_view(entries@).subrange(0, i + 1);
        assert(pre.drop_last() =~= texts_view(entries@).subrange(0, i as int));
        assert(pre.last() == entries@[i as int]@);
        let name = crate::text::chars_of_string(&entries[i]);
        let ghost before = texts_view(zones@);
        if crate::text::starts_with_exec(name.as_slice(), prefix.as_slice()) {
            zones.push(entries[i].clone());
            assert(texts_view(zones@) =~= before.push(entries@[i as int]@));
        }
        proof {
            assert(pre.filter(|n: Seq<char>| crate::text::starts_with(n, "thermal_zone"@))
                == pre.drop_last().filter(|n: Seq<char>| crate::text::starts_with(n, "thermal_zone"@)) + if crate::text::starts_with(pre.last(), "thermal_zone"@) {
                    seq![pre.last()]
                } else {
                    Seq::<Seq<char>>::empty()
                }) by {
                reveal(Seq::filter);
                assert(pre.drop_last() == pre.subrange(0, pre.len() - 1));
            }
            assert(texts_view(zones@) =~= zone_names(pre));
        }
        i = i + 1;
    }
    assert(texts_view(entries@).subrange(0, entries@.len() as int) =~= texts_view(entries@));
    sort_texts(zones)
}

/// The rules of a firewall listing (`iptables -S`): its lines that append
/// a rule (`-A ...`).
pub open spec fn rule_count(ls: Seq<Seq<char>>) -> nat
    decreases ls.len(),
{
    if ls.len() == 0 {
        0
    } else {
        rule_count(ls.drop_last()) + if crate::text::starts_with(ls.last(), "-A "@) {
            1nat
        } else {
            0nat
        }
    }
}

/// The number of rules in a firewall listing (see `rule_count`).
pub fn count_rules(listing: &str) -> (r: usize)
    ensures
        r == rule_count(lines(listing@)),
{
    let text = chars_of(listing);
    let ls = lines_of(text.as_slice());
    let ghost all = seqs_of(ls@);
    let prefix = chars_of("-A ");
    let mut n: usize = 0;
    let mut i: usize = 0;
    while i < ls.len()
        invariant
            i <= ls@.len(),
            all == seqs_of(ls@),
            prefix@ == "-A "@,
            n == rule_count(all.subrange(0, i as int)),
            n <= i,
        decreases ls@.len() - i,
    {
        let ghost pre = all.subrange(0, i + 1);
        assert(pre.drop_last() =~= all.subrange(0, i as int));
        assert(pre.last() == ls@[i as int]@);
        if crate::text::starts_with_exec(ls[i].as_slice(), prefix.as_slice()) {
            n = n + 1;
        }
        i = i + 1;
    }
    assert(all.subrange(0, all.len() as int) =~= all);
    n
}

} // verus!
