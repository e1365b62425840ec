//! Serving and neighbour cell readings from the `AT+SPENGMD` engineering
//! responses of the modem.

use vstd::prelude::*;
use vstd::string::*;
use crate::models::{CellInfo, CellView};
use crate::text::{
    append_chars, chars_of, chars_of_string, dec_string, join_strings, join_with, owned, parse_uint,
    parse_uint_exec, rows_view, seqs_of, split_char, split_of, string_of, strings_of,
    strip_suffixes, strip_suffixes_exec, strs_view, trim, without_crlf, without_crlf_exec,
};
use crate::loader::{same_chars, trimmed};

verus! {

/// The engineering-mode queries for one radio technology.
#[derive(Debug, Clone, Copy)]
pub struct CellCommandConfig {
    /// Query of the serving cell.
    pub primary: &'static str,
    /// Query of the neighbour cells.
    pub neighbor: &'static str,
}

/// The engineering-mode queries for `nr` and `lte`; no other technology has any.
pub fn get_cell_command_config(tech: &str) -> (r: Option<CellCommandConfig>)
    ensures
        tech@ == "nr"@ ==> (r matches Some(c) && c.primary@ == "AT+SPENGMD=0,14,1"@
            && c.neighbor@ == "AT+SPENGMD=0,14,2"@),
        tech@ == "lte"@ ==> (r matches Some(c) && c.primary@ == "AT+SPENGMD=0,6,0"@
            && c.neighbor@ == "AT+SPENGMD=0,6,6"@),
        tech@ != "nr"@ && tech@ != "lte"@ ==> r is None,
{
    let t = chars_of(tech);
    let nr = chars_of("nr");
    let lte = chars_of("lte");
    proof {
        reveal_strlit("nr");
        reveal_strlit("lte");
        assert("nr"@.len() == 2);
        assert("lte"@.len() == 3);
    }
    if same_chars(t.as_slice(), nr.as_slice()) {
        Some(CellCommandConfig { primary: "AT+SPENGMD=0,14,1", neighbor: "AT+SPENGMD=0,14,2" })
    } else if same_chars(t.as_slice(), lte.as_slice()) {
        Some(CellCommandConfig { primary: "AT+SPENGMD=0,6,0", neighbor: "AT+SPENGMD=0,6,6" })
    } else {
        None
    }
}

/// NR band of an NR-ARFCN (3GPP TS 38.104), empty when unknown; the n77/n78
/// overlap is read as n78.
pub open spec fn nr_band_of(arfcn: u32) -> Seq<char> {
    if 422000 <= arfcn <= 434000 {
        "n1"@
    } else if 361000 <= arfcn <= 376000 {
        "n3"@
    } else if 185000 <= arfcn <= 192000 {
        "n8"@
    } else if 151600 <= arfcn <= 160600 {
        "n28"@
    } else if 499200 <= arfcn <= 537999 {
        "n41"@
    } else if 620000 <= arfcn <= 680000 {
        "n78"@
    } else if 693334 <= arfcn <= 733333 {
        "n79"@
    } else {
        ""@
    }
}

/// LTE band of an EARFCN (3GPP TS 36.101), empty when unknown.
pub open spec fn lte_band_of(earfcn: u32) -> Seq<char> {
    if earfcn <= 599 {
        "B1"@
    } else if 1200 <= earfcn <= 1949 {
        "B3"@
    } else if 2400 <= earfcn <= 2649 {
        "B5"@
    } else if 2750 <= earfcn <= 3449 {
        "B7"@
    } else if 3450 <= earfcn <= 3799 {
        "B8"@
    } else if 6150 <= earfcn <= 6449 {
        "B20"@
    } else if 9210 <= earfcn <= 9659 {
        "B28"@
    } else if 37750 <= earfcn <= 38249 {
        "B38"@
    } else if 38250 <= earfcn <= 38649 {
        "B39"@
    } else if 38650 <= earfcn <= 39649 {
        "B40"@
    } else if 39650 <= earfcn <= 41589 {
        "B41"@
    } else {
        ""@
    }
}

/// The name of LTE band `n`: `B` and its number.
pub open spec fn lte_band_name(n: nat) -> Seq<char> {
    "B"@ + dec_string(n)
}

/// The name of NR band `n`: `n` and its number.
pub open spec fn nr_band_name(n: nat) -> Seq<char> {
    "n"@ + dec_string(n)
}

proof fn lemma_names()
    ensures
        "B1"@ == lte_band_name(1),
        "B3"@ == lte_band_name(3),
        "B5"@ == lte_band_name(5),
        "B7"@ == lte_band_name(7),
        "B8"@ == lte_band_name(8),
        "B20"@ == lte_band_name(20),
        "B28"@ == lte_band_name(28),
        "B38"@ == lte_band_name(38),
        "B39"@ == lte_band_name(39),
        "B40"@ == lte_band_name(40),
        "B41"@ == lte_band_name(41),
        "n1"@ == nr_band_name(1),
        "n3"@ == nr_band_name(3),
        "n8"@ == nr_band_name(8),
        "n28"@ == nr_band_name(28),
        "n41"@ == nr_band_name(41),
        "n78"@ == nr_band_name(78),
        "n79"@ == nr_band_name(79),
{
    reveal_strlit("B");
    reveal_strlit("n");
    reveal_strlit("B1");
    reveal_strlit("B3");
    reveal_strlit("B5");
    reveal_strlit("B7");
    reveal_strlit("B8");
    reveal_strlit("B20");
    reveal_strlit("B28");
    reveal_strlit("B38");
    reveal_strlit("B39");
    reveal_strlit("B40");
    reveal_strlit("B41");
    reveal_strlit("n1");
    reveal_strlit("n3");
    reveal_strlit("n8");
    reveal_strlit("n28");
    reveal_strlit("n41");
    reveal_strlit("n78");
    reveal_strlit("n79");
    reveal_with_fuel(dec_string, 2);
    assert("B1"@ =~= lte_band_name(1));
    assert("B3"@ =~= lte_band_name(3));
    assert("B5"@ =~= lte_band_name(5));
    assert("B7"@ =~= lte_band_name(7));
    assert("B8"@ =~= lte_band_name(8));
    assert("B20"@ =~= lte_band_name(20));
    assert("B28"@ =~= lte_band_name(28));
    assert("B38"@ =~= lte_band_name(38));
    assert("B39"@ =~= lte_band_name(39));
    assert("B40"@ =~= lte_band_name(40));
    assert("B41"@ =~= lte_band_name(41));
    assert("n1"@ =~= nr_band_name(1));
    assert("n3"@ =~= nr_band_name(3));
    assert("n8"@ =~= nr_band_name(8));
    assert("n28"@ =~= nr_band_name(28));
    assert("n41"@ =~= nr_band_name(41));
    assert("n78"@ =~= nr_band_name(78));
    assert("n79"@ =~= nr_band_name(79));
}

/// The LTE band of an EARFCN is the band whose downlink EARFCN range (3GPP
/// TS 36.101, Table 5.7.3-1) holds it: B1 0-599, B3 1200-1949, B5 2400-2649,
/// B7 2750-3449, B8 3450-3799, B20 6150-6449, B28 9210-9659, B38
/// 37750-38249, B39 38250-38649, B40 38650-39649, B41 39650-41589; outside
/// these ranges no band is named.
pub proof fn lemma_lte_band_ranges(e: u32)
    ensures
        e <= 599 ==> lte_band_of(e) == lte_band_name(1),
        1200 <= e <= 1949 ==> lte_band_of(e) == lte_band_name(3),
        2400 <= e <= 2649 ==> lte_band_of(e) == lte_band_name(5),
        2750 <= e <= 3449 ==> lte_band_of(e) == lte_band_name(7),
        3450 <= e <= 3799 ==> lte_band_of(e) == lte_band_name(8),
        6150 <= e <= 6449 ==> lte_band_of(e) == lte_band_name(20),
        9210 <= e <= 9659 ==> lte_band_of(e) == lte_band_name(28),
        37750 <= e <= 38249 ==> lte_band_of(e) == lte_band_name(38),
        38250 <= e <= 38649 ==> lte_band_of(e) == lte_band_name(39),
        38650 <= e <= 39649 ==> lte_band_of(e) == lte_band_name(40),
        39650 <= e <= 41589 ==> lte_band_of(e) == lte_band_name(41),
        !(e <= 599 || 1200 <= e <= 1949 || 2400 <= e <= 2649 || 2750 <= e <= 3799 || 6150 <= e
            <= 6449 || 9210 <= e <= 9659 || 37750 <= e <= 41589) ==> lte_band_of(e).len() == 0,
{
    lemma_names();
    reveal_strlit("");
}

/// The NR band of an NR-ARFCN is the band whose downlink NR-ARFCN range (3GPP
/// TS 38.104, Table 5.4.2.3-1) holds it: n1 422000-434000, n3
/// 361000-376000, n8 185000-192000, n28 151600-160600, n41 499200-537999,
/// n78 620000-680000 (shared with n77, read as n78), n79 693334-733333;
/// outside these ranges no band is named.
pub proof fn lemma_nr_band_ranges(a: u32)
    ensures
        422000 <= a <= 434000 ==> nr_band_of(a) == nr_band_name(1),
        361000 <= a <= 376000 ==> nr_band_of(a) == nr_band_name(3),
        185000 <= a <= 192000 ==> nr_band_of(a) == nr_band_name(8),
        151600 <= a <= 160600 ==> nr_band_of(a) == nr_band_name(28),
        499200 <= a <= 537999 ==> nr_band_of(a) == nr_band_name(41),
        620000 <= a <= 680000 ==> nr_band_of(a) == nr_band_name(78),
        693334 <= a <= 733333 ==> nr_band_of(a) == nr_band_name(79),
        !(422000 <= a <= 434000 || 361000 <= a <= 376000 || 185000 <= a <= 192000 || 151600 <= a
            <= 160600 || 499200 <= a <= 537999 || 620000 <= a <= 680000 || 693334 <= a
            <= 733333) ==> nr_band_of(a).len() == 0,
{
    lemma_names();
    reveal_strlit("");
}

/// NR band name of an NR-ARFCN (see `nr_band_of`).
pub fn arfcn_to_nr_band(arfcn: u32) -> (r: String)
    ensures
        r@ == nr_band_of(arfcn),
{
    if 422000 <= arfcn && arfcn <= 434000 {
        owned("n1")
    } else if 361000 <= arfcn && arfcn <= 376000 {
        owned("n3")
    } else if 185000 <= arfcn && arfcn <= 192000 {
        owned("n8")
    } else if 151600 <= arfcn && arfcn <= 160600 {
        owned("n28")
    } else if 499200 <= arfcn && arfcn <= 537999 {
        owned("n41")
    } else if 620000 <= arfcn && arfcn <= 680000 {
        owned("n78")
    } else if 693334 <= arfcn && arfcn <= 733333 {
        owned("n79")
    } else {
        owned("")
    }
}

/// LTE band name of an EARFCN (see `lte_band_of`).
pub fn earfcn_to_lte_band(earfcn: u32) -> (r: String)
    ensures
        r@ == lte_band_of(earfcn),
{
    if earfcn <= 599 {
        owned("B1")
    } else if 1200 <= earfcn && earfcn <= 1949 {
        owned("B3")
    } else if 2400 <= earfcn && earfcn <= 2649 {
        owned("B5")
    } else if 2750 <= earfcn && earfcn <= 3449 {
        owned("B7")
    } else if 3450 <= earfcn && earfcn <= 3799 {
        owned("B8")
    } else if 6150 <= earfcn && earfcn <= 6449 {
        owned("B20")
    } else if 9210 <= earfcn && earfcn <= 9659 {
        owned("B28")
    } else if 37750 <= earfcn && earfcn <= 38249 {
        owned("B38")
    } else if 38250 <= earfcn && earfcn <= 38649 {
        owned("B39")
    } else if 38650 <= earfcn && earfcn <= 39649 {
        owned("B40")
    } else if 39650 <= earfcn && earfcn <= 41589 {
        owned("B41")
    } else {
        owned("")
    }
}

/// The response text the tokenizer reads: trimmed, trailing `OK`s removed,
/// CR and LF dropped.
pub open spec fn cleaned_response(input: Seq<char>) -> Seq<char> {
    without_crlf(strip_suffixes(trim(input), "OK"@))
}

/// Rows of the engineering response, read from position `i` on with the
/// pending field text `cur`, the previous character `prev` and the rows
/// `acc` found so far. A `-` not preceded by `,` closes the pending text
/// (trimmed, split at commas) into a row; a doubled `--` opens the next text
/// with one `-`. The last pending text is split untrimmed.
pub open spec fn rows_from(
    s: Seq<char>,
    i: int,
    cur: Seq<char>,
    prev: Option<char>,
    acc: Seq<Seq<Seq<char>>>,
) -> Seq<Seq<Seq<char>>>
    decreases s.len() - i,
{
    if i < 0 || i >= s.len() {
        if cur.len() > 0 {
            acc.push(split_char(cur, ','))
        } else {
            acc
        }
    } else {
        let c = s[i];
        if c == '-' {
            if prev == Some(',') {
                rows_from(s, i + 1, cur.push('-'), Some(c), acc)
            } else {
                let acc2 = if cur.len() > 0 {
                    acc.push(split_char(trim(cur), ','))
                } else {
                    acc
                };
                if i + 1 < s.len() && s[i + 1] == '-' {
                    rows_from(s, i + 2, seq!['-'], Some(c), acc2)
                } else {
                    rows_from(s, i + 1, seq![], Some(c), acc2)
                }
            }
        } else {
            rows_from(s, i + 1, cur.push(c), Some(c), acc)
        }
    }
}

/// The two-dimensional table of an engineering-mode response.
pub open spec fn at_table(input: Seq<char>) -> Seq<Seq<Seq<char>>> {
    rows_from(cleaned_response(input), 0, seq![], None, seq![])
}

/// The texts of nested character vectors.
pub open spec fn table_of(v: Seq<Vec<Vec<char>>>) -> Seq<Seq<Seq<char>>> {
    v.map_values(|r: Vec<Vec<char>>| seqs_of(r@))
}

fn table_to_strings(t: &Vec<Vec<Vec<char>>>) -> (r: Vec<Vec<String>>)
    ensures
        rows_view(r@) == table_of(t@),
{
    let mut out: Vec<Vec<String>> = Vec::new();
    let mut i: usize = 0;
    while i < t.len()
        invariant
            i <= t@.len(),
            rows_view(out@) == table_of(t@).subrange(0, i as int),
        decreases t@.len() - i,
    {
        let row = strings_of(&t[i]);
        let ghost o = out@;
        let ghost rv = strs_view(row@);
        out.push(row);
        assert(rows_view(out@) =~= rows_view(o).push(rv));
        assert(table_of(t@)[i as int] == seqs_of(t@[i as int]@));
        assert(rows_view(out@) =~= table_of(t@).subrange(0, i + 1));
        i = i + 1;
    }
    assert(table_of(t@).subrange(0, t@.len() as int) =~= table_of(t@));
    out
}

/// Splits an engineering-mode response into its table (see `at_table`).
pub fn parse_at_response_to_2d_vec(input: &str) -> (r: Vec<Vec<String>>)
    ensures
        rows_view(r@) == at_table(input@),
{
    let v = chars_of(input);
    let t = trimmed(v.as_slice());
    let ok = chars_of("OK");
    proof {
        reveal_strlit("OK");
    }
    let st = strip_suffixes_exec(t.as_slice(), ok.as_slice());
    let s = without_crlf_exec(st.as_slice());
    let n = s.len();
    let mut acc: Vec<Vec<Vec<char>>> = Vec::new();
    let mut cur: Vec<char> = Vec::new();
    let mut prev: Option<char> = None;
    let mut i: usize = 0;
    assert(table_of(acc@) =~= Seq::<Seq<Seq<char>>>::empty());
    assert(cur@ =~= Seq::<char>::empty());
    while i < n
        invariant
            i <= n == s@.len(),
            s@ == cleaned_response(input@),
            rows_from(s@, i as int, cur@, prev, table_of(acc@)) == at_table(input@),
        decreases n - i,
    {
        let c = s[i];
        if c == '-' {
            if prev == Some(',') {
                cur.push('-');
                prev = Some(c);
                i = i + 1;
            } else {
                if cur.len() > 0 {
                    let tc = trimmed(cur.as_slice());
                    let row = split_of(tc.as_slice(), ',');
                    let ghost o = acc@;
                    let ghost rv = seqs_of(row@);
                    acc.push(row);
                    assert(table_of(acc@) =~= table_of(o).push(rv));
                }
                cur = Vec::new();
                if i + 1 < n && s[i + 1] == '-' {
                    cur.push('-');
                    assert(cur@ =~= seq!['-']);
                    prev = Some(c);
                    i = i + 2;
                } else {
                    assert(cur@ =~= Seq::<char>::empty());
                    prev = Some(c);
                    i = i + 1;
                }
            }
        } else {
            cur.push(c);
            prev = Some(c);
            i = i + 1;
        }
    }
    if cur.len() > 0 {
        let row = split_of(cur.as_slice(), ',');
        let ghost o = acc@;
        let ghost rv = seqs_of(row@);
        acc.push(row);
        assert(table_of(acc@) =~= table_of(o).push(rv));
    }
    table_to_strings(&acc)
}


/// First field of a row, or empty.
pub open spec fn first_or_empty(r: Seq<Seq<char>>) -> Seq<char> {
    if r.len() > 0 {
        r[0]
    } else {
        seq![]
    }
}

/// Field `i` of a row, or `d` when the row is shorter.
pub open spec fn field_or(r: Seq<Seq<char>>, i: int, d: Seq<char>) -> Seq<char> {
    if 0 <= i < r.len() {
        r[i]
    } else {
        d
    }
}

/// Band text with its technology prefix, unless it is empty or `0`.
pub open spec fn prefixed_band(prefix: Seq<char>, raw: Seq<char>) -> Seq<char> {
    if raw.len() > 0 && raw != "0"@ {
        prefix + raw
    } else {
        raw
    }
}

/// A cell with nothing but its serving flag.
pub open spec fn blank_cell(is_serving: bool) -> CellView {
    CellView {
        is_serving,
        tech: seq![],
        band: seq![],
        arfcn: seq![],
        pci: seq![],
        rsrp: seq![],
        rsrq: seq![],
        sinr: seq![],
    }
}

/// The serving cell of an engineering table: NR takes band (prefixed `n`),
/// ARFCN, PCI, RSRP, RSRQ from rows 0-4 and SINR from row 15 and needs 16
/// rows; LTE takes them from rows 0-4 (band prefixed `B`) and SINR from row
/// 33 and needs 34 rows. Otherwise only the serving flag is set.
pub open spec fn primary_cell(tech: Seq<char>, t: Seq<Seq<Seq<char>>>) -> CellView {
    if tech == "nr"@ && t.len() >= 16 {
        CellView {
            is_serving: true,
            tech,
            band: prefixed_band("n"@, join_with(t[0], ","@)),
            arfcn: join_with(t[1], ","@),
            pci: first_or_empty(t[2]),
            rsrp: first_or_empty(t[3]),
            rsrq: first_or_empty(t[4]),
            sinr: first_or_empty(t[15]),
        }
    } else if tech == "lte"@ && t.len() >= 34 {
        CellView {
            is_serving: true,
            tech,
            band: prefixed_band("B"@, join_with(t[0], ","@)),
            arfcn: join_with(t[1], ","@),
            pci: join_with(t[2], ","@),
            rsrp: first_or_empty(t[3]),
            rsrq: first_or_empty(t[4]),
            sinr: first_or_empty(t[33]),
        }
    } else {
        blank_cell(true)
    }
}

fn first_chars(r: &Vec<String>) -> (v: Vec<char>)
    ensures
        v@ == first_or_empty(strs_view(r@)),
{
    if r.len() > 0 {
        chars_of_string(&r[0])
    } else {
        Vec::new()
    }
}

fn field_chars(r: &Vec<String>, i: usize, d: &str) -> (v: Vec<char>)
    ensures
        v@ == field_or(strs_view(r@), i as int, d@),
{
    if i < r.len() {
        chars_of_string(&r[i])
    } else {
        chars_of(d)
    }
}

fn band_with_prefix(prefix: char, raw: &String) -> (r: String)
    ensures
        r@ == prefixed_band(seq![prefix], raw@),
{
    let rv = chars_of_string(raw);
    let zero = chars_of("0");
    if rv.len() > 0 && !same_chars(rv.as_slice(), zero.as_slice()) {
        let mut out: Vec<char> = Vec::new();
        out.push(prefix);
        append_chars(&mut out, rv.as_slice());
        assert(out@ =~= seq![prefix] + rv@);
        string_of(out.as_slice())
    } else {
        string_of(rv.as_slice())
    }
}

fn blank(is_serving: bool) -> (c: CellInfo)
    ensures
        c@ == blank_cell(is_serving),
{
    CellInfo {
        is_serving,
        tech: String::new(),
        band: String::new(),
        arfcn: String::new(),
        pci: String::new(),
        rsrp: String::new(),
        rsrq: String::new(),
        sinr: String::new(),
    }
}

/// The serving cell of an engineering table (see `primary_cell`).
pub fn parse_primary_cell(tech: &str, parsed_data: &[Vec<String>]) -> (c: CellInfo)
    ensures
        c@ == primary_cell(tech@, rows_view(parsed_data@)),
{
    let tv = chars_of(tech);
    let nr = chars_of("nr");
    let lte = chars_of("lte");
    let ghost t = rows_view(parsed_data@);
    proof {
        reveal_strlit("nr");
        reveal_strlit("lte");
        reveal_strlit("n");
        reveal_strlit("B");
        reveal_strlit(",");
        assert("n"@ =~= seq!['n']);
        assert("B"@ =~= seq!['B']);
        assert(","@ =~= seq![',']);
        if parsed_data@.len() > 33 {
            assert(t[33] == strs_view(parsed_data@[33]@));
        }
        if parsed_data@.len() > 15 {
            assert(t[0] == strs_view(parsed_data@[0]@));
            assert(t[1] == strs_view(parsed_data@[1]@));
            assert(t[2] == strs_view(parsed_data@[2]@));
            assert(t[3] == strs_view(parsed_data@[3]@));
            assert(t[4] == strs_view(parsed_data@[4]@));
            assert(t[15] == strs_view(parsed_data@[15]@));
        }
    }
    if same_chars(tv.as_slice(), nr.as_slice()) && parsed_data.len() >= 16 {
        let raw = join_strings(parsed_data[0].as_slice(), ',');
        let pci = first_chars(&parsed_data[2]);
        let rsrp = first_chars(&parsed_data[3]);
        let rsrq = first_chars(&parsed_data[4]);
        let sinr = first_chars(&parsed_data[15]);
        CellInfo {
            is_serving: true,
            tech: owned(tech),
            band: band_with_prefix('n', &raw),
            arfcn: join_strings(parsed_data[1].as_slice(), ','),
            pci: string_of(pci.as_slice()),
            rsrp: string_of(rsrp.as_slice()),
            rsrq: string_of(rsrq.as_slice()),
            sinr: string_of(sinr.as_slice()),
        }
    } else if same_chars(tv.as_slice(), lte.as_slice()) && parsed_data.len() >= 34 {
        let raw = join_strings(parsed_data[0].as_slice(), ',');
        let rsrp = first_chars(&parsed_data[3]);
        let rsrq = first_chars(&parsed_data[4]);
        let sinr = first_chars(&parsed_data[33]);
        CellInfo {
            is_serving: true,
            tech: owned(tech),
            band: band_with_prefix('B', &raw),
            arfcn: join_strings(parsed_data[1].as_slice(), ','),
            pci: join_strings(parsed_data[2].as_slice(), ','),
            rsrp: string_of(rsrp.as_slice()),
            rsrq: string_of(rsrq.as_slice()),
            sinr: string_of(sinr.as_slice()),
        }
    } else {
        blank(true)
    }
}

/// Band of a neighbour: the reported text unless empty or `0`, else derived
/// from the channel number by `derive` (empty when it does not parse).
pub open spec fn neighbor_band(raw: Seq<char>, chan: Seq<char>, nr: bool) -> Seq<char> {
    if raw.len() == 0 || raw == "0"@ {
        match parse_uint(chan, 10, u32::MAX as int) {
            Some(v) => if nr {
                nr_band_of(v as u32)
            } else {
                lte_band_of(v as u32)
            },
            None => seq![],
        }
    } else {
        raw
    }
}

/// NR neighbour `i`: row 0 band, row 1 ARFCN, row 2 PCI, rows 3-5 RSRP, RSRQ
/// and SINR, with `0` for a missing ARFCN or PCI and empty otherwise.
pub open spec fn nr_neighbor(t: Seq<Seq<Seq<char>>>, i: int) -> CellView {
    let arfcn = field_or(t[1], i, "0"@);
    CellView {
        is_serving: false,
        tech: "nr"@,
        band: neighbor_band(field_or(t[0], i, seq![]), arfcn, true),
        arfcn,
        pci: field_or(t[2], i, "0"@),
        rsrp: field_or(t[3], i, seq![]),
        rsrq: field_or(t[4], i, seq![]),
        sinr: field_or(t[5], i, seq![]),
    }
}

/// The NR neighbour list ends at the first column whose ARFCN and PCI are both `0`.
pub open spec fn nr_stops_at(t: Seq<Seq<Seq<char>>>, i: int) -> bool {
    field_or(t[1], i, "0"@) == "0"@ && field_or(t[2], i, "0"@) == "0"@
}

/// Number of NR neighbours listed from column `i` on.
pub open spec fn nr_count_from(t: Seq<Seq<Seq<char>>>, i: int) -> int
    decreases t[0].len() - i,
{
    if i < 0 || i >= t[0].len() || nr_stops_at(t, i) {
        i
    } else {
        nr_count_from(t, i + 1)
    }
}

/// NR neighbours: one per column of row 0 up to the terminating column; none
/// unless the table has six rows.
pub open spec fn nr_neighbors(t: Seq<Seq<Seq<char>>>) -> Seq<CellView> {
    if t.len() < 6 {
        seq![]
    } else {
        Seq::new(nr_count_from(t, 0) as nat, |i: int| nr_neighbor(t, i))
    }
}

/// LTE neighbour from a row: ARFCN, PCI, RSRP, RSRQ in fields 0-3, band in
/// field 12 when present, no SINR (`-`).
pub open spec fn lte_neighbor(row: Seq<Seq<char>>) -> CellView {
    CellView {
        is_serving: false,
        tech: "lte"@,
        band: neighbor_band(field_or(row, 12, seq![]), row[0], false),
        arfcn: row[0],
        pci: row[1],
        rsrp: row[2],
        rsrq: row[3],
        sinr: "-"@,
    }
}

/// LTE neighbours: one per row of four or more fields, skipping shorter rows
/// and ending at the first row whose ARFCN and PCI are both `0`.
pub open spec fn lte_neighbors(t: Seq<Seq<Seq<char>>>) -> Seq<CellView>
    decreases t.len(),
{
    if t.len() == 0 {
        seq![]
    } else if t[0].len() < 4 {
        lte_neighbors(t.drop_first())
    } else if t[0][0] == "0"@ && t[0][1] == "0"@ {
        seq![]
    } else {
        seq![lte_neighbor(t[0])] + lte_neighbors(t.drop_first())
    }
}

/// Neighbour cells of a technology; none for other technologies.
pub open spec fn neighbor_cells(tech: Seq<char>, t: Seq<Seq<Seq<char>>>) -> Seq<CellView> {
    if tech == "nr"@ {
        nr_neighbors(t)
    } else if tech == "lte"@ {
        lte_neighbors(t)
    } else {
        seq![]
    }
}

/// The views of a cell list.
pub open spec fn cells_view(v: Seq<CellInfo>) -> Seq<CellView> {
    v.map_values(|c: CellInfo| c@)
}

fn derived_band(raw: Vec<char>, chan: &Vec<char>, nr: bool) -> (r: String)
    ensures
        r@ == neighbor_band(raw@, chan@, nr),
{
    let zero = chars_of("0");
    if raw.len() == 0 || same_chars(raw.as_slice(), zero.as_slice()) {
        match parse_uint_exec(chan.as_slice(), 10, u32::MAX) {
            Some(v) => if nr {
                arfcn_to_nr_band(v)
            } else {
                earfcn_to_lte_band(v)
            },
            None => String::new(),
        }
    } else {
        string_of(raw.as_slice())
    }
}

fn nr_cell(t: &[Vec<String>], i: usize) -> (c: CellInfo)
    requires
        t@.len() >= 6,
    ensures
        c@ == nr_neighbor(rows_view(t@), i as int),
{
    let ghost tv = rows_view(t@);
    proof {
        assert(tv[0] == strs_view(t@[0]@));
        assert(tv[1] == strs_view(t@[1]@));
        assert(tv[2] == strs_view(t@[2]@));
        assert(tv[3] == strs_view(t@[3]@));
        assert(tv[4] == strs_view(t@[4]@));
        assert(tv[5] == strs_view(t@[5]@));
        reveal_strlit("0");
        reveal_strlit("");
        assert(""@ =~= Seq::<char>::empty());
    }
    let arfcn = field_chars(&t[1], i, "0");
    let band = derived_band(field_chars(&t[0], i, ""), &arfcn, true);
    let pci = field_chars(&t[2], i, "0");
    let rsrp = field_chars(&t[3], i, "");
    let rsrq = field_chars(&t[4], i, "");
    let sinr = field_chars(&t[5], i, "");
    CellInfo {
        is_serving: false,
        tech: owned("nr"),
        band,
        arfcn: string_of(arfcn.as_slice()),
        pci: string_of(pci.as_slice()),
        rsrp: string_of(rsrp.as_slice()),
        rsrq: string_of(rsrq.as_slice()),
        sinr: string_of(sinr.as_slice()),
    }
}

fn lte_cell(row: &Vec<String>) -> (c: CellInfo)
    requires
        row@.len() >= 4,
    ensures
        c@ == lte_neighbor(strs_view(row@)),
{
    proof {
        reveal_strlit("");
        assert(""@ =~= Seq::<char>::empty());
    }
    let arfcn = chars_of_string(&row[0]);
    let band = derived_band(field_chars(row, 12, ""), &arfcn, false);
    CellInfo {
        is_serving: false,
        tech: owned("lte"),
        band,
        arfcn: row[0].clone(),
        pci: row[1].clone(),
        rsrp: row[2].clone(),
        rsrq: row[3].clone(),
        sinr: owned("-"),
    }
}

fn nr_neighbor_list(t: &[Vec<String>]) -> (r: Vec<CellInfo>)
    ensures
        cells_view(r@) == nr_neighbors(rows_view(t@)),
{
    let ghost tv = rows_view(t@);
    let mut out: Vec<CellInfo> = Vec::new();
    if t.len() < 6 {
        assert(cells_view(out@) =~= nr_neighbors(tv));
        return out;
    }
    assert(tv[0] == strs_view(t@[0]@));
    let count = t[0].len();
    let zero = chars_of("0");
    let mut i: usize = 0;
    while i < count
        invariant
            t@.len() >= 6,
            tv == rows_view(t@),
            count == tv[0].len(),
            zero@ == "0"@,
            i <= count,
            nr_count_from(tv, i as int) == nr_count_from(tv, 0),
            cells_view(out@) == Seq::new(i as nat, |j: int| nr_neighbor(tv, j)),
        decreases count - i,
    {
        proof {
            assert(tv[1] == strs_view(t@[1]@));
            assert(tv[2] == strs_view(t@[2]@));
        }
        let arfcn = field_chars(&t[1], i, "0");
        let pci = field_chars(&t[2], i, "0");
        if same_chars(arfcn.as_slice(), zero.as_slice()) && same_chars(pci.as_slice(), zero.as_slice()) {
            assert(nr_stops_at(tv, i as int));
            assert(cells_view(out@) =~= nr_neighbors(tv));
            return out;
        }
        let cell = nr_cell(t, i);
        let ghost o = out@;
        let ghost cv = cell@;
        out.push(cell);
        assert(cells_view(out@) =~= cells_view(o).push(cv));
        assert(cells_view(out@) =~= Seq::new((i + 1) as nat, |j: int| nr_neighbor(tv, j)));
        i = i + 1;
    }
    assert(cells_view(out@) =~= nr_neighbors(tv));
    out
}

fn lte_neighbor_list(t: &[Vec<String>]) -> (r: Vec<CellInfo>)
    ensures
        cells_view(r@) == lte_neighbors(rows_view(t@)),
{
    let ghost tv = rows_view(t@);
    let zero = chars_of("0");
    let mut out: Vec<CellInfo> = Vec::new();
    let mut i: usize = 0;
    assert(tv.subrange(0, tv.len() as int) =~= tv);
    assert(cells_view(out@) =~= Seq::<CellView>::empty());
    while i < t.len()
        invariant
            i <= t@.len(),
            tv == rows_view(t@),
            zero@ == "0"@,
            cells_view(out@) + lte_neighbors(tv.subrange(i as int, tv.len() as int)) == lte_neighbors(tv),
        decreases t@.len() - i,
    {
        let ghost rest = tv.subrange(i as int, tv.len() as int);
        assert(rest[0] == strs_view(t@[i as int]@));
        assert(rest.drop_first() =~= tv.subrange(i + 1, tv.len() as int));
        let row = &t[i];
        if row.len() < 4 {
            i = i + 1;
        } else {
            let a = chars_of_string(&row[0]);
            let p = chars_of_string(&row[1]);
            if same_chars(a.as_slice(), zero.as_slice()) && same_chars(p.as_slice(), zero.as_slice()) {
                assert(lte_neighbors(rest) =~= Seq::<CellView>::empty());
                assert(cells_view(out@) =~= lte_neighbors(tv));
                return out;
            }
            let cell = lte_cell(row);
            let ghost o = out@;
            let ghost cv = cell@;
            out.push(cell);
            assert(cells_view(out@) =~= cells_view(o).push(cv));
            assert(cells_view(out@) + lte_neighbors(tv.subrange(i + 1, tv.len() as int)) =~= cells_view(o)
                + lte_neighbors(rest));
            i = i + 1;
        }
    }
    assert(tv.subrange(t@.len() as int, tv.len() as int) =~= Seq::<Seq<Seq<char>>>::empty());
    assert(cells_view(out@) =~= lte_neighbors(tv));
    out
}

/// Neighbour cells of an engineering table (see `neighbor_cells`).
pub fn parse_neighbor_cells(tech: &str, parsed_data: &[Vec<String>]) -> (r: Vec<CellInfo>)
    ensures
        cells_view(r@) == neighbor_cells(tech@, rows_view(parsed_data@)),
{
    let tv = chars_of(tech);
    let nr = chars_of("nr");
    let lte = chars_of("lte");
    proof {
        reveal_strlit("nr");
        reveal_strlit("lte");
        assert("nr"@.len() == 2);
        assert("lte"@.len() == 3);
    }
    if same_chars(tv.as_slice(), nr.as_slice()) {
        nr_neighbor_list(parsed_data)
    } else if same_chars(tv.as_slice(), lte.as_slice()) {
        lte_neighbor_list(parsed_data)
    } else {
        let out: Vec<CellInfo> = Vec::new();
        assert(cells_view(out@) =~= Seq::<CellView>::empty());
        out
    }
}

} // verus!
