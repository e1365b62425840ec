//! Band lock encoding of the UDX710 (`AT+SPLBAND`): band lists to bit masks
//! and back, parsing of the query responses and building of the set commands.

use vstd::prelude::*;
use vstd::string::*;
use vstd::arithmetic::power2::pow2;
use crate::text::{
    append_chars, chars_of, dec_string, lines, lines_of, parse_uint, parse_uint_exec, push_dec,
    seqs_of, split_char, split_of, starts_with, starts_with_exec, string_of, sub_vec, trim,
};
use crate::loader::trimmed;

verus! {

/// Bit positions and band numbers of a band group, in mask order: LTE FDD
/// (base 1) B1-B16 and LTE TDD (base 33) B33-B48 map band to bit linearly;
/// NR FDD (base 100) and NR TDD (base 41) use the module's own table.
pub open spec fn band_table(base: u8) -> Seq<(int, u8)> {
    if base == 1 {
        Seq::new(16, |i: int| (i, (i + 1) as u8))
    } else if base == 33 {
        Seq::new(16, |i: int| (i, (i + 33) as u8))
    } else if base == 100 {
        seq![(0int, 1u8), (1int, 2u8), (2int, 3u8), (4int, 5u8), (6int, 7u8), (7int, 8u8), (9int, 28u8)]
    } else if base == 41 {
        seq![
            (0int, 34u8),
            (1int, 38u8),
            (2int, 39u8),
            (3int, 40u8),
            (4int, 41u8),
            (7int, 77u8),
            (8int, 78u8),
            (9int, 79u8),
        ]
    } else {
        seq![]
    }
}

/// The mask bit of bit position `k`.
pub open spec fn pos_bit(k: int) -> u16 {
    1u16 << (k as u16)
}

/// The mask bit of a band in a table: the bit of the first entry naming it,
/// or no bit.
pub open spec fn band_bit16(tbl: Seq<(int, u8)>, b: u8) -> u16
    decreases tbl.len(),
{
    if tbl.len() == 0 {
        0u16
    } else if tbl[0].1 == b {
        pos_bit(tbl[0].0)
    } else {
        band_bit16(tbl.drop_first(), b)
    }
}

/// The bit mask of a band list for a band group: the OR of the bits of the
/// listed bands, so that bands outside the group add nothing and a band
/// listed twice is one bit.
pub open spec fn bands_mask(bands: Seq<u8>, base: u8) -> u16
    decreases bands.len(),
{
    if bands.len() == 0 {
        0u16
    } else {
        bands_mask(bands.drop_last(), base) | band_bit16(band_table(base), bands.last())
    }
}


/// Bit `k` of `mask` is set.
pub open spec fn has_bit(mask: u16, k: int) -> bool {
    (mask as int / pow2(k as nat) as int) % 2 == 1
}

/// The bands of a table whose bits are set in `mask`, in table order.
pub open spec fn bands_in(mask: u16, tbl: Seq<(int, u8)>) -> Seq<u8>
    decreases tbl.len(),
{
    if tbl.len() == 0 {
        seq![]
    } else {
        let rest = bands_in(mask, tbl.drop_last());
        if has_bit(mask, tbl.last().0) {
            rest.push(tbl.last().1)
        } else {
            rest
        }
    }
}

fn table_exec(base: u8) -> (t: Vec<(u32, u8)>)
    ensures
        t@.len() == band_table(base).len(),
        forall|i: int|
            0 <= i < t@.len() ==> t@[i].0 as int == band_table(base)[i].0 && t@[i].1
                == band_table(base)[i].1 && t@[i].0 < 16,
{
    let mut t: Vec<(u32, u8)> = Vec::new();
    if base == 1 || base == 33 {
        let mut i: u32 = 0;
        while i < 16
            invariant
                base == 1 || base == 33,
                i <= 16,
                t@.len() == i,
                forall|j: int|
                    0 <= j < i ==> t@[j].0 as int == band_table(base)[j].0 && t@[j].1
                        == band_table(base)[j].1 && t@[j].0 < 16,
            decreases 16 - i,
        {
            t.push((i, (i as u8) + base));
            i = i + 1;
        }
    } else if base == 100 {
        t.push((0, 1));
        t.push((1, 2));
        t.push((2, 3));
        t.push((4, 5));
        t.push((6, 7));
        t.push((7, 8));
        t.push((9, 28));
    } else if base == 41 {
        t.push((0, 34));
        t.push((1, 38));
        t.push((2, 39));
        t.push((3, 40));
        t.push((4, 41));
        t.push((7, 77));
        t.push((8, 78));
        t.push((9, 79));
    }
    t
}

fn bit16_of_band(t: &Vec<(u32, u8)>, b: u8, base: u8) -> (r: u16)
    requires
        t@.len() == band_table(base).len(),
        forall|i: int|
            0 <= i < t@.len() ==> t@[i].0 as int == band_table(base)[i].0 && t@[i].1
                == band_table(base)[i].1 && t@[i].0 < 16,
    ensures
        r == band_bit16(band_table(base), b),
{
    let ghost tbl = band_table(base);
    let mut i: usize = 0;
    assert(tbl.subrange(0, tbl.len() as int) =~= tbl);
    while i < t.len()
        invariant
            i <= t@.len() == tbl.len(),
            tbl == band_table(base),
            forall|j: int|
                0 <= j < t@.len() ==> t@[j].0 as int == tbl[j].0 && t@[j].1 == tbl[j].1 && t@[j].0
                    < 16,
            band_bit16(tbl, b) == band_bit16(tbl.subrange(i as int, tbl.len() as int), b),
        decreases t@.len() - i,
    {
        let ghost rest = tbl.subrange(i as int, tbl.len() as int);
        assert(rest[0] == tbl[i as int]);
        if t[i].1 == b {
            let k = t[i].0 as u16;
            assert(k == tbl[i as int].0 as u16);
            return 1u16 << k;
        }
        assert(rest.drop_first() =~= tbl.subrange(i + 1, tbl.len() as int));
        i = i + 1;
    }
    0
}

/// Bit mask of a band list for a band group (`base` 1 LTE FDD, 33 LTE TDD,
/// 100 NR FDD, 41 NR TDD): the OR of the bits of the listed bands of the
/// group (see `bands_mask`); 0 for any other base.
pub fn bands_to_bitmask(bands: &[u8], base: u8) -> (r: u16)
    ensures
        r == bands_mask(bands@, base),
{
    let t = table_exec(base);
    let mut acc: u16 = 0;
    let mut i: usize = 0;
    while i < bands.len()
        invariant
            i <= bands@.len(),
            t@.len() == band_table(base).len(),
            forall|j: int|
                0 <= j < t@.len() ==> t@[j].0 as int == band_table(base)[j].0 && t@[j].1
                    == band_table(base)[j].1 && t@[j].0 < 16,
            acc == bands_mask(bands@.subrange(0, i as int), base),
        decreases bands@.len() - i,
    {
        let bit = bit16_of_band(&t, bands[i], base);
        proof {
            assert(bands@.subrange(0, i + 1).drop_last() =~= bands@.subrange(0, i as int));
        }
        acc = acc | bit;
        i = i + 1;
    }
    assert(bands@.subrange(0, bands@.len() as int) =~= bands@);
    acc
}


/// Bands of a group whose bits are set in the mask, in the group's order;
/// empty for an unknown base.
pub fn bitmask_to_bands(mask: u16, base: u8) -> (r: Vec<u8>)
    ensures
        r@ == bands_in(mask, band_table(base)),
{
    let t = table_exec(base);
    let ghost tbl = band_table(base);
    let mut out: Vec<u8> = Vec::new();
    let mut i: usize = 0;
    assert(tbl.subrange(0, 0) =~= Seq::<(int, u8)>::empty());
    while i < t.len()
        invariant
            i <= t@.len() == tbl.len(),
            tbl == band_table(base),
            forall|j: int|
                0 <= j < t@.len() ==> t@[j].0 as int == tbl[j].0 && t@[j].1 == tbl[j].1 && t@[j].0
                    < 16,
            out@ == bands_in(mask, tbl.subrange(0, i as int)),
        decreases t@.len() - i,
    {
        let k = t[i].0;
        assert(tbl.subrange(0, i + 1).drop_last() =~= tbl.subrange(0, i as int));
        assert(tbl.subrange(0, i + 1).last() == tbl[i as int]);
        proof {
            vstd::bits::lemma_u16_shr_is_div(mask, k as u16);
        }
        if (mask >> (k as u16)) % 2 == 1 {
            out.push(t[i].1);
        }
        i = i + 1;
    }
    assert(tbl.subrange(0, tbl.len() as int) =~= tbl);
    out
}

/// Reading of a `+SPLBAND:` response: the first line that, trimmed, starts
/// with `+SPLBAND:` and splits (after the prefix, trimmed) into at least
/// `min` comma fields gives the FDD mask from field `fi` and the TDD mask
/// from field `ti` (each 0 unless it parses as `u16` once trimmed); (0, 0)
/// when no line does.
pub open spec fn splband_masks(ls: Seq<Seq<char>>, min: int, fi: int, ti: int) -> (int, int)
    decreases ls.len(),
{
    if ls.len() == 0 {
        (0, 0)
    } else {
        let line = trim(ls[0]);
        let parts = split_char(trim(line.subrange(9, line.len() as int)), ',');
        if starts_with(line, "+SPLBAND:"@) && parts.len() >= min {
            (mask_field(parts[fi]), mask_field(parts[ti]))
        } else {
            splband_masks(ls.drop_first(), min, fi, ti)
        }
    }
}

/// A mask field: its value when it parses (trimmed) as `u16`, else 0.
pub open spec fn mask_field(f: Seq<char>) -> int {
    match parse_uint(trim(f), 10, u16::MAX as int) {
        Some(v) => v,
        None => 0,
    }
}

fn mask_field_exec(f: &Vec<char>) -> (r: u16)
    ensures
        r as int == mask_field(f@),
{
    let t = trimmed(f.as_slice());
    match parse_uint_exec(t.as_slice(), 10, 65535) {
        Some(v) => v as u16,
        None => 0,
    }
}

fn splband_exec(response: &str, min: usize, fi: usize, ti: usize) -> (r: (u16, u16))
    requires
        fi < min,
        ti < min,
    ensures
        (r.0 as int, r.1 as int) == splband_masks(lines(response@), min as int, fi as int, ti as int),
{
    let v = chars_of(response);
    let ls = lines_of(v.as_slice());
    let prefix = chars_of("+SPLBAND:");
    proof {
        reveal_strlit("+SPLBAND:");
    }
    let ghost all = seqs_of(ls@);
    let mut i: usize = 0;
    assert(all.subrange(0, all.len() as int) =~= all);
    while i < ls.len()
        invariant
            i <= ls@.len(),
            all == seqs_of(ls@),
            all == lines(response@),
            prefix@ == "+SPLBAND:"@,
            prefix@.len() == 9,
            fi < min,
            ti < min,
            splband_masks(all, min as int, fi as int, ti as int) == splband_masks(
                all.subrange(i as int, all.len() as int),
                min as int,
                fi as int,
                ti as int,
            ),
        decreases ls@.len() - i,
    {
        let ghost rest = all.subrange(i as int, all.len() as int);
        assert(rest[0] == ls@[i as int]@);
        assert(rest.drop_first() =~= all.subrange(i + 1, all.len() as int));
        let line = trimmed(ls[i].as_slice());
        if starts_with_exec(line.as_slice(), prefix.as_slice()) {
            let data = sub_vec(line.as_slice(), 9, line.len());
            let dt = trimmed(data.as_slice());
            let parts = split_of(dt.as_slice(), ',');
            if parts.len() >= min {
                assert(seqs_of(parts@)[fi as int] == parts@[fi as int]@);
                assert(seqs_of(parts@)[ti as int] == parts@[ti as int]@);
                let f = mask_field_exec(&parts[fi]);
                let t = mask_field_exec(&parts[ti]);
                return (f, t);
            }
        }
        i = i + 1;
    }
    (0, 0)
}

/// LTE masks (FDD, TDD) of an `AT+SPLBAND=0` response
/// `+SPLBAND: 0,<TDD>,0,<FDD>,0`: fields 3 and 1 of five.
pub fn parse_splband_lte_response(response: &str) -> (r: (u16, u16))
    ensures
        (r.0 as int, r.1 as int) == splband_masks(lines(response@), 5, 3, 1),
{
    splband_exec(response, 5, 3, 1)
}

/// NR masks (FDD, TDD) of an `AT+SPLBAND=3` response
/// `+SPLBAND: <FDD>,0,<TDD>,0`: fields 0 and 2 of four.
pub fn parse_splband_nr_response(response: &str) -> (r: (u16, u16))
    ensures
        (r.0 as int, r.1 as int) == splband_masks(lines(response@), 4, 0, 2),
{
    splband_exec(response, 4, 0, 2)
}

/// `AT+SPLBAND=1,0,<TDD>,0,<FDD>,0`, the LTE band lock command.
pub open spec fn lte_lock_command(fdd: u16, tdd: u16) -> Seq<char> {
    "AT+SPLBAND=1,0,"@ + dec_string(tdd as nat) + ",0,"@ + dec_string(fdd as nat) + ",0"@
}

/// `AT+SPLBAND=2,<FDD>,0,<TDD>,0`, the NR band lock command.
pub open spec fn nr_lock_command(fdd: u16, tdd: u16) -> Seq<char> {
    "AT+SPLBAND=2,"@ + dec_string(fdd as nat) + ",0,"@ + dec_string(tdd as nat) + ",0"@
}

/// The LTE band lock command for the masks.
pub fn build_splband_lte_command(fdd_mask: u16, tdd_mask: u16) -> (r: String)
    ensures
        r@ == lte_lock_command(fdd_mask, tdd_mask),
{
    let mut out = chars_of("AT+SPLBAND=1,0,");
    push_dec(&mut out, tdd_mask as u64);
    let sep = chars_of(",0,");
    append_chars(&mut out, sep.as_slice());
    push_dec(&mut out, fdd_mask as u64);
    let tail = chars_of(",0");
    append_chars(&mut out, tail.as_slice());
    string_of(out.as_slice())
}

/// The NR band lock command for the masks.
pub fn build_splband_nr_command(fdd_mask: u16, tdd_mask: u16) -> (r: String)
    ensures
        r@ == nr_lock_command(fdd_mask, tdd_mask),
{
    let mut out = chars_of("AT+SPLBAND=2,");
    push_dec(&mut out, fdd_mask as u64);
    let sep = chars_of(",0,");
    append_chars(&mut out, sep.as_slice());
    push_dec(&mut out, tdd_mask as u64);
    let tail = chars_of(",0");
    append_chars(&mut out, tail.as_slice());
    string_of(out.as_slice())
}

/// All bands the module supports, as masks: LTE FDD B1+B3+B5+B8.
pub const LTE_FDD_ALL: u16 = 149;
/// LTE TDD B39+B41.
pub const LTE_TDD_ALL: u16 = 320;
/// NR FDD N1+N3+N28.
pub const NR_FDD_ALL: u16 = 517;
/// NR TDD N41+N77+N78+N79.
pub const NR_TDD_ALL: u16 = 912;

/// Band lock state as reported to clients.
pub struct BandLockStatus {
    pub locked: bool,
    pub lte_fdd_bands: Vec<u8>,
    pub lte_tdd_bands: Vec<u8>,
    pub nr_fdd_bands: Vec<u8>,
    pub nr_tdd_bands: Vec<u8>,
    pub raw_response: Option<String>,
}

/// Masks (FDD, TDD) read from the answer of a band query, (0, 0) when the
/// query failed.
pub open spec fn masks_of(r: Result<Seq<char>, Seq<char>>, lte: bool) -> (int, int) {
    match r {
        Ok(t) => if lte {
            splband_masks(lines(t), 5, 3, 1)
        } else {
            splband_masks(lines(t), 4, 0, 2)
        },
        Err(_) => (0, 0),
    }
}

/// The text of a query outcome: the answer, or `Error: ` and the error.
pub open spec fn raw_text(r: Result<Seq<char>, Seq<char>>) -> Seq<char> {
    match r {
        Ok(t) => t,
        Err(e) => "Error: "@ + e,
    }
}

/// A pair of masks that means no lock: every supported band, or none.
pub open spec fn all_or_zero(m: (int, int), fdd_all: int, tdd_all: int) -> bool {
    (m.0 == fdd_all && m.1 == tdd_all) || (m.0 == 0 && m.1 == 0)
}

/// Bands are locked unless both the LTE and the NR masks mean no lock.
pub open spec fn band_locked(lte: (int, int), nr: (int, int)) -> bool {
    !(all_or_zero(lte, 149, 320) && all_or_zero(nr, 517, 912))
}

/// The text of two query outcomes as reported for debugging.
pub open spec fn band_raw_report(
    lte: (int, int),
    lte_raw: Seq<char>,
    nr: (int, int),
    nr_raw: Seq<char>,
) -> Seq<char> {
    "LTE(fdd="@ + dec_string(lte.0 as nat) + ",tdd="@ + dec_string(lte.1 as nat) + "): "@ + trim(
        lte_raw,
    ) + "\nNR(fdd="@ + dec_string(nr.0 as nat) + ",tdd="@ + dec_string(nr.1 as nat) + "): "@
        + trim(nr_raw)
}

/// An outcome as character sequences.
pub open spec fn outcome_view(r: Result<&str, &str>) -> Result<Seq<char>, Seq<char>> {
    match r {
        Ok(t) => Ok(t@),
        Err(e) => Err(e@),
    }
}

fn masks_exec(r: Result<&str, &str>, lte: bool) -> (m: (u16, u16))
    ensures
        (m.0 as int, m.1 as int) == masks_of(outcome_view(r), lte),
{
    match r {
        Ok(t) => if lte {
            parse_splband_lte_response(t)
        } else {
            parse_splband_nr_response(t)
        },
        Err(_) => (0, 0),
    }
}

fn raw_exec(r: Result<&str, &str>) -> (v: Vec<char>)
    ensures
        v@ == raw_text(outcome_view(r)),
{
    match r {
        Ok(t) => chars_of(t),
        Err(e) => {
            let mut out = chars_of("Error: ");
            let ev = chars_of(e);
            append_chars(&mut out, ev.as_slice());
            out
        },
    }
}

/// Band lock state from the outcomes of the LTE (`AT+SPLBAND=0`) and NR
/// (`AT+SPLBAND=3`) queries: locked unless both read as every supported band
/// or none; the band lists are those of the masks when locked and empty
/// otherwise; the raw report gives the masks and each trimmed answer.
pub fn band_lock_status(lte: Result<&str, &str>, nr: Result<&str, &str>) -> (r: BandLockStatus)
    ensures
        ({
            let lm = masks_of(outcome_view(lte), true);
            let nm = masks_of(outcome_view(nr), false);
            &&& r.locked == band_locked(lm, nm)
            &&& r.locked ==> r.lte_fdd_bands@ == bands_in(lm.0 as u16, band_table(1))
                && r.lte_tdd_bands@ == bands_in(lm.1 as u16, band_table(33))
                && r.nr_fdd_bands@ == bands_in(nm.0 as u16, band_table(100))
                && r.nr_tdd_bands@ == bands_in(nm.1 as u16, band_table(41))
            &&& !r.locked ==> r.lte_fdd_bands@.len() == 0 && r.lte_tdd_bands@.len() == 0
                && r.nr_fdd_bands@.len() == 0 && r.nr_tdd_bands@.len() == 0
            &&& r.raw_response matches Some(t) && t@ == band_raw_report(
                lm,
                raw_text(outcome_view(lte)),
                nm,
                raw_text(outcome_view(nr)),
            )
        }),
{
    let (lf, lt) = masks_exec(lte, true);
    let (nf, nt) = masks_exec(nr, false);
    let lte_none = (lf == LTE_FDD_ALL && lt == LTE_TDD_ALL) || (lf == 0 && lt == 0);
    let nr_none = (nf == NR_FDD_ALL && nt == NR_TDD_ALL) || (nf == 0 && nt == 0);
    let locked = !(lte_none && nr_none);
    let (a, b, c, d) = if locked {
        (
            bitmask_to_bands(lf, 1),
            bitmask_to_bands(lt, 33),
            bitmask_to_bands(nf, 100),
            bitmask_to_bands(nt, 41),
        )
    } else {
        (Vec::new(), Vec::new(), Vec::new(), Vec::new())
    };
    let lraw = raw_exec(lte);
    let nraw = raw_exec(nr);
    let mut out = chars_of("LTE(fdd=");
    push_dec(&mut out, lf as u64);
    let s1 = chars_of(",tdd=");
    append_chars(&mut out, s1.as_slice());
    push_dec(&mut out, lt as u64);
    let s2 = chars_of("): ");
    append_chars(&mut out, s2.as_slice());
    let lt_trim = trimmed(lraw.as_slice());
    append_chars(&mut out, lt_trim.as_slice());
    let s3 = chars_of("\nNR(fdd=");
    append_chars(&mut out, s3.as_slice());
    push_dec(&mut out, nf as u64);
    append_chars(&mut out, s1.as_slice());
    push_dec(&mut out, nt as u64);
    append_chars(&mut out, s2.as_slice());
    let nt_trim = trimmed(nraw.as_slice());
    append_chars(&mut out, nt_trim.as_slice());
    BandLockStatus {
        locked,
        lte_fdd_bands: a,
        lte_tdd_bands: b,
        nr_fdd_bands: c,
        nr_tdd_bands: d,
        raw_response: Some(string_of(out.as_slice())),
    }
}

/// A band lock request: the bands of each group to keep.
pub struct BandLockRequest {
    pub lte_fdd_bands: Vec<u8>,
    pub lte_tdd_bands: Vec<u8>,
    pub nr_fdd_bands: Vec<u8>,
    pub nr_tdd_bands: Vec<u8>,
}

/// What a band lock request asks of the module.
pub struct BandLockPlan {
    /// The LTE lock command, when some LTE band is asked for.
    pub lte_command: Option<String>,
    /// The NR lock command, when some NR band is asked for.
    pub nr_command: Option<String>,
    /// Every list is empty: clear the locks that are set.
    pub unlock_all: bool,
}

/// The commands of a band lock request: the LTE command for the LTE masks
/// when either is non-zero, the same for NR, and the unlocking of all bands
/// when every list is empty.
pub fn band_lock_plan(req: &BandLockRequest) -> (r: BandLockPlan)
    ensures
        ({
            let lf = bands_mask(req.lte_fdd_bands@, 1);
            let lt = bands_mask(req.lte_tdd_bands@, 33);
            let nf = bands_mask(req.nr_fdd_bands@, 100);
            let nt = bands_mask(req.nr_tdd_bands@, 41);
            &&& (lf != 0 || lt != 0) ==> (r.lte_command matches Some(c) && c@ == lte_lock_command(lf, lt))
            &&& (lf == 0 && lt == 0) ==> r.lte_command is None
            &&& (nf != 0 || nt != 0) ==> (r.nr_command matches Some(c) && c@ == nr_lock_command(nf, nt))
            &&& (nf == 0 && nt == 0) ==> r.nr_command is None
            &&& r.unlock_all == (req.lte_fdd_bands@.len() == 0 && req.lte_tdd_bands@.len() == 0
                && req.nr_fdd_bands@.len() == 0 && req.nr_tdd_bands@.len() == 0)
        }),
{
    let lf = bands_to_bitmask(req.lte_fdd_bands.as_slice(), 1);
    let lt = bands_to_bitmask(req.lte_tdd_bands.as_slice(), 33);
    let nf = bands_to_bitmask(req.nr_fdd_bands.as_slice(), 100);
    let nt = bands_to_bitmask(req.nr_tdd_bands.as_slice(), 41);
    let lte_command = if lf != 0 || lt != 0 {
        Some(build_splband_lte_command(lf, lt))
    } else {
        None
    };
    let nr_command = if nf != 0 || nt != 0 {
        Some(build_splband_nr_command(nf, nt))
    } else {
        None
    };
    let unlock_all = req.lte_fdd_bands.len() == 0 && req.lte_tdd_bands.len() == 0
        && req.nr_fdd_bands.len() == 0 && req.nr_tdd_bands.len() == 0;
    BandLockPlan { lte_command, nr_command, unlock_all }
}

/// Message after clearing locks, by which groups were actually unlocked.
pub open spec fn unlock_message(lte_unlocked: bool, nr_unlocked: bool) -> Seq<char> {
    if lte_unlocked && nr_unlocked {
        "已解除所有频段锁定（LTE + NR）"@
    } else if lte_unlocked {
        "已解除 LTE 频段锁定（NR 未锁定）"@
    } else if nr_unlocked {
        "已解除 NR 频段锁定（LTE 未锁定）"@
    } else {
        "当前没有锁定的频段，无需解锁"@
    }
}

/// The message after clearing locks.
pub fn band_unlock_message(lte_unlocked: bool, nr_unlocked: bool) -> (r: String)
    ensures
        r@ == unlock_message(lte_unlocked, nr_unlocked),
{
    if lte_unlocked && nr_unlocked {
        "已解除所有频段锁定（LTE + NR）".to_owned()
    } else if lte_unlocked {
        "已解除 LTE 频段锁定（NR 未锁定）".to_owned()
    } else if nr_unlocked {
        "已解除 NR 频段锁定（LTE 未锁定）".to_owned()
    } else {
        "当前没有锁定的频段，无需解锁".to_owned()
    }
}

/// Message after applying locks, by which groups got a lock command.
pub open spec fn lock_message(has_lte: bool, has_nr: bool) -> Seq<char> {
    if has_lte && has_nr {
        "已同时锁定 LTE 和 NR 频段"@
    } else if has_lte {
        "LTE 频段锁定已应用"@
    } else {
        "NR 频段锁定已应用"@
    }
}

/// The message after applying locks.
pub fn band_lock_message(has_lte: bool, has_nr: bool) -> (r: String)
    ensures
        r@ == lock_message(has_lte, has_nr),
{
    if has_lte && has_nr {
        "已同时锁定 LTE 和 NR 频段".to_owned()
    } else if has_lte {
        "LTE 频段锁定已应用".to_owned()
    } else {
        "NR 频段锁定已应用".to_owned()
    }
}

/// A queried pair of masks shows a lock that has to be cleared.
pub fn masks_need_unlock(masks: (u16, u16)) -> (r: bool)
    ensures
        r == (masks.0 != 0 || masks.1 != 0),
{
    masks.0 != 0 || masks.1 != 0
}


/// A table fit for masks: bit positions below 16, and positions and bands
/// both strictly increasing in table order.
pub open spec fn table_ok(tbl: Seq<(int, u8)>) -> bool {
    &&& forall|j: int| 0 <= j < tbl.len() ==> 0 <= #[trigger] tbl[j].0 < 16
    &&& forall|i: int, j: int| 0 <= i < j < tbl.len() ==> #[trigger] tbl[i].0 < #[trigger] tbl[j].0
    &&& forall|i: int, j: int| 0 <= i < j < tbl.len() ==> #[trigger] tbl[i].1 < #[trigger] tbl[j].1
}

/// Some entry of the table puts band `b` at bit position `k`.
pub open spec fn names_at(tbl: Seq<(int, u8)>, k: int, b: u8) -> bool {
    exists|j: int| 0 <= j < tbl.len() && #[trigger] tbl[j] == (k, b)
}

/// The bands of the table that the list names, in table order.
pub open spec fn listed_in(tbl: Seq<(int, u8)>, bands: Seq<u8>) -> Seq<u8>
    decreases tbl.len(),
{
    if tbl.len() == 0 {
        seq![]
    } else {
        let rest = listed_in(tbl.drop_last(), bands);
        if bands.contains(tbl.last().1) {
            rest.push(tbl.last().1)
        } else {
            rest
        }
    }
}

/// Every group's table is fit for masks.
pub proof fn lemma_table_ok(base: u8)
    ensures
        table_ok(band_table(base)),
{
    let tbl = band_table(base);
    if base == 1 || base == 33 {
        assert forall|j: int| 0 <= j < tbl.len() implies tbl[j] == (j, (j + base) as u8) by {}
    } else if base == 100 {
        assert(tbl[0] == (0int, 1u8) && tbl[1] == (1int, 2u8) && tbl[2] == (2int, 3u8) && tbl[3] == (
        4int, 5u8) && tbl[4] == (6int, 7u8) && tbl[5] == (7int, 8u8) && tbl[6] == (9int, 28u8));
    } else if base == 41 {
        assert(tbl[0] == (0int, 34u8) && tbl[1] == (1int, 38u8) && tbl[2] == (2int, 39u8) && tbl[3]
            == (3int, 40u8) && tbl[4] == (4int, 41u8) && tbl[5] == (7int, 77u8) && tbl[6] == (
        8int, 78u8) && tbl[7] == (9int, 79u8));
    }
}

proof fn lemma_has_bit_and(m: u16, k: int)
    requires
        0 <= k < 16,
    ensures
        has_bit(m, k) == (m & pos_bit(k) != 0),
{
    let s = k as u16;
    vstd::bits::lemma_u16_shr_is_div(m, s);
    assert(((m >> s) % 2 == 1) == ((m & (1u16 << s)) != 0)) by (bit_vector)
        requires
            s < 16,
    ;
}

proof fn lemma_pos_bits(j: int, k: int)
    requires
        0 <= j < 16,
        0 <= k < 16,
    ensures
        (pos_bit(j) & pos_bit(k) != 0) == (j == k),
{
    let x = j as u16;
    let y = k as u16;
    assert(((1u16 << x) & (1u16 << y) != 0) == (x == y)) by (bit_vector)
        requires
            x < 16,
            y < 16,
    ;
}

proof fn lemma_or_and(a: u16, b: u16, c: u16)
    ensures
        ((a | b) & c != 0) == ((a & c != 0) || (b & c != 0)),
        (0u16 & c) == 0,
{
    assert(((a | b) & c != 0) == ((a & c != 0) || (b & c != 0))) by (bit_vector);
    assert((0u16 & c) == 0) by (bit_vector);
}

/// The bit of a band has position `k` exactly when the table puts the band there.
proof fn lemma_band_bit16(tbl: Seq<(int, u8)>, b: u8, k: int)
    requires
        table_ok(tbl),
        0 <= k < 16,
    ensures
        (band_bit16(tbl, b) & pos_bit(k) != 0) == names_at(tbl, k, b),
    decreases tbl.len(),
{
    lemma_or_and(0, 0, pos_bit(k));
    if tbl.len() > 0 {
        let d = tbl.drop_first();
        if tbl[0].1 == b {
            lemma_pos_bits(tbl[0].0, k);
            if names_at(tbl, k, b) {
                let j = choose|j: int| 0 <= j < tbl.len() && #[trigger] tbl[j] == (k, b);
                if j > 0 {
                    assert(tbl[0].1 < tbl[j].1);
                }
            }
            if tbl[0].0 == k {
                assert(tbl[0] == (k, b));
            }
        } else {
            assert(table_ok(d)) by {
                assert forall|j: int| 0 <= j < d.len() implies 0 <= #[trigger] d[j].0 < 16 by {
                    assert(d[j] == tbl[j + 1]);
                }
                assert forall|i: int, j: int| 0 <= i < j < d.len() implies #[trigger] d[i].0
                    < #[trigger] d[j].0 by {
                    assert(d[i] == tbl[i + 1] && d[j] == tbl[j + 1]);
                }
                assert forall|i: int, j: int| 0 <= i < j < d.len() implies #[trigger] d[i].1
                    < #[trigger] d[j].1 by {
                    assert(d[i] == tbl[i + 1] && d[j] == tbl[j + 1]);
                }
            }
            lemma_band_bit16(d, b, k);
            if names_at(tbl, k, b) {
                let j = choose|j: int| 0 <= j < tbl.len() && #[trigger] tbl[j] == (k, b);
                assert(j > 0);
                assert(d[j - 1] == tbl[j]);
            }
            if names_at(d, k, b) {
                let j = choose|j: int| 0 <= j < d.len() && #[trigger] d[j] == (k, b);
                assert(tbl[j + 1] == d[j]);
            }
        }
    }
}

/// A bit of a list's mask is set exactly when the table puts a listed band there.
proof fn lemma_mask_bit(bands: Seq<u8>, base: u8, k: int)
    requires
        0 <= k < 16,
    ensures
        has_bit(bands_mask(bands, base), k) == exists|i: int|
            0 <= i < bands.len() && names_at(band_table(base), k, #[trigger] bands[i]),
    decreases bands.len(),
{
    lemma_table_ok(base);
    lemma_has_bit_and(bands_mask(bands, base), k);
    lemma_or_and(0, 0, pos_bit(k));
    if bands.len() > 0 {
        let d = bands.drop_last();
        lemma_mask_bit(d, base, k);
        lemma_has_bit_and(bands_mask(d, base), k);
        lemma_or_and(bands_mask(d, base), band_bit16(band_table(base), bands.last()), pos_bit(k));
        lemma_band_bit16(band_table(base), bands.last(), k);
        if exists|i: int| 0 <= i < d.len() && names_at(band_table(base), k, #[trigger] d[i]) {
            let i = choose|i: int| 0 <= i < d.len() && names_at(band_table(base), k, #[trigger] d[i]);
            assert(bands[i] == d[i]);
        }
        if exists|i: int| 0 <= i < bands.len() && names_at(band_table(base), k, #[trigger] bands[i]) {
            let i = choose|i: int| 0 <= i < bands.len() && names_at(band_table(base), k, #[trigger] bands[i]);
            if i < d.len() {
                assert(d[i] == bands[i]);
            }
        }
    }
}

proof fn lemma_listed_in_prefix(bands: Seq<u8>, base: u8, n: int)
    requires
        0 <= n <= band_table(base).len(),
    ensures
        bands_in(bands_mask(bands, base), band_table(base).subrange(0, n)) == listed_in(
            band_table(base).subrange(0, n),
            bands,
        ),
        forall|x: int| 0 <= x < listed_in(band_table(base).subrange(0, n), bands).len() ==> exists|j: int|
            0 <= j < n && #[trigger] listed_in(band_table(base).subrange(0, n), bands)[x] == band_table(base)[j].1,
        forall|x: int, y: int| 0 <= x < y < listed_in(band_table(base).subrange(0, n), bands).len()
            ==> #[trigger] listed_in(band_table(base).subrange(0, n), bands)[x] < #[trigger] listed_in(
            band_table(base).subrange(0, n),
            bands,
        )[y],
    decreases n,
{
    let tbl = band_table(base);
    lemma_table_ok(base);
    if n > 0 {
        lemma_listed_in_prefix(bands, base, n - 1);
        let p = tbl.subrange(0, n);
        assert(p.drop_last() =~= tbl.subrange(0, n - 1));
        assert(p.last() == tbl[n - 1]);
        let e = tbl[n - 1];
        let m = bands_mask(bands, base);
        lemma_mask_bit(bands, base, e.0);
        if has_bit(m, e.0) {
            let i = choose|i: int| 0 <= i < bands.len() && names_at(tbl, e.0, #[trigger] bands[i]);
            let j = choose|j: int| 0 <= j < tbl.len() && #[trigger] tbl[j] == (e.0, bands[i]);
            if j < n - 1 {
                assert(tbl[j].0 < tbl[n - 1].0);
            } else if j > n - 1 {
                assert(tbl[n - 1].0 < tbl[j].0);
            }
            assert(bands[i] == e.1);
            assert(bands.contains(e.1));
        }
        if bands.contains(e.1) {
            let i = choose|i: int| 0 <= i < bands.len() && bands[i] == e.1;
            assert(tbl[n - 1] == (e.0, bands[i]));
            assert(names_at(tbl, e.0, bands[i]));
        }
        let prev = listed_in(tbl.subrange(0, n - 1), bands);
        let cur = listed_in(p, bands);
        if bands.contains(e.1) {
            assert(cur == prev.push(e.1));
            assert forall|x: int| 0 <= x < cur.len() implies exists|j: int|
                0 <= j < n && #[trigger] cur[x] == tbl[j].1 by {
                if x < prev.len() {
                    assert(cur[x] == prev[x]);
                    let j = choose|j: int| 0 <= j < n - 1 && #[trigger] prev[x] == tbl[j].1;
                    assert(cur[x] == tbl[j].1);
                } else {
                    assert(cur[x] == tbl[n - 1].1);
                }
            }
            assert forall|x: int, y: int| 0 <= x < y < cur.len() implies #[trigger] cur[x]
                < #[trigger] cur[y] by {
                if y < prev.len() {
                    assert(cur[x] == prev[x] && cur[y] == prev[y]);
                } else {
                    assert(cur[x] == prev[x]);
                    let j = choose|j: int| 0 <= j < n - 1 && #[trigger] prev[x] == tbl[j].1;
                    assert(tbl[j].1 < tbl[n - 1].1);
                }
            }
        } else {
            assert(cur == prev);
        }
    } else {
        assert(tbl.subrange(0, 0) =~= Seq::<(int, u8)>::empty());
    }
}

/// Encoding a band list and decoding the mask gives the group's bands that
/// the list names, each once, in the group's order, which is ascending.
pub proof fn lemma_bands_roundtrip(bands: Seq<u8>, base: u8)
    ensures
        bands_in(bands_mask(bands, base), band_table(base)) == listed_in(band_table(base), bands),
        forall|x: int, y: int| 0 <= x < y < listed_in(band_table(base), bands).len()
            ==> #[trigger] listed_in(band_table(base), bands)[x] < #[trigger] listed_in(
            band_table(base),
            bands,
        )[y],
{
    let tbl = band_table(base);
    lemma_listed_in_prefix(bands, base, tbl.len() as int);
    assert(tbl.subrange(0, tbl.len() as int) =~= tbl);
}

proof fn lemma_bands_in_members(mask: u16, tbl: Seq<(int, u8)>, x: u8)
    ensures
        bands_in(mask, tbl).contains(x) == exists|j: int|
            0 <= j < tbl.len() && #[trigger] tbl[j].1 == x && has_bit(mask, tbl[j].0),
    decreases tbl.len(),
{
    if tbl.len() > 0 {
        let n = tbl.len() - 1;
        let d = tbl.drop_last();
        lemma_bands_in_members(mask, d, x);
        let rest = bands_in(mask, d);
        let cur = bands_in(mask, tbl);
        let lhs = cur.contains(x);
        let rhs = exists|j: int| 0 <= j < tbl.len() && #[trigger] tbl[j].1 == x && has_bit(mask, tbl[j].0);
        let drhs = exists|j: int| 0 <= j < d.len() && #[trigger] d[j].1 == x && has_bit(mask, d[j].0);
        let at_last = tbl[n].1 == x && has_bit(mask, tbl[n].0);
        assert(tbl.last() == tbl[n]);
        if drhs {
            let j = choose|j: int| 0 <= j < d.len() && #[trigger] d[j].1 == x && has_bit(mask, d[j].0);
            assert(tbl[j] == d[j]);
            assert(rhs);
        }
        if at_last {
            assert(rhs);
        }
        if rhs {
            let j = choose|j: int| 0 <= j < tbl.len() && #[trigger] tbl[j].1 == x && has_bit(mask, tbl[j].0);
            if j < n {
                assert(d[j] == tbl[j]);
                assert(drhs);
            } else {
                assert(at_last);
            }
        }
        assert(rhs == (drhs || at_last));
        if has_bit(mask, tbl[n].0) {
            assert(cur == rest.push(tbl[n].1));
            if rest.contains(x) {
                let i = choose|i: int| 0 <= i < rest.len() && rest[i] == x;
                assert(cur[i] == x);
            }
            if tbl[n].1 == x {
                assert(cur[rest.len() as int] == x);
            }
            if lhs {
                let i = choose|i: int| 0 <= i < cur.len() && cur[i] == x;
                if i < rest.len() {
                    assert(rest[i] == x);
                }
            }
            assert(lhs == (rest.contains(x) || tbl[n].1 == x));
        } else {
            assert(cur == rest);
        }
    }
}

proof fn lemma_bit_eq(a: u16, b: u16, s: u16)
    requires
        s < 16,
        has_bit(a, s as int) == has_bit(b, s as int),
    ensures
        (a & (1u16 << s)) == (b & (1u16 << s)),
{
    lemma_has_bit_and(a, s as int);
    lemma_has_bit_and(b, s as int);
    assert((a & (1u16 << s)) == (b & (1u16 << s))) by (bit_vector)
        requires
            s < 16,
            ((a & (1u16 << s)) != 0) == ((b & (1u16 << s)) != 0),
    ;
}

/// Two 16-bit masks with the same bits are equal.
proof fn lemma_same_bits(a: u16, b: u16)
    requires
        forall|k: int| 0 <= k < 16 ==> #[trigger] has_bit(a, k) == has_bit(b, k),
    ensures
        a == b,
{
    assert(has_bit(a, 0) == has_bit(b, 0));
    assert(has_bit(a, 1) == has_bit(b, 1));
    assert(has_bit(a, 2) == has_bit(b, 2));
    assert(has_bit(a, 3) == has_bit(b, 3));
    assert(has_bit(a, 4) == has_bit(b, 4));
    assert(has_bit(a, 5) == has_bit(b, 5));
    assert(has_bit(a, 6) == has_bit(b, 6));
    assert(has_bit(a, 7) == has_bit(b, 7));
    assert(has_bit(a, 8) == has_bit(b, 8));
    assert(has_bit(a, 9) == has_bit(b, 9));
    assert(has_bit(a, 10) == has_bit(b, 10));
    assert(has_bit(a, 11) == has_bit(b, 11));
    assert(has_bit(a, 12) == has_bit(b, 12));
    assert(has_bit(a, 13) == has_bit(b, 13));
    assert(has_bit(a, 14) == has_bit(b, 14));
    assert(has_bit(a, 15) == has_bit(b, 15));
    lemma_bit_eq(a, b, 0);
    lemma_bit_eq(a, b, 1);
    lemma_bit_eq(a, b, 2);
    lemma_bit_eq(a, b, 3);
    lemma_bit_eq(a, b, 4);
    lemma_bit_eq(a, b, 5);
    lemma_bit_eq(a, b, 6);
    lemma_bit_eq(a, b, 7);
    lemma_bit_eq(a, b, 8);
    lemma_bit_eq(a, b, 9);
    lemma_bit_eq(a, b, 10);
    lemma_bit_eq(a, b, 11);
    lemma_bit_eq(a, b, 12);
    lemma_bit_eq(a, b, 13);
    lemma_bit_eq(a, b, 14);
    lemma_bit_eq(a, b, 15);
    assert(a == b) by (bit_vector)
        requires
            (a & (1u16 << 0u16)) == (b & (1u16 << 0u16)),
            (a & (1u16 << 1u16)) == (b & (1u16 << 1u16)),
            (a & (1u16 << 2u16)) == (b & (1u16 << 2u16)),
            (a & (1u16 << 3u16)) == (b & (1u16 << 3u16)),
            (a & (1u16 << 4u16)) == (b & (1u16 << 4u16)),
            (a & (1u16 << 5u16)) == (b & (1u16 << 5u16)),
            (a & (1u16 << 6u16)) == (b & (1u16 << 6u16)),
            (a & (1u16 << 7u16)) == (b & (1u16 << 7u16)),
            (a & (1u16 << 8u16)) == (b & (1u16 << 8u16)),
            (a & (1u16 << 9u16)) == (b & (1u16 << 9u16)),
            (a & (1u16 << 10u16)) == (b & (1u16 << 10u16)),
            (a & (1u16 << 11u16)) == (b & (1u16 << 11u16)),
            (a & (1u16 << 12u16)) == (b & (1u16 << 12u16)),
            (a & (1u16 << 13u16)) == (b & (1u16 << 13u16)),
            (a & (1u16 << 14u16)) == (b & (1u16 << 14u16)),
            (a & (1u16 << 15u16)) == (b & (1u16 << 15u16)),
    ;
}

/// Decoding a mask and encoding the bands keeps exactly the bits of the mask
/// that name a band of the group; for the LTE groups, where every bit names
/// one, it gives the mask back.
pub proof fn lemma_mask_roundtrip(mask: u16, base: u8)
    ensures
        forall|k: int|
            0 <= k < 16 ==> #[trigger] has_bit(bands_mask(bands_in(mask, band_table(base)), base), k)
                == (has_bit(mask, k) && exists|j: int|
                0 <= j < band_table(base).len() && #[trigger] band_table(base)[j].0 == k),
        base == 1 || base == 33 ==> bands_mask(bands_in(mask, band_table(base)), base) == mask,
{
    let tbl = band_table(base);
    let bs = bands_in(mask, tbl);
    let r = bands_mask(bs, base);
    lemma_table_ok(base);
    assert forall|k: int| 0 <= k < 16 implies #[trigger] has_bit(r, k) == (has_bit(mask, k)
        && exists|j: int| 0 <= j < tbl.len() && #[trigger] tbl[j].0 == k) by {
        lemma_mask_bit(bs, base, k);
        if has_bit(r, k) {
            let i = choose|i: int| 0 <= i < bs.len() && names_at(tbl, k, #[trigger] bs[i]);
            let j = choose|j: int| 0 <= j < tbl.len() && #[trigger] tbl[j] == (k, bs[i]);
            assert(bs.contains(bs[i]));
            lemma_bands_in_members(mask, tbl, bs[i]);
            let j2 = choose|j2: int| 0 <= j2 < tbl.len() && #[trigger] tbl[j2].1 == bs[i] && has_bit(mask, tbl[j2].0);
            if j2 < j {
                assert(tbl[j2].1 < tbl[j].1);
            } else if j < j2 {
                assert(tbl[j].1 < tbl[j2].1);
            }
            assert(tbl[j].0 == k);
        }
        if has_bit(mask, k) && exists|j: int| 0 <= j < tbl.len() && #[trigger] tbl[j].0 == k {
            let j = choose|j: int| 0 <= j < tbl.len() && #[trigger] tbl[j].0 == k;
            lemma_bands_in_members(mask, tbl, tbl[j].1);
            assert(bs.contains(tbl[j].1));
            let i = choose|i: int| 0 <= i < bs.len() && bs[i] == tbl[j].1;
            assert(tbl[j] == (k, bs[i]));
            assert(names_at(tbl, k, bs[i]));
        }
    }
    if base == 1 || base == 33 {
        assert forall|k: int| 0 <= k < 16 implies #[trigger] has_bit(r, k) == has_bit(mask, k) by {
            assert(tbl[k].0 == k);
        }
        lemma_same_bits(r, mask);
    }
}

/// The lock rule: the module counts as band-locked as soon as one group
/// (LTE or NR) is restricted, that is its (FDD, TDD) masks are neither both
/// zero nor every supported band (LTE 149 = B1+B3+B5+B8 and 320 = B39+B41;
/// NR 517 = N1+N3+N28 and 912 = N41+N77+N78+N79), whatever the other group
/// reads; it is unlocked only when both groups are unrestricted.
pub proof fn lemma_band_lock_rule(lte: (int, int), nr: (int, int))
    ensures
        lte != (0int, 0int) && lte != (149int, 320int) ==> band_locked(lte, nr),
        nr != (0int, 0int) && nr != (517int, 912int) ==> band_locked(lte, nr),
        (lte == (0int, 0int) || lte == (149int, 320int)) && (nr == (0int, 0int) || nr == (
        517int, 912int)) ==> !band_locked(lte, nr),
{
}

} // verus!
