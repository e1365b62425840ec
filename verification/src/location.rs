//! Cell location data for geolocation services: the serving cell and the
//! neighbour cells with operator codes, area code, cell id and signal values
//! in whole units, and the hint shown with them.

use vstd::prelude::*;
use vstd::string::*;
use crate::models::{CellInfo, CellView};
use crate::loader::same_chars;
use crate::text::{
    append_chars, chars_of, dec_string, div100, int_string, parse_i32_exec, parse_int, parse_uint,
    parse_uint_exec, push_dec, push_int, string_of, trunc_div, chars_of_string,
};

verus! {

/// Location data of one cell.
pub struct CellLocationInfo {
    pub mcc: String,
    pub mnc: String,
    /// Tracking area code.
    pub lac: u32,
    /// Cell id; 0 for a neighbour cell.
    pub cid: u32,
    /// RSRP in dBm.
    pub signal_strength: i32,
    pub radio_type: String,
    pub arfcn: Option<u32>,
    pub pci: Option<u32>,
    /// RSRQ in dB.
    pub rsrq: Option<i32>,
    /// SINR in dB.
    pub sinr: Option<i32>,
}

/// The values a `CellLocationInfo` holds.
pub ghost struct LocView {
    pub mcc: Seq<char>,
    pub mnc: Seq<char>,
    pub lac: u32,
    pub cid: u32,
    pub signal_strength: i32,
    pub radio_type: Seq<char>,
    pub arfcn: Option<u32>,
    pub pci: Option<u32>,
    pub rsrq: Option<i32>,
    pub sinr: Option<i32>,
}

impl View for CellLocationInfo {
    type V = LocView;

    open spec fn view(&self) -> LocView {
        LocView {
            mcc: self.mcc@,
            mnc: self.mnc@,
            lac: self.lac,
            cid: self.cid,
            signal_strength: self.signal_strength,
            radio_type: self.radio_type@,
            arfcn: self.arfcn,
            pci: self.pci,
            rsrq: self.rsrq,
            sinr: self.sinr,
        }
    }
}

/// Location data of the serving cell and its neighbours.
pub struct CellLocationResponse {
    pub available: bool,
    pub cell_info: Option<CellLocationInfo>,
    pub neighbor_cells: Vec<CellLocationInfo>,
    pub usage_hint: String,
}

/// The views of location entries.
pub open spec fn locs_view(v: Seq<CellLocationInfo>) -> Seq<LocView> {
    v.map_values(|c: CellLocationInfo| c@)
}

/// The view of an optional location entry.
pub open spec fn opt_loc_view(o: Option<CellLocationInfo>) -> Option<LocView> {
    match o {
        Some(c) => Some(c@),
        None => None,
    }
}

/// A raw (x100) reading as `str::parse::<i32>` gives it.
pub open spec fn parse_i32(t: Seq<char>) -> Option<int> {
    parse_int(t, i32::MIN as int, i32::MAX as int)
}

/// A raw reading in whole units (divided by 100, toward zero), if it parses.
pub open spec fn scaled(t: Seq<char>) -> Option<i32> {
    match parse_i32(t) {
        Some(v) => Some(trunc_div(v, 100) as i32),
        None => None,
    }
}

/// Signal strength in dBm of a raw RSRP (divided by 100 toward zero); an
/// unreadable value counts as the raw value -140.
pub open spec fn signal_of(rsrp: Seq<char>) -> i32 {
    trunc_div(
        match parse_i32(rsrp) {
            Some(v) => v,
            None => -140,
        },
        100,
    ) as i32
}

/// A number text as `str::parse::<u32>` gives it.
pub open spec fn u32_of(t: Seq<char>) -> Option<u32> {
    match parse_uint(t, 10, u32::MAX as int) {
        Some(v) => Some(v as u32),
        None => None,
    }
}

/// The hint given when MCC or MNC is missing.
pub open spec fn unregistered_hint() -> Seq<char> {
    "Network not registered or MCC/MNC not available. Please ensure device is connected to cellular network."@
}

/// An operator code that is present and not empty.
pub open spec fn code_present(c: Option<Seq<char>>) -> bool {
    c matches Some(t) && t.len() > 0
}

/// An optional text as a sequence.
pub open spec fn opt_text(o: Option<&str>) -> Option<Seq<char>> {
    match o {
        Some(t) => Some(t@),
        None => None,
    }
}

fn unavailable(message: &str) -> (r: (String, CellLocationResponse))
    ensures
        r.0@ == message@,
        !r.1.available,
        r.1.cell_info is None,
        r.1.neighbor_cells@.len() == 0,
        r.1.usage_hint@ == unregistered_hint(),
{
    (
        message.to_owned(),
        CellLocationResponse {
            available: false,
            cell_info: None,
            neighbor_cells: Vec::new(),
            usage_hint: "Network not registered or MCC/MNC not available. Please ensure device is connected to cellular network.".to_owned(),
        },
    )
}

/// The answer when an operator code is missing or empty (MCC checked
/// first), or `None` when both are there.
pub fn operator_codes_missing(mcc: Option<&str>, mnc: Option<&str>) -> (r: Option<
    (String, CellLocationResponse),
>)
    ensures
        (r is None) == (code_present(opt_text(mcc)) && code_present(opt_text(mnc))),
        r matches Some(p) ==> {
            &&& p.0@ == (if !code_present(opt_text(mcc)) {
                "Cell location unavailable: MCC not available"@
            } else {
                "Cell location unavailable: MNC not available"@
            })
            &&& !p.1.available && p.1.cell_info is None && p.1.neighbor_cells@.len() == 0
            &&& p.1.usage_hint@ == unregistered_hint()
        },
{
    let mcc_ok = match mcc {
        Some(t) => t.unicode_len() > 0,
        None => false,
    };
    if !mcc_ok {
        return Some(unavailable("Cell location unavailable: MCC not available"));
    }
    let mnc_ok = match mnc {
        Some(t) => t.unicode_len() > 0,
        None => false,
    };
    if !mnc_ok {
        return Some(unavailable("Cell location unavailable: MNC not available"));
    }
    None
}

/// Location entry of the serving cell from the cell detail when there is one.
pub open spec fn serving_location(
    mcc: Seq<char>,
    mnc: Seq<char>,
    tech: Seq<char>,
    tac: u32,
    cid: u32,
    detail: Option<CellView>,
) -> LocView {
    LocView {
        mcc,
        mnc,
        lac: tac,
        cid,
        signal_strength: match detail {
            Some(d) => signal_of(d.rsrp),
            None => -100i32,
        },
        radio_type: tech,
        arfcn: match detail {
            Some(d) => u32_of(d.arfcn),
            None => None,
        },
        pci: match detail {
            Some(d) => u32_of(d.pci),
            None => None,
        },
        rsrq: match detail {
            Some(d) => scaled(d.rsrq),
            None => None,
        },
        sinr: match detail {
            Some(d) => scaled(d.sinr),
            None => None,
        },
    }
}

/// Location entry of a neighbour cell, when its PCI parses.
pub open spec fn neighbor_location(mcc: Seq<char>, mnc: Seq<char>, tac: u32, c: CellView) -> Option<
    LocView,
> {
    match u32_of(c.pci) {
        Some(pci) => Some(
            LocView {
                mcc,
                mnc,
                lac: tac,
                cid: 0,
                signal_strength: signal_of(c.rsrp),
                radio_type: c.tech,
                arfcn: u32_of(c.arfcn),
                pci: Some(pci),
                rsrq: scaled(c.rsrq),
                sinr: scaled(c.sinr),
            },
        ),
        None => None,
    }
}

/// Location entries of the neighbour cells whose PCI parses, in order.
pub open spec fn neighbor_locations(mcc: Seq<char>, mnc: Seq<char>, tac: u32, cs: Seq<CellView>) -> Seq<
    LocView,
>
    decreases cs.len(),
{
    if cs.len() == 0 {
        seq![]
    } else {
        let rest = neighbor_locations(mcc, mnc, tac, cs.drop_last());
        match neighbor_location(mcc, mnc, tac, cs.last()) {
            Some(l) => rest.push(l),
            None => rest,
        }
    }
}

/// The hint shown with a located serving cell.
pub open spec fn located_hint(
    operator: Seq<char>,
    mcc: Seq<char>,
    mnc: Seq<char>,
    cid: u32,
    tac: u32,
    signal: i32,
) -> Seq<char> {
    "Cell location data available. You can use this data with geolocation APIs:\n- Google Geolocation API: https://developers.google.com/maps/documentation/geolocation/overview\n- OpenCellID: https://opencellid.org/\n- Unwired Labs: https://unwiredlabs.com/\nNetwork: "@
        + operator + " (MCC="@ + mcc + ", MNC="@ + mnc + "), Cell ID="@ + dec_string(cid as nat)
        + ", TAC="@ + dec_string(tac as nat) + ", Signal="@ + int_string(signal as int) + "dBm"@
}

/// The hint shown for a network type without cell detail commands.
pub open spec fn limited_hint(
    tech: Seq<char>,
    operator: Seq<char>,
    mcc: Seq<char>,
    mnc: Seq<char>,
    cid: u32,
    tac: u32,
) -> Seq<char> {
    "Cell location data available (limited). Unsupported network type: "@ + tech + ".\nNetwork: "@
        + operator + " (MCC="@ + mcc + ", MNC="@ + mnc + "), Cell ID="@ + dec_string(cid as nat)
        + ", TAC="@ + dec_string(tac as nat)
}

fn u32_exec(t: &String) -> (r: Option<u32>)
    ensures
        r == u32_of(t@),
{
    let v = chars_of_string(t);
    match parse_uint_exec(v.as_slice(), 10, 4294967295) {
        Some(x) => Some(x),
        None => None,
    }
}

fn scaled_exec(t: &String) -> (r: Option<i32>)
    ensures
        r == scaled(t@),
{
    let v = chars_of_string(t);
    match parse_i32_exec(v.as_slice()) {
        Some(x) => Some(div100(x)),
        None => None,
    }
}

fn signal_exec(t: &String) -> (r: i32)
    ensures
        r == signal_of(t@),
{
    let v = chars_of_string(t);
    let raw = match parse_i32_exec(v.as_slice()) {
        Some(x) => x,
        None => -140,
    };
    div100(raw)
}

fn owned_string(s: &str) -> (r: String)
    ensures
        r@ == s@,
{
    s.to_owned()
}

/// The answer for a network type that has no cell detail commands: the
/// serving cell with default signal (-100 dBm) when its id is non-zero, no
/// neighbours, and the limited hint.
pub fn limited_cell_location(
    mcc: &str,
    mnc: &str,
    operator_name: &str,
    tech: &str,
    tac: u32,
    cell_id: u32,
) -> (r: (String, CellLocationResponse))
    ensures
        r.0@ == "Success (limited info)"@,
        r.1.available == (cell_id > 0),
        opt_loc_view(r.1.cell_info) == (if cell_id > 0 {
            Some(serving_location(mcc@, mnc@, tech@, tac, cell_id, None))
        } else {
            None
        }),
        r.1.neighbor_cells@.len() == 0,
        r.1.usage_hint@ == limited_hint(tech@, operator_name@, mcc@, mnc@, cell_id, tac),
{
    let cell_info = if cell_id > 0 {
        Some(
            CellLocationInfo {
                mcc: owned_string(mcc),
                mnc: owned_string(mnc),
                lac: tac,
                cid: cell_id,
                signal_strength: -100,
                radio_type: owned_string(tech),
                arfcn: None,
                pci: None,
                rsrq: None,
                sinr: None,
            },
        )
    } else {
        None
    };
    let mut h = chars_of("Cell location data available (limited). Unsupported network type: ");
    let t = chars_of(tech);
    append_chars(&mut h, t.as_slice());
    let a = chars_of(".\nNetwork: ");
    append_chars(&mut h, a.as_slice());
    network_tail(&mut h, operator_name, mcc, mnc, cell_id, tac);
    (
        owned_string("Success (limited info)"),
        CellLocationResponse {
            available: cell_id > 0,
            cell_info,
            neighbor_cells: Vec::new(),
            usage_hint: string_of(h.as_slice()),
        },
    )
}

fn network_tail(out: &mut Vec<char>, operator: &str, mcc: &str, mnc: &str, cid: u32, tac: u32)
    ensures
        final(out)@ == old(out)@ + operator@ + " (MCC="@ + mcc@ + ", MNC="@ + mnc@ + "), Cell ID="@
            + dec_string(cid as nat) + ", TAC="@ + dec_string(tac as nat),
{
    let o = chars_of(operator);
    append_chars(out, o.as_slice());
    let a = chars_of(" (MCC=");
    append_chars(out, a.as_slice());
    let m1 = chars_of(mcc);
    append_chars(out, m1.as_slice());
    let b = chars_of(", MNC=");
    append_chars(out, b.as_slice());
    let m2 = chars_of(mnc);
    append_chars(out, m2.as_slice());
    let c = chars_of("), Cell ID=");
    append_chars(out, c.as_slice());
    push_dec(out, cid as u64);
    let d = chars_of(", TAC=");
    append_chars(out, d.as_slice());
    push_dec(out, tac as u64);
}

fn neighbor_entry(mcc: &str, mnc: &str, tac: u32, c: &CellInfo) -> (r: Option<CellLocationInfo>)
    ensures
        opt_loc_view(r) == neighbor_location(mcc@, mnc@, tac, c@),
{
    match u32_exec(&c.pci) {
        Some(pci) => Some(
            CellLocationInfo {
                mcc: owned_string(mcc),
                mnc: owned_string(mnc),
                lac: tac,
                cid: 0,
                signal_strength: signal_exec(&c.rsrp),
                radio_type: c.tech.clone(),
                arfcn: u32_exec(&c.arfcn),
                pci: Some(pci),
                rsrq: scaled_exec(&c.rsrq),
                sinr: scaled_exec(&c.sinr),
            },
        ),
        None => None,
    }
}

/// The views of cells.
pub open spec fn cell_views(v: Seq<CellInfo>) -> Seq<CellView> {
    v.map_values(|c: CellInfo| c@)
}

/// The answer for a network type with cell detail commands: the serving cell
/// (when its id is non-zero) with the signal values of the cell detail when
/// there is one, every neighbour whose PCI parses, and the hint.
pub fn cell_location(
    mcc: &str,
    mnc: &str,
    operator_name: &str,
    tech: &str,
    tac: u32,
    cell_id: u32,
    detail: Option<&CellInfo>,
    neighbors: &[CellInfo],
) -> (r: (String, CellLocationResponse))
    ensures
        ({
            let dv = match detail {
                Some(d) => Some(d@),
                None => None,
            };
            let serving = serving_location(mcc@, mnc@, tech@, tac, cell_id, dv);
            &&& r.0@ == "Success"@
            &&& r.1.available == (cell_id > 0)
            &&& opt_loc_view(r.1.cell_info) == (if cell_id > 0 {
                Some(serving)
            } else {
                None
            })
            &&& locs_view(r.1.neighbor_cells@) == neighbor_locations(
                mcc@,
                mnc@,
                tac,
                cell_views(neighbors@),
            )
            &&& r.1.usage_hint@ == (if cell_id > 0 {
                located_hint(operator_name@, mcc@, mnc@, cell_id, tac, serving.signal_strength)
            } else {
                "Cell location unavailable: No serving cell found."@
            })
        }),
{
    let ghost dv = match detail {
        Some(d) => Some(d@),
        None => None,
    };
    let cell_info = if cell_id > 0 {
        let (signal, arfcn, pci, rsrq, sinr) = match detail {
            Some(d) => (
                signal_exec(&d.rsrp),
                u32_exec(&d.arfcn),
                u32_exec(&d.pci),
                scaled_exec(&d.rsrq),
                scaled_exec(&d.sinr),
            ),
            None => (-100i32, None, None, None, None),
        };
        Some(
            CellLocationInfo {
                mcc: owned_string(mcc),
                mnc: owned_string(mnc),
                lac: tac,
                cid: cell_id,
                signal_strength: signal,
                radio_type: owned_string(tech),
                arfcn,
                pci,
                rsrq,
                sinr,
            },
        )
    } else {
        None
    };
    let mut out: Vec<CellLocationInfo> = Vec::new();
    let mut i: usize = 0;
    while i < neighbors.len()
        invariant
            i <= neighbors@.len(),
            locs_view(out@) == neighbor_locations(
                mcc@,
                mnc@,
                tac,
                cell_views(neighbors@).subrange(0, i as int),
            ),
        decreases neighbors@.len() - i,
    {
        let ghost pre = cell_views(neighbors@).subrange(0, i + 1);
        assert(pre.drop_last() =~= cell_views(neighbors@).subrange(0, i as int));
        assert(pre.last() == neighbors@[i as int]@);
        let e = neighbor_entry(mcc, mnc, tac, &neighbors[i]);
        match e {
            Some(l) => {
                let ghost before = out@;
                out.push(l);
                assert(locs_view(out@) =~= locs_view(before).push(l@));
            },
            None => {},
        }
        i = i + 1;
    }
    assert(cell_views(neighbors@).subrange(0, neighbors@.len() as int) =~= cell_views(neighbors@));
    let hint = match &cell_info {
        Some(c) => {
            let mut h = chars_of(
                "Cell location data available. You can use this data with geolocation APIs:\n- Google Geolocation API: https://developers.google.com/maps/documentation/geolocation/overview\n- OpenCellID: https://opencellid.org/\n- Unwired Labs: https://unwiredlabs.com/\nNetwork: ",
            );
            network_tail(&mut h, operator_name, mcc, mnc, cell_id, tac);
            let s = chars_of(", Signal=");
            append_chars(&mut h, s.as_slice());
            push_int(&mut h, c.signal_strength as i64);
            let d = chars_of("dBm");
            append_chars(&mut h, d.as_slice());
            string_of(h.as_slice())
        },
        None => owned_string("Cell location unavailable: No serving cell found."),
    };
    (
        owned_string("Success"),
        CellLocationResponse {
            available: cell_id > 0,
            cell_info,
            neighbor_cells: out,
            usage_hint: hint,
        },
    )
}


// ---------------------------------------------------------------- cell identity

/// A property value read from the modem, as far as the library reads it.
pub enum PropValue {
    /// An unsigned 32-bit number.
    U32(u32),
    /// A text.
    Str(String),
    /// A boolean.
    Bool(bool),
    /// Any other kind of value.
    Other,
}

/// A property value with its text as a sequence.
pub ghost enum PropView {
    U32(u32),
    Str(Seq<char>),
    Bool(bool),
    Other,
}

/// The view of a property value.
pub open spec fn prop_view(v: PropValue) -> PropView {
    match v {
        PropValue::U32(n) => PropView::U32(n),
        PropValue::Str(s) => PropView::Str(s@),
        PropValue::Bool(b) => PropView::Bool(b),
        PropValue::Other => PropView::Other,
    }
}

/// The views of named properties.
pub open spec fn props_view(v: Seq<(String, PropValue)>) -> Seq<(Seq<char>, PropView)> {
    v.map_values(|p: (String, PropValue)| (p.0@, prop_view(p.1)))
}

/// The value of the first property named `key`.
pub open spec fn prop_lookup(ps: Seq<(Seq<char>, PropView)>, key: Seq<char>) -> Option<PropView>
    decreases ps.len(),
{
    if ps.len() == 0 {
        None
    } else if ps[0].0 == key {
        Some(ps[0].1)
    } else {
        prop_lookup(ps.drop_first(), key)
    }
}

/// The number a property value gives: a number as it is; a text read as a
/// decimal `u32`, else as a hexadecimal one; nothing otherwise.
pub open spec fn prop_number(v: PropView) -> Option<u32> {
    match v {
        PropView::U32(n) => Some(n),
        PropView::Str(s) => match parse_uint(s, 10, u32::MAX as int) {
            Some(n) => Some(n as u32),
            None => match parse_uint(s, 16, u32::MAX as int) {
                Some(n) => Some(n as u32),
                None => None,
            },
        },
        PropView::Bool(_) => None,
        PropView::Other => None,
    }
}

/// The number of the first key whose property gives one, or 0.
pub open spec fn number_from_keys(ps: Seq<(Seq<char>, PropView)>, keys: Seq<Seq<char>>) -> u32
    decreases keys.len(),
{
    if keys.len() == 0 {
        0
    } else {
        match prop_lookup(ps, keys[0]) {
            Some(v) => match prop_number(v) {
                Some(n) => n,
                None => number_from_keys(ps, keys.drop_first()),
            },
            None => number_from_keys(ps, keys.drop_first()),
        }
    }
}

pub(crate) fn lookup_exec<'a>(props: &'a Vec<(String, PropValue)>, key: &str) -> (r: Option<&'a PropValue>)
    ensures
        match prop_lookup(props_view(props@), key@) {
            Some(v) => r matches Some(x) && prop_view(*x) == v,
            None => r is None,
        },
{
    let ghost all = props_view(props@);
    let k = chars_of(key);
    let mut i: usize = 0;
    assert(all.subrange(0, all.len() as int) =~= all);
    while i < props.len()
        invariant
            i <= props@.len(),
            all == props_view(props@),
            k@ == key@,
            prop_lookup(all, key@) == prop_lookup(all.subrange(i as int, all.len() as int), key@),
        decreases props@.len() - i,
    {
        let ghost rest = all.subrange(i as int, all.len() as int);
        assert(rest[0] == (props@[i as int].0@, prop_view(props@[i as int].1)));
        assert(rest.drop_first() =~= all.subrange(i + 1, all.len() as int));
        let name = chars_of_string(&props[i].0);
        if same_chars(name.as_slice(), k.as_slice()) {
            return Some(&props[i].1);
        }
        i = i + 1;
    }
    None
}

fn prop_number_exec(v: &PropValue) -> (r: Option<u32>)
    ensures
        r == prop_number(prop_view(*v)),
{
    match v {
        PropValue::U32(n) => Some(*n),
        PropValue::Str(s) => {
            let c = chars_of_string(s);
            match parse_uint_exec(c.as_slice(), 10, 4294967295) {
                Some(n) => Some(n),
                None => match parse_uint_exec(c.as_slice(), 16, 4294967295) {
                    Some(n) => Some(n),
                    None => None,
                },
            }
        },
        PropValue::Bool(_) => None,
        PropValue::Other => None,
    }
}

/// The number of the first of `keys` whose property gives one (see
/// `number_from_keys`), or 0.
pub fn parse_u32_from_keys(cell_info: &Vec<(String, PropValue)>, keys: &[&str]) -> (r: u32)
    ensures
        r == number_from_keys(props_view(cell_info@), keys@.map_values(|k: &str| k@)),
{
    let ghost ks = keys@.map_values(|k: &str| k@);
    let ghost ps = props_view(cell_info@);
    let mut i: usize = 0;
    assert(ks.subrange(0, ks.len() as int) =~= ks);
    while i < keys.len()
        invariant
            i <= keys@.len(),
            ks == keys@.map_values(|k: &str| k@),
            ps == props_view(cell_info@),
            number_from_keys(ps, ks) == number_from_keys(ps, ks.subrange(i as int, ks.len() as int)),
        decreases keys@.len() - i,
    {
        let ghost rest = ks.subrange(i as int, ks.len() as int);
        assert(rest[0] == keys@[i as int]@);
        assert(rest.drop_first() =~= ks.subrange(i + 1, ks.len() as int));
        match lookup_exec(cell_info, keys[i]) {
            Some(v) => match prop_number_exec(v) {
                Some(n) => {
                    return n;
                },
                None => {},
            },
            None => {},
        }
        i = i + 1;
    }
    0
}

} // verus!
