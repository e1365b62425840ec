//! System readings: uptime in words, the CPU model of an ARM part number,
//! the processors of `/proc/cpuinfo`, the CPU time totals of `/proc/stat`
//! and the scope of an interface address.

use vstd::prelude::*;
use vstd::string::*;
use crate::text::{
    append_chars, chars_of, chars_of_string, dec_string, index_of_char, join_with, lines,
    lines_of, parse_uint, parse_uint_exec, push_dec, seqs_of, string_of, strings_of, strs_view,
    sub_vec, trim, words, words_of, find_char_from, starts_with, starts_with_exec,
};
use crate::loader::{same_chars, trimmed};
use crate::models::{CpuCore, CpuInfo};

verus! {

// ---------------------------------------------------------------- uptime

/// The parts of an uptime: days, hours and minutes when non-zero, and the
/// seconds when non-zero or when nothing else is there.
pub open spec fn uptime_parts(seconds: u64) -> Seq<Seq<char>> {
    let days = seconds / 86400;
    let hours = (seconds % 86400) / 3600;
    let minutes = (seconds % 3600) / 60;
    let secs = seconds % 60;
    let a = if days > 0 {
        seq![dec_string(days as nat) + "天"@]
    } else {
        seq![]
    };
    let b = if hours > 0 {
        a.push(dec_string(hours as nat) + "小时"@)
    } else {
        a
    };
    let c = if minutes > 0 {
        b.push(dec_string(minutes as nat) + "分钟"@)
    } else {
        b
    };
    if c.len() == 0 || secs > 0 {
        c.push(dec_string(secs as nat) + "秒"@)
    } else {
        c
    }
}

fn unit_part(n: u64, unit: &str) -> (r: String)
    ensures
        r@ == dec_string(n as nat) + unit@,
{
    let mut v: Vec<char> = Vec::new();
    push_dec(&mut v, n);
    let u = chars_of(unit);
    append_chars(&mut v, u.as_slice());
    string_of(v.as_slice())
}

/// An uptime in words, e.g. `2天 3小时 45分钟`.
pub fn format_uptime(seconds: u64) -> (r: String)
    ensures
        r@ == join_with(uptime_parts(seconds), " "@),
{
    let days = seconds / 86400;
    let hours = (seconds % 86400) / 3600;
    let minutes = (seconds % 3600) / 60;
    let secs = seconds % 60;
    let mut parts: Vec<String> = Vec::new();
    if days > 0 {
        parts.push(unit_part(days, "天"));
    }
    if hours > 0 {
        parts.push(unit_part(hours, "小时"));
    }
    if minutes > 0 {
        parts.push(unit_part(minutes, "分钟"));
    }
    if parts.len() == 0 || secs > 0 {
        parts.push(unit_part(secs, "秒"));
    }
    assert(strs_view(parts@) =~= uptime_parts(seconds));
    let r = crate::text::join_strings(parts.as_slice(), ' ');
    proof {
        reveal_strlit(" ");
        assert(seq![' '] =~= " "@);
    }
    r
}

// ---------------------------------------------------------------- CPU model

/// The ARM core names by part number.
pub open spec fn arm_part_name(part: Seq<char>) -> Option<Seq<char>> {
    if part == "0xd05"@ {
        Some("ARM Cortex-A55"@)
    } else if part == "0xd0a"@ {
        Some("ARM Cortex-A75"@)
    } else if part == "0xd0b"@ {
        Some("ARM Cortex-A76"@)
    } else if part == "0xd0c"@ {
        Some("ARM Neoverse N1"@)
    } else if part == "0xd0d"@ {
        Some("ARM Cortex-A77"@)
    } else if part == "0xd0e"@ {
        Some("ARM Cortex-A76AE"@)
    } else if part == "0xd40"@ {
        Some("ARM Neoverse V1"@)
    } else if part == "0xd41"@ {
        Some("ARM Cortex-A78"@)
    } else if part == "0xd44"@ {
        Some("ARM Cortex-X1"@)
    } else if part == "0xd46"@ {
        Some("ARM Cortex-A510"@)
    } else if part == "0xd47"@ {
        Some("ARM Cortex-A710"@)
    } else if part == "0xd48"@ {
        Some("ARM Cortex-X2"@)
    } else if part == "0xd49"@ {
        Some("ARM Neoverse N2"@)
    } else if part == "0xd4a"@ {
        Some("ARM Neoverse E1"@)
    } else if part == "0xd4b"@ {
        Some("ARM Cortex-A78AE"@)
    } else if part == "0xd4c"@ {
        Some("ARM Cortex-X1C"@)
    } else if part == "0xd4d"@ {
        Some("ARM Cortex-A715"@)
    } else if part == "0xd4e"@ {
        Some("ARM Cortex-X3"@)
    } else {
        None
    }
}

/// The CPU model of an implementer and part: the ARM core name, `ARM CPU
/// (part: ...)` for another ARM part, `CPU (implementer: ..., part: ...)`
/// for another implementer.
pub open spec fn cpu_model(implementer: Seq<char>, part: Seq<char>) -> Seq<char> {
    if implementer == "0x41"@ {
        match arm_part_name(part) {
            Some(n) => n,
            None => "ARM CPU (part: "@ + part + ")"@,
        }
    } else {
        "CPU (implementer: "@ + implementer + ", part: "@ + part + ")"@
    }
}

fn is_text(v: &Vec<char>, lit: &str) -> (r: bool)
    ensures
        r == (v@ == lit@),
{
    let l = chars_of(lit);
    same_chars(v.as_slice(), l.as_slice())
}

fn arm_part_exec(p: &Vec<char>) -> (r: Option<&'static str>)
    ensures
        match arm_part_name(p@) {
            Some(n) => r matches Some(x) && x@ == n,
            None => r is None,
        },
{
    if is_text(p, "0xd05") {
        Some("ARM Cortex-A55")
    } else if is_text(p, "0xd0a") {
        Some("ARM Cortex-A75")
    } else if is_text(p, "0xd0b") {
        Some("ARM Cortex-A76")
    } else if is_text(p, "0xd0c") {
        Some("ARM Neoverse N1")
    } else if is_text(p, "0xd0d") {
        Some("ARM Cortex-A77")
    } else if is_text(p, "0xd0e") {
        Some("ARM Cortex-A76AE")
    } else if is_text(p, "0xd40") {
        Some("ARM Neoverse V1")
    } else if is_text(p, "0xd41") {
        Some("ARM Cortex-A78")
    } else if is_text(p, "0xd44") {
        Some("ARM Cortex-X1")
    } else if is_text(p, "0xd46") {
        Some("ARM Cortex-A510")
    } else if is_text(p, "0xd47") {
        Some("ARM Cortex-A710")
    } else if is_text(p, "0xd48") {
        Some("ARM Cortex-X2")
    } else if is_text(p, "0xd49") {
        Some("ARM Neoverse N2")
    } else if is_text(p, "0xd4a") {
        Some("ARM Neoverse E1")
    } else if is_text(p, "0xd4b") {
        Some("ARM Cortex-A78AE")
    } else if is_text(p, "0xd4c") {
        Some("ARM Cortex-X1C")
    } else if is_text(p, "0xd4d") {
        Some("ARM Cortex-A715")
    } else if is_text(p, "0xd4e") {
        Some("ARM Cortex-X3")
    } else {
        None
    }
}

/// The CPU model of an implementer and a part (see `cpu_model`).
pub fn identify_cpu_model(implementer: &str, part: &str) -> (r: String)
    ensures
        r@ == cpu_model(implementer@, part@),
{
    let i = chars_of(implementer);
    let p = chars_of(part);
    if is_text(&i, "0x41") {
        match arm_part_exec(&p) {
            Some(n) => n.to_owned(),
            None => {
                let mut m = chars_of("ARM CPU (part: ");
                append_chars(&mut m, p.as_slice());
                let c = chars_of(")");
                append_chars(&mut m, c.as_slice());
                string_of(m.as_slice())
            },
        }
    } else {
        let mut m = chars_of("CPU (implementer: ");
        append_chars(&mut m, i.as_slice());
        let a = chars_of(", part: ");
        append_chars(&mut m, a.as_slice());
        append_chars(&mut m, p.as_slice());
        let c = chars_of(")");
        append_chars(&mut m, c.as_slice());
        string_of(m.as_slice())
    }
}

// ---------------------------------------------------------------- /proc/cpuinfo

/// The values of one processor block.
pub ghost struct CoreView {
    pub processor: u32,
    pub bogomips: Seq<char>,
    pub features: Seq<Seq<char>>,
    pub implementer: Seq<char>,
    pub architecture: Seq<char>,
    pub variant: Seq<char>,
    pub part: Seq<char>,
    pub revision: Seq<char>,
}

/// The values of a processor.
pub open spec fn core_view(c: CpuCore) -> CoreView {
    CoreView {
        processor: c.processor,
        bogomips: c.bogomips@,
        features: strs_view(c.features@),
        implementer: c.implementer@,
        architecture: c.architecture@,
        variant: c.variant@,
        part: c.part@,
        revision: c.revision@,
    }
}

/// A processor with nothing read yet.
pub open spec fn blank_core() -> CoreView {
    CoreView {
        processor: 0,
        bogomips: seq![],
        features: seq![],
        implementer: seq![],
        architecture: seq![],
        variant: seq![],
        part: seq![],
        revision: seq![],
    }
}

/// The state of reading `/proc/cpuinfo`: finished processors, the one being
/// read, and the board's hardware and serial lines.
pub ghost struct ScanView {
    pub cores: Seq<CoreView>,
    pub cur: CoreView,
    pub hardware: Seq<char>,
    pub serial: Seq<char>,
}

/// A processor block counts once it has a non-zero number or a BogoMIPS value.
pub open spec fn core_started(c: CoreView) -> bool {
    c.processor > 0 || c.bogomips.len() > 0
}

/// One line of `/proc/cpuinfo` read into the state: a blank line closes a
/// started processor; a `key: value` line sets the field of its key (both
/// trimmed); other lines change nothing.
pub open spec fn scan_line(st: ScanView, raw: Seq<char>) -> ScanView {
    let line = trim(raw);
    if line.len() == 0 {
        if core_started(st.cur) {
            ScanView { cores: st.cores.push(st.cur), cur: blank_core(), ..st }
        } else {
            st
        }
    } else {
        let k = index_of_char(line, ':');
        if k < 0 {
            st
        } else {
            let key = trim(line.subrange(0, k));
            let value = trim(line.subrange(k + 1, line.len() as int));
            let c = st.cur;
            if key == "processor"@ {
                match parse_uint(value, 10, u32::MAX as int) {
                    Some(n) => ScanView { cur: CoreView { processor: n as u32, ..c }, ..st },
                    None => st,
                }
            } else if key == "BogoMIPS"@ {
                ScanView { cur: CoreView { bogomips: value, ..c }, ..st }
            } else if key == "Features"@ {
                ScanView { cur: CoreView { features: words(value), ..c }, ..st }
            } else if key == "CPU implementer"@ {
                ScanView { cur: CoreView { implementer: value, ..c }, ..st }
            } else if key == "CPU architecture"@ {
                ScanView { cur: CoreView { architecture: value, ..c }, ..st }
            } else if key == "CPU variant"@ {
                ScanView { cur: CoreView { variant: value, ..c }, ..st }
            } else if key == "CPU part"@ {
                ScanView { cur: CoreView { part: value, ..c }, ..st }
            } else if key == "CPU revision"@ {
                ScanView { cur: CoreView { revision: value, ..c }, ..st }
            } else if key == "Hardware"@ {
                ScanView { hardware: value, ..st }
            } else if key == "Serial"@ {
                ScanView { serial: value, ..st }
            } else {
                st
            }
        }
    }
}

/// The state after reading the lines in order.
pub open spec fn scan_lines(st: ScanView, ls: Seq<Seq<char>>) -> ScanView
    decreases ls.len(),
{
    if ls.len() == 0 {
        st
    } else {
        scan_lines(scan_line(st, ls[0]), ls.drop_first())
    }
}

/// What `/proc/cpuinfo` gives: the processors (a last unclosed started one
/// included), hardware and serial.
pub open spec fn cpuinfo_of(content: Seq<char>) -> (Seq<CoreView>, Seq<char>, Seq<char>) {
    let st = scan_lines(
        ScanView { cores: seq![], cur: blank_core(), hardware: seq![], serial: seq![] },
        lines(content),
    );
    (
        if core_started(st.cur) {
            st.cores.push(st.cur)
        } else {
            st.cores
        },
        st.hardware,
        st.serial,
    )
}

fn blank_core_exec() -> (r: CpuCore)
    ensures
        core_view(r) == blank_core(),
{
    let c = CpuCore {
        processor: 0,
        bogomips: String::new(),
        features: Vec::new(),
        implementer: String::new(),
        architecture: String::new(),
        variant: String::new(),
        part: String::new(),
        revision: String::new(),
    };
    assert(strs_view(c.features@) =~= Seq::<Seq<char>>::empty());
    c
}

fn copy_core(c: &CpuCore) -> (r: CpuCore)
    ensures
        core_view(r) == core_view(*c),
{
    let mut f: Vec<String> = Vec::new();
    let mut i: usize = 0;
    while i < c.features.len()
        invariant
            i <= c.features@.len(),
            strs_view(f@) == strs_view(c.features@).subrange(0, i as int),
        decreases c.features@.len() - i,
    {
        let ghost o = f@;
        f.push(c.features[i].clone());
        assert(f@ =~= o.push(c.features@[i as int]));
        assert(strs_view(c.features@).subrange(0, i + 1) =~= strs_view(c.features@).subrange(
            0,
            i as int,
        ).push(c.features@[i as int]@));
        assert(strs_view(f@) =~= strs_view(o).push(c.features@[i as int]@));
        i = i + 1;
    }
    assert(strs_view(c.features@).subrange(0, c.features@.len() as int) =~= strs_view(c.features@));
    CpuCore {
        processor: c.processor,
        bogomips: c.bogomips.clone(),
        features: f,
        implementer: c.implementer.clone(),
        architecture: c.architecture.clone(),
        variant: c.variant.clone(),
        part: c.part.clone(),
        revision: c.revision.clone(),
    }
}

/// The views of processors.
pub open spec fn cores_view(v: Seq<CpuCore>) -> Seq<CoreView> {
    v.map_values(|c: CpuCore| core_view(c))
}

/// The processors and board of a `/proc/cpuinfo` text; the model is that of
/// the first processor, or `Unknown` without one.
pub fn parse_cpuinfo(content: &str) -> (r: CpuInfo)
    ensures
        ({
            let (cores, hardware, serial) = cpuinfo_of(content@);
            &&& cores_view(r.cores@) == cores
            &&& r.core_count == (cores.len() as u32)
            &&& r.hardware@ == hardware
            &&& r.serial@ == serial
            &&& r.model_name@ == (if cores.len() > 0 {
                cpu_model(cores[0].implementer, cores[0].part)
            } else {
                "Unknown"@
            })
        }),
{
    let text = chars_of(content);
    let ls = lines_of(text.as_slice());
    let ghost all = seqs_of(ls@);
    let mut cores: Vec<CpuCore> = Vec::new();
    let mut cur = blank_core_exec();
    let mut hardware = String::new();
    let mut serial = String::new();
    let mut i: usize = 0;
    let ghost init = ScanView { cores: seq![], cur: blank_core(), hardware: seq![], serial: seq![] };
    assert(all.subrange(0, all.len() as int) =~= all);
    assert(cores_view(cores@) =~= Seq::<CoreView>::empty());
    while i < ls.len()
        invariant
            i <= ls@.len(),
            all == seqs_of(ls@),
            all == lines(content@),
            scan_lines(init, all) == scan_lines(
                ScanView {
                    cores: cores_view(cores@),
                    cur: core_view(cur),
                    hardware: hardware@,
                    serial: serial@,
                },
                all.subrange(i as int, all.len() as int),
            ),
        decreases ls@.len() - i,
    {
        let ghost st = ScanView {
            cores: cores_view(cores@),
            cur: core_view(cur),
            hardware: hardware@,
            serial: serial@,
        };
        let ghost rest = all.subrange(i as int, all.len() as int);
        assert(rest[0] == ls@[i as int]@);
        assert(rest.drop_first() =~= all.subrange(i + 1, all.len() as int));
        let line = trimmed(ls[i].as_slice());
        if line.len() == 0 {
            if cur.processor > 0 || cur.bogomips.as_str().unicode_len() > 0 {
                let c = copy_core(&cur);
                let ghost o = cores@;
                cores.push(c);
                assert(cores_view(cores@) =~= cores_view(o).push(core_view(cur)));
                cur = blank_core_exec();
            }
        } else {
            let k = find_char_from(line.as_slice(), ':', 0);
            proof {
                assert(line@.subrange(0, line@.len() as int) =~= line@);
            }
            if k < line.len() {
                let kv = sub_vec(line.as_slice(), 0, k);
                let key = trimmed(kv.as_slice());
                let vv = sub_vec(line.as_slice(), k + 1, line.len());
                let value = trimmed(vv.as_slice());
                if is_text(&key, "processor") {
                    match parse_uint_exec(value.as_slice(), 10, 4294967295) {
                        Some(n) => {
                            cur.processor = n;
                        },
                        None => {},
                    }
                } else if is_text(&key, "BogoMIPS") {
                    cur.bogomips = string_of(value.as_slice());
                } else if is_text(&key, "Features") {
                    let ws = words_of(value.as_slice());
                    cur.features = strings_of(&ws);
                } else if is_text(&key, "CPU implementer") {
                    cur.implementer = string_of(value.as_slice());
                } else if is_text(&key, "CPU architecture") {
                    cur.architecture = string_of(value.as_slice());
                } else if is_text(&key, "CPU variant") {
                    cur.variant = string_of(value.as_slice());
                } else if is_text(&key, "CPU part") {
                    cur.part = string_of(value.as_slice());
                } else if is_text(&key, "CPU revision") {
                    cur.revision = string_of(value.as_slice());
                } else if is_text(&key, "Hardware") {
                    hardware = string_of(value.as_slice());
                } else if is_text(&key, "Serial") {
                    serial = string_of(value.as_slice());
                }
            }
        }
        assert(ScanView {
            cores: cores_view(cores@),
            cur: core_view(cur),
            hardware: hardware@,
            serial: serial@,
        } == scan_line(st, ls@[i as int]@));
        i = i + 1;
    }
    assert(all.subrange(i as int, all.len() as int) =~= Seq::<Seq<char>>::empty());
    if cur.processor > 0 || cur.bogomips.as_str().unicode_len() > 0 {
        let ghost o = cores@;
        let ghost cv = core_view(cur);
        cores.push(cur);
        assert(cores_view(cores@) =~= cores_view(o).push(cv));
    }
    let model_name = if cores.len() > 0 {
        assert(cores_view(cores@)[0] == core_view(cores@[0]));
        identify_cpu_model(cores[0].implementer.as_str(), cores[0].part.as_str())
    } else {
        "Unknown".to_owned()
    };
    let core_count = cores.len() as u32;
    CpuInfo { core_count, cores, hardware, serial, model_name }
}

// ---------------------------------------------------------------- /proc/stat

/// The numbers of a line after its first word, those that parse as `u64`.
pub open spec fn parsed_values(ws: Seq<Seq<char>>) -> Seq<int>
    decreases ws.len(),
{
    if ws.len() == 0 {
        seq![]
    } else {
        let rest = parsed_values(ws.drop_first());
        match parse_uint(ws[0], 10, u64::MAX as int) {
            Some(v) => seq![v] + rest,
            None => rest,
        }
    }
}

/// Value `i`, or 0 past the end.
pub open spec fn value_at(v: Seq<int>, i: int) -> int {
    if 0 <= i < v.len() {
        v[i]
    } else {
        0
    }
}

/// The values of the first `cpu ` line with at least four numbers.
pub open spec fn cpu_values(ls: Seq<Seq<char>>) -> Option<Seq<int>>
    decreases ls.len(),
{
    if ls.len() == 0 {
        None
    } else {
        let ws = words(ls[0]);
        let vals = parsed_values(ws.subrange(if ws.len() > 0 { 1int } else { 0int }, ws.len() as int));
        if starts_with(ls[0], "cpu "@) && vals.len() >= 4 {
            Some(vals)
        } else {
            cpu_values(ls.drop_first())
        }
    }
}

/// Total CPU time (user, nice, system, idle, iowait, irq, softirq, steal)
/// and idle time (idle and iowait) of the aggregate line.
pub open spec fn cpu_totals(v: Seq<int>) -> (int, int) {
    (
        value_at(v, 0) + value_at(v, 1) + value_at(v, 2) + value_at(v, 3) + value_at(v, 4)
            + value_at(v, 5) + value_at(v, 6) + value_at(v, 7),
        value_at(v, 3) + value_at(v, 4),
    )
}

/// The totals fit in 64 bits (they do for any real counter values).
pub open spec fn cpu_stat_fits(stat: Seq<char>) -> bool {
    match cpu_values(lines(stat)) {
        Some(v) => cpu_totals(v).0 <= u64::MAX,
        None => true,
    }
}

fn values_exec(ws: &Vec<Vec<char>>, from: usize) -> (r: Vec<u64>)
    requires
        from <= ws@.len(),
    ensures
        r@.map_values(|x: u64| x as int) == parsed_values(seqs_of(ws@).subrange(from as int, ws@.len() as int)),
{
    let ghost all = seqs_of(ws@).subrange(from as int, ws@.len() as int);
    let mut out: Vec<u64> = Vec::new();
    let mut i = ws.len();
    while i > from
        invariant
            from <= i <= ws@.len(),
            all == seqs_of(ws@).subrange(from as int, ws@.len() as int),
            out@.map_values(|x: u64| x as int) == parsed_values(seqs_of(ws@).subrange(i as int, ws@.len() as int)),
        decreases i,
    {
        i = i - 1;
        let ghost rest = seqs_of(ws@).subrange(i as int, ws@.len() as int);
        assert(rest.drop_first() =~= seqs_of(ws@).subrange(i + 1, ws@.len() as int));
        assert(rest[0] == ws@[i as int]@);
        match parse_u64(ws[i].as_slice()) {
            Some(x) => {
                let ghost o = out@;
                out.insert(0, x);
                assert(out@.map_values(|x: u64| x as int) =~= seq![x as int] + o.map_values(|x: u64| x as int));
            },
            None => {},
        }
    }
    assert(seqs_of(ws@).subrange(ws@.len() as int, ws@.len() as int) =~= Seq::<Seq<char>>::empty());
    out
}

/// The CPU time totals (all, idle) of a `/proc/stat` text: from the first
/// `cpu ` line with at least four numbers; `None` without one.
pub fn cpu_stat_totals(stat: &str) -> (r: Option<(u64, u64)>)
    requires
        cpu_stat_fits(stat@),
    ensures
        match cpu_values(lines(stat@)) {
            Some(v) => r matches Some((t, i)) && (t as int, i as int) == cpu_totals(v),
            None => r is None,
        },
{
    let text = chars_of(stat);
    let ls = lines_of(text.as_slice());
    let prefix = chars_of("cpu ");
    let ghost all = seqs_of(ls@);
    let mut i: usize = 0;
    assert(all.subrange(0, all.len() as int) =~= all);
    while i < ls.len()
        invariant
            i <= ls@.len(),
            all == seqs_of(ls@),
            all == lines(stat@),
            prefix@ == "cpu "@,
            cpu_stat_fits(stat@),
            cpu_values(all) == cpu_values(all.subrange(i as int, all.len() as int)),
        decreases ls@.len() - i,
    {
        let ghost rest = all.subrange(i as int, all.len() as int);
        assert(rest[0] == ls@[i as int]@);
        assert(rest.drop_first() =~= all.subrange(i + 1, all.len() as int));
        if starts_with_exec(ls[i].as_slice(), prefix.as_slice()) {
            let ws = words_of(ls[i].as_slice());
            let from: usize = if ws.len() > 0 {
                1
            } else {
                0
            };
            let vals = values_exec(&ws, from);
            if vals.len() >= 4 {
                let ghost v = vals@.map_values(|x: u64| x as int);
                let mut total: u128 = 0;
                let mut k: usize = 0;
                while k < 8
                    invariant
                        k <= 8,
                        vals@.len() >= 4,
                        v == vals@.map_values(|x: u64| x as int),
                        total as int == (if k >= 1 { value_at(v, 0) } else { 0 }) + (if k >= 2 { value_at(v, 1) } else { 0 })
                            + (if k >= 3 { value_at(v, 2) } else { 0 }) + (if k >= 4 { value_at(v, 3) } else { 0 })
                            + (if k >= 5 { value_at(v, 4) } else { 0 }) + (if k >= 6 { value_at(v, 5) } else { 0 })
                            + (if k >= 7 { value_at(v, 6) } else { 0 }) + (if k >= 8 { value_at(v, 7) } else { 0 }),
                        total <= k * 18446744073709551615u128,
                    decreases 8 - k,
                {
                    let x: u128 = if k < vals.len() {
                        vals[k] as u128
                    } else {
                        0
                    };
                    assert(x as int == value_at(v, k as int));
                    total = total + x;
                    k = k + 1;
                }
                assert(value_at(v, 3) >= 0 && value_at(v, 4) >= 0 && value_at(v, 0) >= 0 && value_at(v, 1) >= 0
                    && value_at(v, 2) >= 0 && value_at(v, 5) >= 0 && value_at(v, 6) >= 0 && value_at(v, 7) >= 0);
                let idle: u128 = (vals[3] as u128) + if vals.len() > 4 {
                    vals[4] as u128
                } else {
                    0
                };
                assert(idle as int == value_at(v, 3) + value_at(v, 4));
                assert(cpu_values(lines(stat@)) == Some(v));
                assert(total as int == cpu_totals(v).0);
                return Some((total as u64, idle as u64));
            }
        }
        i = i + 1;
    }
    None
}

/// Whether the CPU time totals of a `/proc/stat` text fit in 64 bits.
pub fn cpu_stat_in_range(stat: &str) -> (r: bool)
    ensures
        r == cpu_stat_fits(stat@),
{
    let text = chars_of(stat);
    let ls = lines_of(text.as_slice());
    let prefix = chars_of("cpu ");
    let ghost all = seqs_of(ls@);
    let mut i: usize = 0;
    assert(all.subrange(0, all.len() as int) =~= all);
    while i < ls.len()
        invariant
            i <= ls@.len(),
            all == seqs_of(ls@),
            all == lines(stat@),
            prefix@ == "cpu "@,
            cpu_values(all) == cpu_values(all.subrange(i as int, all.len() as int)),
        decreases ls@.len() - i,
    {
        let ghost rest = all.subrange(i as int, all.len() as int);
        assert(rest[0] == ls@[i as int]@);
        assert(rest.drop_first() =~= all.subrange(i + 1, all.len() as int));
        if starts_with_exec(ls[i].as_slice(), prefix.as_slice()) {
            let ws = words_of(ls[i].as_slice());
            let from: usize = if ws.len() > 0 {
                1
            } else {
                0
            };
            let vals = values_exec(&ws, from);
            if vals.len() >= 4 {
                let ghost v = vals@.map_values(|x: u64| x as int);
                let mut total: u128 = 0;
                let mut k: usize = 0;
                while k < 8
                    invariant
                        k <= 8,
                        v == vals@.map_values(|x: u64| x as int),
                        total as int == (if k >= 1 { value_at(v, 0) } else { 0 }) + (if k >= 2 { value_at(v, 1) } else { 0 })
                            + (if k >= 3 { value_at(v, 2) } else { 0 }) + (if k >= 4 { value_at(v, 3) } else { 0 })
                            + (if k >= 5 { value_at(v, 4) } else { 0 }) + (if k >= 6 { value_at(v, 5) } else { 0 })
                            + (if k >= 7 { value_at(v, 6) } else { 0 }) + (if k >= 8 { value_at(v, 7) } else { 0 }),
                        total <= k * 18446744073709551615u128,
                    decreases 8 - k,
                {
                    let x: u128 = if k < vals.len() {
                        vals[k] as u128
                    } else {
                        0
                    };
                    assert(x as int == value_at(v, k as int));
                    total = total + x;
                    k = k + 1;
                }
                assert(cpu_values(lines(stat@)) == Some(v));
                return total <= 18446744073709551615u128;
            }
        }
        i = i + 1;
    }
    true
}

/// Parses a `u64` as `str::parse::<u64>` does.
pub fn parse_u64(s: &[char]) -> (r: Option<u64>)
    ensures
        match r {
            Some(v) => parse_uint(s@, 10, u64::MAX as int) == Some(v as int),
            None => parse_uint(s@, 10, u64::MAX as int) is None,
        },
{
    let n = s.len();
    let start: usize = if n > 0 && s[0] == '+' {
        1
    } else {
        0
    };
    let ghost body = crate::text::num_body(s@);
    assert(body =~= s@.subrange(start as int, n as int));
    if start == n {
        return None;
    }
    let mut acc: u128 = 0;
    let mut over = false;
    let mut i = start;
    assert(s@.subrange(start as int, start as int) =~= Seq::<char>::empty());
    while i < n
        invariant
            start <= i <= n == s@.len(),
            body == s@.subrange(start as int, n as int),
            body == crate::text::num_body(s@),
            crate::text::all_digits(s@.subrange(start as int, i as int), 10),
            !over ==> acc == crate::text::digits_value(s@.subrange(start as int, i as int), 10)
                && acc <= u64::MAX,
            over ==> crate::text::digits_value(s@.subrange(start as int, i as int), 10) > u64::MAX,
        decreases n - i,
    {
        let c = s[i];
        let cn = c as u32;
        if !(48 <= cn && cn <= 57) {
            proof {
                assert(s@.subrange(start as int, n as int)[i - start] == c);
                assert(body[i - start] == c);
                assert(crate::text::digit_val(body[i - start], 10) < 0);
                assert(!crate::text::all_digits(body, 10));
            }
            return None;
        }
        let d: u128 = (cn - 48) as u128;
        let ghost pre = s@.subrange(start as int, i as int);
        let ghost nxt = s@.subrange(start as int, i + 1);
        proof {
            assert(nxt.drop_last() =~= pre);
            assert(nxt.last() == c);
            assert(crate::text::digit_val(c, 10) == d);
            assert(crate::text::all_digits(nxt, 10)) by {
                assert forall|k: int| 0 <= k < nxt.len() implies crate::text::digit_val(
                    #[trigger] nxt[k],
                    10,
                ) >= 0 by {
                    if k < pre.len() {
                        assert(nxt[k] == pre[k]);
                    }
                }
            }
            assert(crate::text::digits_value(nxt, 10) == crate::text::digits_value(pre, 10) * 10
                + d);
        }
        if !over {
            let next = acc * 10 + d;
            if next > 18446744073709551615u128 {
                over = true;
            } else {
                acc = next;
            }
        } else {
            proof {
                let v = crate::text::digits_value(pre, 10);
                assert(v * 10 + d > u64::MAX) by (nonlinear_arith)
                    requires
                        v > u64::MAX,
                        d >= 0,
                ;
            }
        }
        i = i + 1;
    }
    if over {
        None
    } else {
        Some(acc as u64)
    }
}

// ---------------------------------------------------------------- address scope

/// Scope of an IPv4 address: loopback (127/8), private (10/8, 172.16/12,
/// 192.168/16), link-local (169.254/16), else public.
pub open spec fn ipv4_scope_of(a: u8, b: u8) -> Seq<char> {
    if a == 127 {
        "loopback"@
    } else if a == 10 || (a == 172 && 16 <= b <= 31) || (a == 192 && b == 168) {
        "private"@
    } else if a == 169 && b == 254 {
        "link-local"@
    } else {
        "public"@
    }
}

/// The scope of an IPv4 address given by its octets.
pub fn ipv4_scope(a: u8, b: u8, c: u8, d: u8) -> (r: String)
    ensures
        r@ == ipv4_scope_of(a, b),
{
    if a == 127 {
        "loopback".to_owned()
    } else if a == 10 || (a == 172 && 16 <= b && b <= 31) || (a == 192 && b == 168) {
        "private".to_owned()
    } else if a == 169 && b == 254 {
        "link-local".to_owned()
    } else {
        "public".to_owned()
    }
}

/// Scope of an IPv6 address: loopback (::1), link-local (fe80::/10, and
/// the rest of fe00::/8), private (unique local fc00::/7), else public.
pub open spec fn ipv6_scope_of(seg: Seq<u16>) -> Seq<char> {
    if seg[0] == 0 && seg[1] == 0 && seg[2] == 0 && seg[3] == 0 && seg[4] == 0 && seg[5] == 0
        && seg[6] == 0 && seg[7] == 1 {
        "loopback"@
    } else if 0xfe80 <= seg[0] <= 0xfebf {
        "link-local"@
    } else if 0xfc00 <= seg[0] <= 0xfdff {
        "private"@
    } else if 0xfe00 <= seg[0] <= 0xfeff {
        "link-local"@
    } else {
        "public"@
    }
}

/// The scope of an IPv6 address given by its eight segments.
pub fn ipv6_scope(seg: &[u16]) -> (r: String)
    requires
        seg@.len() == 8,
    ensures
        r@ == ipv6_scope_of(seg@),
{
    if seg[0] == 0 && seg[1] == 0 && seg[2] == 0 && seg[3] == 0 && seg[4] == 0 && seg[5] == 0
        && seg[6] == 0 && seg[7] == 1 {
        "loopback".to_owned()
    } else if 0xfe80 <= seg[0] && seg[0] <= 0xfebf {
        "link-local".to_owned()
    } else if 0xfc00 <= seg[0] && seg[0] <= 0xfdff {
        "private".to_owned()
    } else if 0xfe00 <= seg[0] && seg[0] <= 0xfeff {
        "link-local".to_owned()
    } else {
        "public".to_owned()
    }
}

} // verus!
