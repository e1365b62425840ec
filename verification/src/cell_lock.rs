//! Cell lock of the UDX710 (`AT+SPFORCEFRQ`, type 12 LTE and 16 NR): which
//! lock type a request means, the command sequences that set or clear a
//! lock, the stepping through such a sequence, and the reading of the lock
//! query responses.

use vstd::prelude::*;
use vstd::string::*;
use crate::text::{
    append_chars, chars_of, chars_of_string, dec_string, lines, lines_of, parse_uint, parse_uint_exec, push_dec,
    seqs_of, split_char, split_of, starts_with, starts_with_exec, string_of, sub_vec, trim,
};
use crate::loader::trimmed;
use crate::at_script::{at_step, steps_view, AtScript, AtStep};

verus! {

/// Lock type of LTE cells.
pub const FORCEFRQ_TYPE_LTE: u8 = 12;

/// Lock type of NR cells.
pub const FORCEFRQ_TYPE_NR: u8 = 16;

/// The command that takes the module back to normal operation.
pub open spec fn restore_command() -> Seq<char> {
    "AT+SFUN=4"@
}

/// Lock type a requested `rat` stands for: 12 and 16 as they are, 1 and 2
/// (LTE FDD/TDD) give LTE, anything else NR.
pub open spec fn lock_type_of(rat: u8) -> u8 {
    if rat == 12 || rat == 1 || rat == 2 {
        12
    } else {
        16
    }
}

/// The lock type of a requested `rat`.
pub fn forcefrq_type(rat: u8) -> (r: u8)
    ensures
        r == lock_type_of(rat),
{
    if rat == FORCEFRQ_TYPE_LTE || rat == FORCEFRQ_TYPE_NR {
        rat
    } else if rat == 1 || rat == 2 {
        FORCEFRQ_TYPE_LTE
    } else {
        FORCEFRQ_TYPE_NR
    }
}

/// Display name of a lock type: `LTE`, `NR` or `Unknown(<n>)`.
pub open spec fn rat_name(rat: u8) -> Seq<char> {
    if rat == 12 {
        "LTE"@
    } else if rat == 16 {
        "NR"@
    } else {
        "Unknown("@ + dec_string(rat as nat) + ")"@
    }
}

/// The display name of a lock type.
pub fn get_rat_name(rat: u8) -> (r: String)
    ensures
        r@ == rat_name(rat),
{
    if rat == 12 {
        owned_str("LTE")
    } else if rat == 16 {
        owned_str("NR")
    } else {
        let mut out = chars_of("Unknown(");
        push_dec(&mut out, rat as u64);
        let close = chars_of(")");
        append_chars(&mut out, close.as_slice());
        string_of(out.as_slice())
    }
}

fn owned_str(s: &str) -> (r: String)
    ensures
        r@ == s@,
{
    s.to_owned()
}

/// Lock state of one cell type.
pub struct CellLockRatStatus {
    pub rat: u8,
    pub rat_name: String,
    pub enabled: bool,
    pub lock_type: u8,
    pub pci: Option<u16>,
    pub arfcn: Option<u32>,
}

/// Lock state of all cell types.
pub struct CellLockStatusResponse {
    pub rat_status: Vec<CellLockRatStatus>,
    pub any_locked: bool,
}

/// The line prefix of a lock query answer: `+SPFORCEFRQ: <type>,3`.
pub open spec fn query_prefix(rat: u8) -> Seq<char> {
    "+SPFORCEFRQ: "@ + dec_string(rat as nat) + ",3"@
}

/// The first line that starts with `p`.
pub open spec fn first_starting(ls: Seq<Seq<char>>, p: Seq<char>) -> Option<Seq<char>>
    decreases ls.len(),
{
    if ls.len() == 0 {
        None
    } else if starts_with(ls[0], p) {
        Some(ls[0])
    } else {
        first_starting(ls.drop_first(), p)
    }
}

/// The text without its leading commas.
pub open spec fn skip_commas(s: Seq<char>) -> Seq<char>
    decreases s.len(),
{
    if s.len() > 0 && s[0] == ',' {
        skip_commas(s.drop_first())
    } else {
        s
    }
}

/// A parsed `u32`, if any.
pub open spec fn as_u32(o: Option<int>) -> Option<u32> {
    match o {
        Some(v) => Some(v as u32),
        None => None,
    }
}

/// A parsed `u16`, if any.
pub open spec fn as_u16(o: Option<int>) -> Option<u16> {
    match o {
        Some(v) => Some(v as u16),
        None => None,
    }
}

/// Reading of a lock query answer as (enabled, lock type, PCI, ARFCN).
/// The first line starting with the query prefix counts; what follows the
/// prefix, leading commas dropped, is empty when nothing is locked, else
/// `<arfcn>,<pci>`, and the lock is on when both parse. Without such a line
/// nothing is locked.
pub open spec fn lock_reading(response: Seq<char>, rat: u8) -> (bool, u8, Option<u16>, Option<u32>) {
    let p = query_prefix(rat);
    match first_starting(lines(response), p) {
        None => (false, 0, None, None),
        Some(line) => {
            let data = skip_commas(line.subrange(p.len() as int, line.len() as int));
            if data.len() == 0 {
                (false, 0, None, None)
            } else {
                let parts = split_char(data, ',');
                let arfcn = as_u32(parse_uint(trim(parts[0]), 10, u32::MAX as int));
                let pci = if parts.len() > 1 {
                    as_u16(parse_uint(trim(parts[1]), 10, u16::MAX as int))
                } else {
                    None
                };
                (arfcn is Some && pci is Some, 3, pci, arfcn)
            }
        },
    }
}

fn query_prefix_exec(rat: u8) -> (r: Vec<char>)
    ensures
        r@ == query_prefix(rat),
{
    let mut out = chars_of("+SPFORCEFRQ: ");
    push_dec(&mut out, rat as u64);
    let tail = chars_of(",3");
    append_chars(&mut out, tail.as_slice());
    out
}

fn find_line_starting(ls: &Vec<Vec<char>>, p: &[char]) -> (r: Option<usize>)
    ensures
        match r {
            Some(i) => i < ls@.len() && first_starting(seqs_of(ls@), p@) == Some(ls@[i as int]@)
                && starts_with(ls@[i as int]@, p@),
            None => first_starting(seqs_of(ls@), p@) is None,
        },
{
    let ghost all = seqs_of(ls@);
    let mut i: usize = 0;
    assert(all.subrange(0, all.len() as int) =~= all);
    while i < ls.len()
        invariant
            i <= ls@.len(),
            all == seqs_of(ls@),
            first_starting(all, p@) == first_starting(all.subrange(i as int, all.len() as int), p@),
        decreases ls@.len() - i,
    {
        let ghost rest = all.subrange(i as int, all.len() as int);
        assert(rest[0] == ls@[i as int]@);
        if starts_with_exec(ls[i].as_slice(), p) {
            return Some(i);
        }
        assert(rest.drop_first() =~= all.subrange(i + 1, all.len() as int));
        i = i + 1;
    }
    None
}

fn skip_commas_exec(s: &[char]) -> (r: Vec<char>)
    ensures
        r@ == skip_commas(s@),
{
    let mut i: usize = 0;
    assert(s@.subrange(0, s@.len() as int) =~= s@);
    while i < s.len() && s[i] == ','
        invariant
            i <= s@.len(),
            skip_commas(s@) == skip_commas(s@.subrange(i as int, s@.len() as int)),
        decreases s@.len() - i,
    {
        assert(s@.subrange(i as int, s@.len() as int).drop_first() =~= s@.subrange(
            i + 1,
            s@.len() as int,
        ));
        i = i + 1;
    }
    sub_vec(s, i, s.len())
}

fn unlocked_status(rat: u8) -> (r: CellLockRatStatus)
    ensures
        r.rat == rat,
        r.rat_name@ == rat_name(rat),
        !r.enabled,
        r.lock_type == 0,
        r.pci is None,
        r.arfcn is None,
{
    CellLockRatStatus {
        rat,
        rat_name: get_rat_name(rat),
        enabled: false,
        lock_type: 0,
        pci: None,
        arfcn: None,
    }
}

/// The lock state of one type read from its `AT+SPFORCEFRQ=<type>,3` answer.
pub fn parse_spforcefrq_query_response(response: &str, rat: u8) -> (r: CellLockRatStatus)
    ensures
        r.rat == rat,
        r.rat_name@ == rat_name(rat),
        (r.enabled, r.lock_type, r.pci, r.arfcn) == lock_reading(response@, rat),
{
    let text = chars_of(response);
    let ls = lines_of(text.as_slice());
    let p = query_prefix_exec(rat);
    match find_line_starting(&ls, p.as_slice()) {
        None => unlocked_status(rat),
        Some(i) => {
            let line = &ls[i];
            let rest = sub_vec(line.as_slice(), p.len(), line.len());
            let data = skip_commas_exec(rest.as_slice());
            if data.len() == 0 {
                return unlocked_status(rat);
            }
            let parts = split_of(data.as_slice(), ',');
            assert(seqs_of(parts@)[0] == parts@[0]@);
            let a = trimmed(parts[0].as_slice());
            let arfcn: Option<u32> = match parse_uint_exec(a.as_slice(), 10, 4294967295) {
                Some(v) => Some(v),
                None => None,
            };
            let pci: Option<u16> = if parts.len() > 1 {
                assert(seqs_of(parts@)[1] == parts@[1]@);
                let b = trimmed(parts[1].as_slice());
                match parse_uint_exec(b.as_slice(), 10, 65535) {
                    Some(v) => Some(v as u16),
                    None => None,
                }
            } else {
                None
            };
            CellLockRatStatus {
                rat,
                rat_name: get_rat_name(rat),
                enabled: arfcn.is_some() && pci.is_some(),
                lock_type: 3,
                pci,
                arfcn,
            }
        },
    }
}

/// Lock state of NR then LTE from their query answers, `None` where the
/// query failed (that type then reads as not locked).
pub fn cell_lock_status(nr_response: Option<&str>, lte_response: Option<&str>) -> (r:
    CellLockStatusResponse)
    ensures
        r.rat_status@.len() == 2,
        r.rat_status@[0].rat == 16,
        r.rat_status@[1].rat == 12,
        r.rat_status@[0].rat_name@ == "NR"@,
        r.rat_status@[1].rat_name@ == "LTE"@,
        (r.rat_status@[0].enabled, r.rat_status@[0].lock_type, r.rat_status@[0].pci,
        r.rat_status@[0].arfcn) == match nr_response {
            Some(t) => lock_reading(t@, 16),
            None => (false, 0u8, None, None),
        },
        (r.rat_status@[1].enabled, r.rat_status@[1].lock_type, r.rat_status@[1].pci,
        r.rat_status@[1].arfcn) == match lte_response {
            Some(t) => lock_reading(t@, 12),
            None => (false, 0u8, None, None),
        },
        r.any_locked == (r.rat_status@[0].enabled || r.rat_status@[1].enabled),
{
    let nr = match nr_response {
        Some(t) => parse_spforcefrq_query_response(t, FORCEFRQ_TYPE_NR),
        None => unlocked_status(FORCEFRQ_TYPE_NR),
    };
    let lte = match lte_response {
        Some(t) => parse_spforcefrq_query_response(t, FORCEFRQ_TYPE_LTE),
        None => unlocked_status(FORCEFRQ_TYPE_LTE),
    };
    proof {
        reveal_strlit("NR");
        reveal_strlit("LTE");
    }
    let any_locked = nr.enabled || lte.enabled;
    let mut rat_status: Vec<CellLockRatStatus> = Vec::new();
    rat_status.push(nr);
    rat_status.push(lte);
    CellLockStatusResponse { rat_status, any_locked }
}

/// A cell lock request: lock (`enable`) the cell `arfcn`/`pci` of type
/// `rat`, or clear the lock of that type.
pub struct CellLockRequest {
    pub rat: u8,
    pub enable: bool,
    pub lock_type: u8,
    pub pci: Option<u16>,
    pub arfcn: Option<u32>,
}

/// `AT+SPFORCEFRQ=<type>,2,<arfcn>,<pci>`, which locks the cell.
pub open spec fn lock_command(t: u8, arfcn: u32, pci: u16) -> Seq<char> {
    "AT+SPFORCEFRQ="@ + dec_string(t as nat) + ",2,"@ + dec_string(arfcn as nat) + ","@
        + dec_string(pci as nat)
}

/// `AT+SPFORCEFRQ=<type>,0`, which clears the lock of a type.
pub open spec fn clear_command(t: u8) -> Seq<char> {
    "AT+SPFORCEFRQ="@ + dec_string(t as nat) + ",0"@
}

/// Locking: engineering mode, clear NR, clear LTE, lock, back to normal;
/// a failure before the last step restores normal operation first.
pub open spec fn lock_steps(t: u8, arfcn: u32, pci: u16) -> Seq<
    (Seq<char>, Seq<char>, Seq<char>, bool),
> {
    seq![
        ("AT+SFUN=5"@, "进入工程模式"@, "进入工程模式失败: "@, true),
        ("AT+SPFORCEFRQ=16,0"@, "清空 NR 锁定"@, "清空 NR 锁定失败: "@, true),
        ("AT+SPFORCEFRQ=12,0"@, "清空 LTE 锁定"@, "清空 LTE 锁定失败: "@, true),
        (lock_command(t, arfcn, pci), "设置锁定"@, "设置锁定失败: "@, true),
        ("AT+SFUN=4"@, "恢复正常模式"@, "恢复正常模式失败: "@, false),
    ]
}

/// Message of a completed lock.
pub open spec fn lock_success(t: u8, arfcn: u32, pci: u16) -> Seq<char> {
    rat_name(t) + " 小区锁定已设置 (ARFCN="@ + dec_string(arfcn as nat) + ", PCI="@ + dec_string(
        pci as nat,
    ) + ")"@
}

/// Clearing one type: engineering mode, clear, back to normal; only a failed
/// clear restores normal operation first.
pub open spec fn unlock_steps(t: u8) -> Seq<(Seq<char>, Seq<char>, Seq<char>, bool)> {
    seq![
        ("AT+SFUN=5"@, "进入工程模式"@, "进入工程模式失败: "@, false),
        (clear_command(t), "清空锁定"@, "清空锁定失败: "@, true),
        ("AT+SFUN=4"@, "恢复正常模式"@, "恢复正常模式失败: "@, false),
    ]
}

/// Message of a cleared lock.
pub open spec fn unlock_success(t: u8) -> Seq<char> {
    rat_name(t) + " 小区锁定已解除"@
}

/// Clearing every lock: engineering mode, clear NR, clear LTE, back to
/// normal; a failure before the last step restores normal operation first.
pub open spec fn unlock_all_steps() -> Seq<(Seq<char>, Seq<char>, Seq<char>, bool)> {
    seq![
        ("AT+SFUN=5"@, "进入工程模式"@, "解锁失败: 进入工程模式: "@, true),
        ("AT+SPFORCEFRQ=16,0"@, "清空 NR 锁定"@, "解锁失败: 清空 NR 锁定: "@, true),
        ("AT+SPFORCEFRQ=12,0"@, "清空 LTE 锁定"@, "解锁失败: 清空 LTE 锁定: "@, true),
        ("AT+SFUN=4"@, "恢复正常模式"@, "解锁失败: 恢复正常模式: "@, false),
    ]
}

/// The message refusing a lock request without both `arfcn` and `pci`.
pub open spec fn missing_cell_message() -> Seq<char> {
    "锁定小区需要同时提供 arfcn 和 pci 参数"@
}

fn lock_command_exec(t: u8, arfcn: u32, pci: u16) -> (r: String)
    ensures
        r@ == lock_command(t, arfcn, pci),
{
    let mut out = chars_of("AT+SPFORCEFRQ=");
    push_dec(&mut out, t as u64);
    let a = chars_of(",2,");
    append_chars(&mut out, a.as_slice());
    push_dec(&mut out, arfcn as u64);
    let b = chars_of(",");
    append_chars(&mut out, b.as_slice());
    push_dec(&mut out, pci as u64);
    string_of(out.as_slice())
}

fn clear_command_exec(t: u8) -> (r: String)
    ensures
        r@ == clear_command(t),
{
    let mut out = chars_of("AT+SPFORCEFRQ=");
    push_dec(&mut out, t as u64);
    let a = chars_of(",0");
    append_chars(&mut out, a.as_slice());
    string_of(out.as_slice())
}

/// The command sequence of a cell lock request: the lock sequence for the
/// request's type when it asks to lock and names both the ARFCN and the PCI,
/// the clearing sequence when it asks to unlock, and an error when it asks
/// to lock without both.
pub fn cell_lock_script(req: &CellLockRequest) -> (r: Result<AtScript, String>)
    ensures
        match r {
            Ok(s) => if req.enable {
                &&& req.arfcn is Some && req.pci is Some
                &&& steps_view(s.steps@) == lock_steps(
                    lock_type_of(req.rat),
                    req.arfcn->0,
                    req.pci->0,
                )
                &&& s.success@ == lock_success(lock_type_of(req.rat), req.arfcn->0, req.pci->0)
            } else {
                &&& steps_view(s.steps@) == unlock_steps(lock_type_of(req.rat))
                &&& s.success@ == unlock_success(lock_type_of(req.rat))
            },
            Err(m) => req.enable && (req.arfcn is None || req.pci is None) && m@
                == missing_cell_message(),
        },
{
    let t = forcefrq_type(req.rat);
    let name = get_rat_name(t);
    let mut steps: Vec<AtStep> = Vec::new();
    if req.enable {
        let (arfcn, pci) = match (req.arfcn, req.pci) {
            (Some(a), Some(p)) => (a, p),
            _ => {
                return Err(owned_str("锁定小区需要同时提供 arfcn 和 pci 参数"));
            },
        };
        steps.push(at_step("AT+SFUN=5", "进入工程模式", "进入工程模式失败: ", true));
        steps.push(at_step("AT+SPFORCEFRQ=16,0", "清空 NR 锁定", "清空 NR 锁定失败: ", true));
        steps.push(at_step("AT+SPFORCEFRQ=12,0", "清空 LTE 锁定", "清空 LTE 锁定失败: ", true));
        steps.push(
            AtStep {
                command: lock_command_exec(t, arfcn, pci),
                label: owned_str("设置锁定"),
                fail_prefix: owned_str("设置锁定失败: "),
                restore_on_fail: true,
            },
        );
        steps.push(at_step("AT+SFUN=4", "恢复正常模式", "恢复正常模式失败: ", false));
        let mut msg = chars_of_string(&name);
        let a = chars_of(" 小区锁定已设置 (ARFCN=");
        append_chars(&mut msg, a.as_slice());
        push_dec(&mut msg, arfcn as u64);
        let b = chars_of(", PCI=");
        append_chars(&mut msg, b.as_slice());
        push_dec(&mut msg, pci as u64);
        let c = chars_of(")");
        append_chars(&mut msg, c.as_slice());
        assert(steps_view(steps@) =~= lock_steps(t, arfcn, pci));
        Ok(AtScript { steps, success: string_of(msg.as_slice()) })
    } else {
        steps.push(at_step("AT+SFUN=5", "进入工程模式", "进入工程模式失败: ", false));
        steps.push(
            AtStep {
                command: clear_command_exec(t),
                label: owned_str("清空锁定"),
                fail_prefix: owned_str("清空锁定失败: "),
                restore_on_fail: true,
            },
        );
        steps.push(at_step("AT+SFUN=4", "恢复正常模式", "恢复正常模式失败: ", false));
        let mut msg = chars_of_string(&name);
        let a = chars_of(" 小区锁定已解除");
        append_chars(&mut msg, a.as_slice());
        assert(steps_view(steps@) =~= unlock_steps(t));
        Ok(AtScript { steps, success: string_of(msg.as_slice()) })
    }
}

/// The sequence that clears the locks of both types.
pub fn unlock_all_script() -> (r: AtScript)
    ensures
        steps_view(r.steps@) == unlock_all_steps(),
        r.success@ == "已解除所有小区锁定 (NR + LTE)"@,
{
    let mut steps: Vec<AtStep> = Vec::new();
    steps.push(at_step("AT+SFUN=5", "进入工程模式", "解锁失败: 进入工程模式: ", true));
    steps.push(at_step("AT+SPFORCEFRQ=16,0", "清空 NR 锁定", "解锁失败: 清空 NR 锁定: ", true));
    steps.push(at_step("AT+SPFORCEFRQ=12,0", "清空 LTE 锁定", "解锁失败: 清空 LTE 锁定: ", true));
    steps.push(at_step("AT+SFUN=4", "恢复正常模式", "解锁失败: 恢复正常模式: ", false));
    assert(steps_view(steps@) =~= unlock_all_steps());
    AtScript { steps, success: owned_str("已解除所有小区锁定 (NR + LTE)") }
}

} // verus!
