//! Which mounted file systems are shown as disks, and in what order: virtual
//! file systems and system mount points are left out, each device is shown
//! once at its most important mount point, and the list runs from the most
//! important mount point down, equal ones by mount point.

use vstd::prelude::*;
use vstd::string::*;
use vstd::multiset::*;
use vstd::seq_lib::*;
use crate::text::{chars_of, lines, lines_of, seqs_of, starts_with, starts_with_exec, string_of, words, words_of};
use crate::loader::same_chars;

verus! {

broadcast use group_to_multiset_ensures, group_multiset_axioms, group_multiset_properties;

/// Importance of a mount point, lower first: `/`, `/home`, `/mnt/userdata`,
/// `/var`, `/run`, `/tmp`, then other `/mnt/` points, other `/var/` points,
/// and the rest.
pub open spec fn mount_priority(m: Seq<char>) -> u8 {
    if m == "/"@ {
        0
    } else if m == "/home"@ {
        1
    } else if m == "/mnt/userdata"@ {
        2
    } else if m == "/var"@ {
        3
    } else if m == "/run"@ {
        4
    } else if m == "/tmp"@ {
        5
    } else if starts_with(m, "/mnt/"@) {
        10
    } else if starts_with(m, "/var/"@) {
        15
    } else {
        20
    }
}

/// File system types that hold no disk.
pub open spec fn virtual_fs_names() -> Seq<Seq<char>> {
    seq![
        "proc"@, "sysfs"@, "devtmpfs"@, "devpts"@, "cgroup"@, "cgroup2"@, "pstore"@, "bpf"@,
        "tracefs"@, "debugfs"@, "securityfs"@, "configfs"@, "fusectl"@, "hugetlbfs"@, "mqueue"@,
        "rpc_pipefs"@, "autofs"@, "functionfs"@,
    ]
}

/// Mount points of the system's own file systems.
pub open spec fn system_mount_points() -> Seq<Seq<char>> {
    seq!["/dev"@, "/dev/pts"@, "/sys"@, "/proc"@, "/sys/kernel/config"@, "/dev/usb-ffs/adb"@]
}

/// A disk candidate: device, mount point, file system type, importance.
pub struct MountChoice {
    pub device: String,
    pub mount_point: String,
    pub fs_type: String,
    pub priority: u8,
}

/// A candidate as (device, mount point, file system type, importance).
pub open spec fn choice_view(c: MountChoice) -> (Seq<char>, Seq<char>, Seq<char>, u8) {
    (c.device@, c.mount_point@, c.fs_type@, c.priority)
}

/// The views of candidates.
pub open spec fn choices_view(v: Seq<MountChoice>) -> Seq<(Seq<char>, Seq<char>, Seq<char>, u8)> {
    v.map_values(|c: MountChoice| choice_view(c))
}

/// The candidate a `/proc/mounts` line gives: one with at least three words
/// whose file system is not virtual and whose mount point is not a system one.
pub open spec fn mount_entry(line: Seq<char>) -> Option<(Seq<char>, Seq<char>, Seq<char>, u8)> {
    let w = words(line);
    if w.len() < 3 || virtual_fs_names().contains(w[2]) || system_mount_points().contains(w[1]) {
        None
    } else {
        Some((w[0], w[1], w[2], mount_priority(w[1])))
    }
}

/// Position of the first candidate of device `d`, or -1.
pub open spec fn device_index(cs: Seq<(Seq<char>, Seq<char>, Seq<char>, u8)>, d: Seq<char>) -> int
    decreases cs.len(),
{
    if cs.len() == 0 {
        -1
    } else if cs[0].0 == d {
        0
    } else {
        let r = device_index(cs.drop_first(), d);
        if r < 0 {
            -1
        } else {
            r + 1
        }
    }
}

/// The candidates after reading the lines in order: a new device is added;
/// a device seen before moves to the new mount point only when that one is
/// more important.
pub open spec fn choose_mounts(ls: Seq<Seq<char>>) -> Seq<(Seq<char>, Seq<char>, Seq<char>, u8)>
    decreases ls.len(),
{
    if ls.len() == 0 {
        seq![]
    } else {
        let acc = choose_mounts(ls.drop_last());
        match mount_entry(ls.last()) {
            None => acc,
            Some(e) => {
                let i = device_index(acc, e.0);
                if i < 0 {
                    acc.push(e)
                } else if e.3 < acc[i].3 {
                    acc.update(i, e)
                } else {
                    acc
                }
            },
        }
    }
}

/// `a` comes before `b` in character order (the order of `str` comparison).
pub open spec fn text_lt(a: Seq<char>, b: Seq<char>) -> bool
    decreases a.len(),
{
    if a.len() == 0 {
        b.len() > 0
    } else if b.len() == 0 {
        false
    } else if a[0] != b[0] {
        (a[0] as int) < (b[0] as int)
    } else {
        text_lt(a.drop_first(), b.drop_first())
    }
}

/// Candidate `x` is shown before `y`: more important, or equally important
/// with an earlier mount point.
pub open spec fn choice_lt(x: (Seq<char>, Seq<char>, Seq<char>, u8), y: (Seq<char>, Seq<char>, Seq<char>, u8)) -> bool {
    x.3 < y.3 || (x.3 == y.3 && text_lt(x.1, y.1))
}

/// No candidate comes after one it should precede.
pub open spec fn in_display_order(s: Seq<(Seq<char>, Seq<char>, Seq<char>, u8)>) -> bool {
    forall|i: int, j: int| 0 <= i < j < s.len() ==> !choice_lt(s[j], s[i])
}

proof fn lemma_text_lt_asym(a: Seq<char>, b: Seq<char>)
    ensures
        text_lt(a, b) ==> !text_lt(b, a),
    decreases a.len(),
{
    if a.len() > 0 && b.len() > 0 && a[0] == b[0] {
        lemma_text_lt_asym(a.drop_first(), b.drop_first());
    }
}

/// Not after is transitive for character order.
proof fn lemma_text_le_trans(a: Seq<char>, b: Seq<char>, c: Seq<char>)
    requires
        !text_lt(b, a),
        !text_lt(c, b),
    ensures
        !text_lt(c, a),
    decreases a.len(),
{
    if a.len() > 0 && b.len() > 0 && c.len() > 0 {
        if a[0] == b[0] && b[0] == c[0] {
            lemma_text_le_trans(a.drop_first(), b.drop_first(), c.drop_first());
        }
    }
}

proof fn lemma_choice_le_trans(
    a: (Seq<char>, Seq<char>, Seq<char>, u8),
    b: (Seq<char>, Seq<char>, Seq<char>, u8),
    c: (Seq<char>, Seq<char>, Seq<char>, u8),
)
    requires
        !choice_lt(b, a),
        !choice_lt(c, b),
    ensures
        !choice_lt(c, a),
{
    if a.3 == b.3 && b.3 == c.3 {
        lemma_text_le_trans(a.1, b.1, c.1);
    }
}


/// Whether `a` comes before `b` in character order.
pub fn text_less(a: &[char], b: &[char]) -> (r: bool)
    ensures
        r == text_lt(a@, b@),
{
    let mut i: usize = 0;
    assert(a@.subrange(0, a@.len() as int) =~= a@);
    assert(b@.subrange(0, b@.len() as int) =~= b@);
    loop
        invariant
            i <= a@.len(),
            i <= b@.len(),
            text_lt(a@, b@) == text_lt(a@.subrange(i as int, a@.len() as int), b@.subrange(i as int, b@.len() as int)),
        decreases a@.len() - i,
    {
        let ghost sa = a@.subrange(i as int, a@.len() as int);
        let ghost sb = b@.subrange(i as int, b@.len() as int);
        if i == a.len() {
            return i < b.len();
        }
        if i == b.len() {
            return false;
        }
        assert(sa[0] == a@[i as int] && sb[0] == b@[i as int]);
        if a[i] != b[i] {
            return a[i] < b[i];
        }
        assert(sa.drop_first() =~= a@.subrange(i + 1, a@.len() as int));
        assert(sb.drop_first() =~= b@.subrange(i + 1, b@.len() as int));
        i = i + 1;
    }
}

fn is_text(v: &[char], lit: &str) -> (r: bool)
    ensures
        r == (v@ == lit@),
{
    let l = chars_of(lit);
    same_chars(v, l.as_slice())
}

fn listed(v: &[char], names: &[&str]) -> (r: bool)
    ensures
        r == names@.map_values(|n: &str| n@).contains(v@),
{
    let ghost all = names@.map_values(|n: &str| n@);
    let mut i: usize = 0;
    while i < names.len()
        invariant
            i <= names@.len(),
            all == names@.map_values(|n: &str| n@),
            forall|j: int| 0 <= j < i ==> all[j] != v@,
        decreases names@.len() - i,
    {
        if is_text(v, names[i]) {
            assert(all[i as int] == v@);
            return true;
        }
        i = i + 1;
    }
    false
}

fn virtual_fs(t: &[char]) -> (r: bool)
    ensures
        r == virtual_fs_names().contains(t@),
{
    let names: [&str; 18] = [
        "proc", "sysfs", "devtmpfs", "devpts", "cgroup", "cgroup2", "pstore", "bpf", "tracefs",
        "debugfs", "securityfs", "configfs", "fusectl", "hugetlbfs", "mqueue", "rpc_pipefs",
        "autofs", "functionfs",
    ];
    let r = listed(t, names.as_slice());
    assert(names@.map_values(|n: &str| n@) =~= virtual_fs_names());
    r
}

fn system_mount(m: &[char]) -> (r: bool)
    ensures
        r == system_mount_points().contains(m@),
{
    let names: [&str; 6] = ["/dev", "/dev/pts", "/sys", "/proc", "/sys/kernel/config", "/dev/usb-ffs/adb"];
    let r = listed(m, names.as_slice());
    assert(names@.map_values(|n: &str| n@) =~= system_mount_points());
    r
}

/// The importance of a mount point (see `mount_priority`).
pub fn get_mount_priority(m: &str) -> (r: u8)
    ensures
        r == mount_priority(m@),
{
    let v = chars_of(m);
    priority_of(v.as_slice())
}

fn priority_of(m: &[char]) -> (r: u8)
    ensures
        r == mount_priority(m@),
{
    if is_text(m, "/") {
        0
    } else if is_text(m, "/home") {
        1
    } else if is_text(m, "/mnt/userdata") {
        2
    } else if is_text(m, "/var") {
        3
    } else if is_text(m, "/run") {
        4
    } else if is_text(m, "/tmp") {
        5
    } else if starts_with_exec(m, chars_of("/mnt/").as_slice()) {
        10
    } else if starts_with_exec(m, chars_of("/var/").as_slice()) {
        15
    } else {
        20
    }
}


proof fn lemma_device_index_is(cs: Seq<(Seq<char>, Seq<char>, Seq<char>, u8)>, d: Seq<char>, k: int)
    requires
        0 <= k <= cs.len(),
        k < cs.len() ==> cs[k].0 == d,
        forall|j: int| 0 <= j < k ==> cs[j].0 != d,
    ensures
        device_index(cs, d) == (if k < cs.len() {
            k
        } else {
            -1
        }),
    decreases cs.len(),
{
    if cs.len() > 0 && k > 0 {
        assert forall|j: int| 0 <= j < k - 1 implies cs.drop_first()[j].0 != d by {
            assert(cs.drop_first()[j] == cs[j + 1]);
        }
        lemma_device_index_is(cs.drop_first(), d, k - 1);
    }
}

fn find_device(acc: &Vec<MountChoice>, d: &[char]) -> (r: Option<usize>)
    ensures
        match r {
            Some(i) => i < acc@.len() && device_index(choices_view(acc@), d@) == i as int,
            None => device_index(choices_view(acc@), d@) < 0,
        },
{
    let ghost cs = choices_view(acc@);
    let mut i: usize = 0;
    while i < acc.len()
        invariant
            i <= acc@.len(),
            cs == choices_view(acc@),
            forall|j: int| 0 <= j < i ==> cs[j].0 != d@,
        decreases acc@.len() - i,
    {
        let dv = crate::text::chars_of_string(&acc[i].device);
        if same_chars(dv.as_slice(), d) {
            proof {
                lemma_device_index_is(cs, d@, i as int);
            }
            return Some(i);
        }
        i = i + 1;
    }
    proof {
        lemma_device_index_is(cs, d@, cs.len() as int);
    }
    None
}

proof fn lemma_choice_lt_asym(x: (Seq<char>, Seq<char>, Seq<char>, u8), y: (Seq<char>, Seq<char>, Seq<char>, u8))
    ensures
        choice_lt(x, y) ==> !choice_lt(y, x),
{
    lemma_text_lt_asym(x.1, y.1);
}

/// Inserting an element after every element it does not precede and before
/// one it precedes keeps the display order.
proof fn lemma_insert_in_order(s: Seq<(Seq<char>, Seq<char>, Seq<char>, u8)>, p: int, c: (Seq<char>, Seq<char>, Seq<char>, u8))
    requires
        in_display_order(s),
        0 <= p <= s.len(),
        forall|j: int| 0 <= j < p ==> !choice_lt(c, #[trigger] s[j]),
        p < s.len() ==> choice_lt(c, s[p]),
    ensures
        in_display_order(s.insert(p, c)),
{
    let t = s.insert(p, c);
    assert forall|i: int, j: int| 0 <= i < j < t.len() implies !choice_lt(t[j], t[i]) by {
        if j < p {
            assert(t[i] == s[i] && t[j] == s[j]);
        } else if j == p {
            assert(t[i] == s[i]);
        } else if i > p {
            assert(t[i] == s[i - 1] && t[j] == s[j - 1]);
        } else if i == p {
            assert(t[j] == s[j - 1]);
            lemma_choice_lt_asym(c, s[p]);
            if j - 1 > p {
                assert(!choice_lt(s[j - 1], s[p]));
                lemma_choice_le_trans(c, s[p], s[j - 1]);
            }
        } else {
            assert(t[i] == s[i] && t[j] == s[j - 1]);
        }
    }
}

fn insert_position(out: &Vec<MountChoice>, c: &MountChoice) -> (p: usize)
    ensures
        p <= out@.len(),
        forall|j: int| 0 <= j < p ==> !choice_lt(choice_view(*c), #[trigger] choices_view(out@)[j]),
        p < out@.len() ==> choice_lt(choice_view(*c), choices_view(out@)[p as int]),
{
    let cm = crate::text::chars_of_string(&c.mount_point);
    let mut i: usize = 0;
    while i < out.len()
        invariant
            i <= out@.len(),
            cm@ == c.mount_point@,
            forall|j: int| 0 <= j < i ==> !choice_lt(choice_view(*c), #[trigger] choices_view(out@)[j]),
        decreases out@.len() - i,
    {
        let om = crate::text::chars_of_string(&out[i].mount_point);
        let before = c.priority < out[i].priority || (c.priority == out[i].priority && text_less(
            cm.as_slice(),
            om.as_slice(),
        ));
        assert(choices_view(out@)[i as int] == choice_view(out@[i as int]));
        if before {
            return i;
        }
        i = i + 1;
    }
    i
}

/// The disks to show of a `/proc/mounts` text: the candidates chosen line by
/// line (see `choose_mounts`), in display order. Candidates that no order
/// separates (one mount point of two devices) come in either order.
pub fn select_mounts(mounts: &str) -> (r: Vec<MountChoice>)
    ensures
        in_display_order(choices_view(r@)),
        choices_view(r@).to_multiset() == choose_mounts(lines(mounts@)).to_multiset(),
{
    let text = chars_of(mounts);
    let ls = lines_of(text.as_slice());
    let ghost all = seqs_of(ls@);
    let mut acc: Vec<MountChoice> = Vec::new();
    let mut i: usize = 0;
    assert(choices_view(acc@) =~= choose_mounts(all.subrange(0, 0)));
    while i < ls.len()
        invariant
            i <= ls@.len(),
            all == seqs_of(ls@),
            all == lines(mounts@),
            choices_view(acc@) == choose_mounts(all.subrange(0, i as int)),
        decreases ls@.len() - i,
    {
        proof {
            assert(all.subrange(0, i + 1).drop_last() =~= all.subrange(0, i as int));
            assert(all.subrange(0, i + 1).last() == ls@[i as int]@);
        }
        let ws = words_of(ls[i].as_slice());
        let ghost wv = seqs_of(ws@);
        if ws.len() >= 3 {
            assert(wv[1] == ws@[1]@ && wv[2] == ws@[2]@ && wv[0] == ws@[0]@);
        }
        if ws.len() >= 3 && !virtual_fs(ws[2].as_slice()) && !system_mount(ws[1].as_slice()) {
            let prio = priority_of(ws[1].as_slice());
            let e = MountChoice {
                device: string_of(ws[0].as_slice()),
                mount_point: string_of(ws[1].as_slice()),
                fs_type: string_of(ws[2].as_slice()),
                priority: prio,
            };
            let ghost ev = choice_view(e);
            let ghost before = choices_view(acc@);
            match find_device(&acc, ws[0].as_slice()) {
                None => {
                    acc.push(e);
                    assert(choices_view(acc@) =~= before.push(ev));
                },
                Some(k) => {
                    if prio < acc[k].priority {
                        acc.set(k, e);
                        assert(choices_view(acc@) =~= before.update(k as int, ev));
                    }
                },
            }
        }
        i = i + 1;
    }
    assert(all.subrange(0, all.len() as int) =~= all);
    let ghost chosen = choices_view(acc@);
    let mut out: Vec<MountChoice> = Vec::new();
    assert(choices_view(out@) =~= Seq::<(Seq<char>, Seq<char>, Seq<char>, u8)>::empty());
    assert(choices_view(out@).to_multiset().add(choices_view(acc@).to_multiset()) =~= chosen.to_multiset());
    while acc.len() > 0
        invariant
            in_display_order(choices_view(out@)),
            choices_view(out@).to_multiset().add(choices_view(acc@).to_multiset())
                == chosen.to_multiset(),
        decreases acc@.len(),
    {
        let ghost acc_before = choices_view(acc@);
        let ghost out_before = choices_view(out@);
        let c = match acc.pop() {
            Some(c) => c,
            None => {
                return out;
            },
        };
        let ghost cv = choice_view(c);
        assert(acc_before =~= choices_view(acc@).push(cv));
        let p = insert_position(&out, &c);
        proof {
            lemma_insert_in_order(out_before, p as int, cv);
        }
        out.insert(p, c);
        assert(choices_view(out@) =~= out_before.insert(p as int, cv));
        assert(choices_view(out@).to_multiset().add(choices_view(acc@).to_multiset()) =~= chosen.to_multiset());
    }
    assert(choices_view(acc@) =~= Seq::<(Seq<char>, Seq<char>, Seq<char>, u8)>::empty());
    assert(choices_view(out@).to_multiset() =~= chosen.to_multiset());
    out
}


proof fn lemma_device_index(cs: Seq<(Seq<char>, Seq<char>, Seq<char>, u8)>, d: Seq<char>)
    ensures
        -1 <= device_index(cs, d) < cs.len(),
        device_index(cs, d) >= 0 ==> cs[device_index(cs, d)].0 == d,
        device_index(cs, d) < 0 ==> forall|k: int| 0 <= k < cs.len() ==> cs[k].0 != d,
    decreases cs.len(),
{
    if cs.len() > 0 && cs[0].0 != d {
        lemma_device_index(cs.drop_first(), d);
        if device_index(cs, d) < 0 {
            assert forall|k: int| 0 <= k < cs.len() implies cs[k].0 != d by {
                if k > 0 {
                    assert(cs[k] == cs.drop_first()[k - 1]);
                }
            }
        }
    }
}

/// Each device is shown once, at a mount point at least as important as any
/// other of its mount points that the lines name.
pub proof fn lemma_one_mount_per_device(ls: Seq<Seq<char>>)
    ensures
        forall|i: int, j: int|
            0 <= i < j < choose_mounts(ls).len() ==> choose_mounts(ls)[i].0 != choose_mounts(ls)[j].0,
        forall|k: int|
            0 <= k < ls.len() && mount_entry(#[trigger] ls[k]) is Some ==> exists|i: int|
                0 <= i < choose_mounts(ls).len() && choose_mounts(ls)[i].0 == mount_entry(ls[k]).unwrap().0
                    && choose_mounts(ls)[i].3 <= mount_entry(ls[k]).unwrap().3,
    decreases ls.len(),
{
    if ls.len() > 0 {
        let prev = ls.drop_last();
        lemma_one_mount_per_device(prev);
        let acc = choose_mounts(prev);
        let out = choose_mounts(ls);
        match mount_entry(ls.last()) {
            None => {
                assert forall|k: int|
                    0 <= k < ls.len() && mount_entry(#[trigger] ls[k]) is Some implies exists|i: int|
                        0 <= i < out.len() && out[i].0 == mount_entry(ls[k]).unwrap().0 && out[i].3
                            <= mount_entry(ls[k]).unwrap().3 by {
                    assert(ls[k] == prev[k]);
                }
            },
            Some(e) => {
                lemma_device_index(acc, e.0);
                let x = device_index(acc, e.0);
                assert forall|k: int|
                    0 <= k < ls.len() && mount_entry(#[trigger] ls[k]) is Some implies exists|i: int|
                        0 <= i < out.len() && out[i].0 == mount_entry(ls[k]).unwrap().0 && out[i].3
                            <= mount_entry(ls[k]).unwrap().3 by {
                    if k == ls.len() - 1 {
                        if x < 0 {
                            assert(out[acc.len() as int] == e);
                        } else {
                            assert(out[x].0 == e.0);
                        }
                    } else {
                        assert(ls[k] == prev[k]);
                        let f = mount_entry(ls[k]).unwrap();
                        let i = choose|i: int| 0 <= i < acc.len() && acc[i].0 == f.0 && acc[i].3 <= f.3;
                        if x >= 0 && i == x && e.3 < acc[x].3 {
                            assert(out[i] == e);
                        } else {
                            assert(out[i] == acc[i]);
                        }
                    }
                }
                assert forall|i: int, j: int| 0 <= i < j < out.len() implies out[i].0 != out[j].0 by {
                    if x < 0 && j == acc.len() {
                        assert(out[i] == acc[i]);
                    } else if x >= 0 && e.3 < acc[x].3 {
                        if i == x {
                            assert(out[j] == acc[j]);
                        } else if j == x {
                            assert(out[i] == acc[i]);
                        } else {
                            assert(out[i] == acc[i] && out[j] == acc[j]);
                        }
                    } else {
                        assert(out[i] == acc[i] && out[j] == acc[j]);
                    }
                }
            },
        }
    }
}

/// The texts of a list of strings.
pub open spec fn texts_view(v: Seq<String>) -> Seq<Seq<char>> {
    v.map_values(|s: String| s@)
}

/// No text comes after one it precedes in character order.
pub open spec fn texts_sorted(s: Seq<Seq<char>>) -> bool {
    forall|i: int, j: int| 0 <= i < j < s.len() ==> !text_lt(s[j], s[i])
}

proof fn lemma_insert_text_sorted(s: Seq<Seq<char>>, p: int, c: Seq<char>)
    requires
        texts_sorted(s),
        0 <= p <= s.len(),
        forall|j: int| 0 <= j < p ==> !text_lt(c, #[trigger] s[j]),
        p < s.len() ==> text_lt(c, s[p]),
    ensures
        texts_sorted(s.insert(p, c)),
{
    let t = s.insert(p, c);
    assert forall|i: int, j: int| 0 <= i < j < t.len() implies !text_lt(t[j], t[i]) by {
        if j < p {
            assert(t[i] == s[i] && t[j] == s[j]);
        } else if j == p {
            assert(t[i] == s[i]);
        } else if i > p {
            assert(t[i] == s[i - 1] && t[j] == s[j - 1]);
        } else if i == p {
            assert(t[j] == s[j - 1]);
            lemma_text_lt_asym(c, s[p]);
            if j - 1 > p {
                assert(!text_lt(s[j - 1], s[p]));
                lemma_text_le_trans(c, s[p], s[j - 1]);
            }
        } else {
            assert(t[i] == s[i] && t[j] == s[j - 1]);
        }
    }
}

fn text_position(out: &Vec<String>, c: &String) -> (p: usize)
    ensures
        p <= out@.len(),
        forall|j: int| 0 <= j < p ==> !text_lt(c@, #[trigger] texts_view(out@)[j]),
        p < out@.len() ==> text_lt(c@, texts_view(out@)[p as int]),
{
    let cv = crate::text::chars_of_string(c);
    let mut i: usize = 0;
    while i < out.len()
        invariant
            i <= out@.len(),
            cv@ == c@,
            forall|j: int| 0 <= j < i ==> !text_lt(c@, #[trigger] texts_view(out@)[j]),
        decreases out@.len() - i,
    {
        let ov = crate::text::chars_of_string(&out[i]);
        assert(texts_view(out@)[i as int] == out@[i as int]@);
        if text_less(cv.as_slice(), ov.as_slice()) {
            return i;
        }
        i = i + 1;
    }
    i
}

/// The strings in character order (the order `str` comparison gives),
/// equal strings kept.
pub fn sort_texts(names: Vec<String>) -> (r: Vec<String>)
    ensures
        texts_sorted(texts_view(r@)),
        texts_view(r@).to_multiset() == texts_view(names@).to_multiset(),
{
    let ghost all = texts_view(names@);
    let mut rest = names;
    let mut out: Vec<String> = Vec::new();
    assert(texts_view(out@).to_multiset().add(texts_view(rest@).to_multiset()) =~= all.to_multiset());
    while rest.len() > 0
        invariant
            texts_sorted(texts_view(out@)),
            texts_view(out@).to_multiset().add(texts_view(rest@).to_multiset()) == all.to_multiset(),
        decreases rest@.len(),
    {
        let ghost rest_before = texts_view(rest@);
        let ghost out_before = texts_view(out@);
        let c = match rest.pop() {
            Some(c) => c,
            None => {
                return out;
            },
        };
        assert(rest_before =~= texts_view(rest@).push(c@));
        let p = text_position(&out, &c);
        proof {
            lemma_insert_text_sorted(out_before, p as int, c@);
        }
        out.insert(p, c);
        assert(texts_view(out@) =~= out_before.insert(p as int, c@));
        assert(texts_view(out@).to_multiset().add(texts_view(rest@).to_multiset()) =~= all.to_multiset());
    }
    assert(texts_view(rest@) =~= Seq::<Seq<char>>::empty());
    assert(texts_view(out@).to_multiset() =~= all.to_multiset());
    out
}

/// Sizes in bytes of a file system from its statistics (fragment size and
/// block counts): total, used (total less free, 0 when free is larger) and
/// available; `None` for a file system under 1 MiB.
pub open spec fn disk_sizes(frsize: u64, blocks: u64, bfree: u64, bavail: u64) -> Option<(int, int, int)> {
    let total = blocks * frsize;
    let free = bfree * frsize;
    if total < 1024 * 1024 {
        None
    } else {
        Some((total, if free > total { 0 } else { total - free }, bavail * frsize))
    }
}

/// The sizes of a file system (see `disk_sizes`); the byte counts must fit
/// in 64 bits.
pub fn disk_usage(frsize: u64, blocks: u64, bfree: u64, bavail: u64) -> (r: Option<(u64, u64, u64)>)
    requires
        blocks * frsize <= u64::MAX,
        bfree * frsize <= u64::MAX,
        bavail * frsize <= u64::MAX,
    ensures
        match disk_sizes(frsize, blocks, bfree, bavail) {
            Some((t, u, a)) => r == Some((t as u64, u as u64, a as u64)),
            None => r is None,
        },
{
    let total = blocks * frsize;
    let free = bfree * frsize;
    let available = bavail * frsize;
    if total < 1024 * 1024 {
        return None;
    }
    let used = if free > total {
        0
    } else {
        total - free
    };
    Some((total, used, available))
}

} // verus!
