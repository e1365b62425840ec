//! Tracking of voice calls between the modem's "call added" and "call
//! removed" signals: which direction a new call has, when it counts as
//! answered, and how a finished call is recorded (missed, or with its
//! duration). Calls are keyed by their D-Bus object path.

use vstd::prelude::*;
use crate::text::{chars_of, chars_of_string};
use crate::loader::same_chars;

verus! {

/// A call in progress.
pub struct ActiveCall {
    /// Its row in the call history.
    pub db_id: i64,
    pub phone_number: String,
    /// `incoming` or `outgoing`.
    pub direction: String,
    /// Start time in nanoseconds since 1970 (UTC).
    pub start_nanos: i64,
    /// Start time as RFC 3339 text.
    pub start_time: String,
    pub answered: bool,
}

/// A finished call as recorded and forwarded.
pub struct CallRecord {
    pub id: i64,
    pub phone_number: String,
    /// `incoming`, `outgoing` or `missed`.
    pub direction: String,
    /// Seconds.
    pub duration: i64,
    pub start_time: String,
    pub end_time: Option<String>,
    pub answered: bool,
}

/// The calls in progress, one entry per object path.
pub struct CallTracker {
    pub entries: Vec<(String, ActiveCall)>,
}

/// The call of the first entry with path `p`.
pub open spec fn lookup(entries: Seq<(String, ActiveCall)>, p: Seq<char>) -> Option<ActiveCall>
    decreases entries.len(),
{
    if entries.len() == 0 {
        None
    } else if entries[0].0@ == p {
        Some(entries[0].1)
    } else {
        lookup(entries.drop_first(), p)
    }
}

/// No path occurs twice.
pub open spec fn unique_paths(entries: Seq<(String, ActiveCall)>) -> bool {
    forall|i: int, j: int|
        0 <= i < j < entries.len() ==> #[trigger] entries[i].0@ != #[trigger] entries[j].0@
}

/// A call marked as answered.
pub open spec fn answered_call(c: ActiveCall) -> ActiveCall {
    ActiveCall { answered: true, ..c }
}

proof fn lemma_lookup_index(entries: Seq<(String, ActiveCall)>, k: int)
    requires
        unique_paths(entries),
        0 <= k < entries.len(),
    ensures
        lookup(entries, entries[k].0@) == Some(entries[k].1),
    decreases k,
{
    if k > 0 {
        let t = entries.drop_first();
        assert(unique_paths(t)) by {
            assert forall|i: int, j: int| 0 <= i < j < t.len() implies #[trigger] t[i].0@
                != #[trigger] t[j].0@ by {
                assert(t[i] == entries[i + 1] && t[j] == entries[j + 1]);
            }
        }
        assert(entries[0].0@ != entries[k].0@);
        assert(t[k - 1] == entries[k]);
        lemma_lookup_index(t, k - 1);
    }
}

proof fn lemma_lookup_absent(entries: Seq<(String, ActiveCall)>, p: Seq<char>)
    requires
        forall|i: int| 0 <= i < entries.len() ==> #[trigger] entries[i].0@ != p,
    ensures
        lookup(entries, p) is None,
    decreases entries.len(),
{
    if entries.len() > 0 {
        let t = entries.drop_first();
        assert forall|i: int| 0 <= i < t.len() implies #[trigger] t[i].0@ != p by {
            assert(t[i] == entries[i + 1]);
        }
        lemma_lookup_absent(t, p);
    }
}

proof fn lemma_lookup_found(entries: Seq<(String, ActiveCall)>, p: Seq<char>)
    requires
        unique_paths(entries),
        lookup(entries, p) is Some,
    ensures
        exists|k: int| 0 <= k < entries.len() && entries[k].0@ == p,
    decreases entries.len(),
{
    if entries[0].0@ != p {
        let t = entries.drop_first();
        assert(unique_paths(t)) by {
            assert forall|i: int, j: int| 0 <= i < j < t.len() implies #[trigger] t[i].0@
                != #[trigger] t[j].0@ by {
                assert(t[i] == entries[i + 1] && t[j] == entries[j + 1]);
            }
        }
        lemma_lookup_found(t, p);
        let k = choose|k: int| 0 <= k < t.len() && t[k].0@ == p;
        assert(entries[k + 1] == t[k]);
    }
}

/// Whether a path's entry would be found where: its index, if any.
fn find_path(entries: &Vec<(String, ActiveCall)>, p: &Vec<char>) -> (r: Option<usize>)
    ensures
        match r {
            Some(k) => k < entries@.len() && entries@[k as int].0@ == p@,
            None => forall|i: int| 0 <= i < entries@.len() ==> #[trigger] entries@[i].0@ != p@,
        },
{
    let mut i: usize = 0;
    while i < entries.len()
        invariant
            i <= entries@.len(),
            forall|j: int| 0 <= j < i ==> #[trigger] entries@[j].0@ != p@,
        decreases entries@.len() - i,
    {
        let k = chars_of_string(&entries[i].0);
        if same_chars(k.as_slice(), p.as_slice()) {
            return Some(i);
        }
        i = i + 1;
    }
    None
}

impl CallTracker {
    /// No calls.
    pub fn new() -> (r: Self)
        ensures
            r.entries@.len() == 0,
            unique_paths(r.entries@),
    {
        CallTracker { entries: Vec::new() }
    }

    /// The call at a path.
    pub open spec fn call_at(&self, p: Seq<char>) -> Option<ActiveCall> {
        lookup(self.entries@, p)
    }

    /// Starts tracking a call at `path`, replacing any call tracked there.
    pub fn insert(&mut self, path: String, call: ActiveCall)
        requires
            unique_paths(old(self).entries@),
        ensures
            unique_paths(final(self).entries@),
            forall|p: Seq<char>| #[trigger] final(self).call_at(p) == (if p == path@ {
                Some(call)
            } else {
                old(self).call_at(p)
            }),
    {
        let key = chars_of_string(&path);
        let ghost before = self.entries@;
        let ghost pv = path@;
        match find_path(&self.entries, &key) {
            Some(k) => {
                self.entries.set(k, (path, call));
                proof {
                    let after = self.entries@;
                    assert(unique_paths(after)) by {
                        assert forall|i: int, j: int| 0 <= i < j < after.len() implies #[trigger] after[i].0@
                            != #[trigger] after[j].0@ by {
                            if i != k && j != k {
                                assert(after[i] == before[i] && after[j] == before[j]);
                            } else if i == k {
                                assert(after[j] == before[j]);
                            } else {
                                assert(after[i] == before[i]);
                            }
                        }
                    }
                    assert forall|p: Seq<char>| #[trigger] lookup(after, p) == (if p == pv {
                        Some(call)
                    } else {
                        lookup(before, p)
                    }) by {
                        if p == pv {
                            lemma_lookup_index(after, k as int);
                        } else {
                            let here = exists|m: int| 0 <= m < before.len() && before[m].0@ == p;
                            if here {
                                let m = choose|m: int| 0 <= m < before.len() && before[m].0@ == p;
                                assert(m != k);
                                assert(after[m] == before[m]);
                                lemma_lookup_index(before, m);
                                lemma_lookup_index(after, m);
                            } else {
                                assert forall|i: int| 0 <= i < after.len() implies #[trigger] after[i].0@ != p by {
                                    if i != k {
                                        assert(after[i] == before[i]);
                                    }
                                }
                                lemma_lookup_absent(after, p);
                                if lookup(before, p) is Some {
                                    lemma_lookup_found(before, p);
                                }
                            }
                        }
                    }
                }
            },
            None => {
                self.entries.push((path, call));
                proof {
                    let after = self.entries@;
                    assert(unique_paths(after)) by {
                        assert forall|i: int, j: int| 0 <= i < j < after.len() implies #[trigger] after[i].0@
                            != #[trigger] after[j].0@ by {
                            assert(after[i] == before[i]);
                            if j < before.len() {
                                assert(after[j] == before[j]);
                            }
                        }
                    }
                    assert forall|p: Seq<char>| #[trigger] lookup(after, p) == (if p == pv {
                        Some(call)
                    } else {
                        lookup(before, p)
                    }) by {
                        if p == pv {
                            lemma_lookup_index(after, before.len() as int);
                            lemma_lookup_absent(before, p);
                        } else {
                            let here = exists|m: int| 0 <= m < before.len() && before[m].0@ == p;
                            if here {
                                let m = choose|m: int| 0 <= m < before.len() && before[m].0@ == p;
                                assert(after[m] == before[m]);
                                lemma_lookup_index(before, m);
                                lemma_lookup_index(after, m);
                            } else {
                                assert forall|i: int| 0 <= i < after.len() implies #[trigger] after[i].0@ != p by {
                                    if i < before.len() {
                                        assert(after[i] == before[i]);
                                    }
                                }
                                lemma_lookup_absent(after, p);
                                assert forall|i: int| 0 <= i < before.len() implies #[trigger] before[i].0@ != p by {
                                    assert(after[i] == before[i]);
                                }
                                lemma_lookup_absent(before, p);
                            }
                        }
                    }
                }
            },
        }
    }

    /// Stops tracking the call at `path` and gives it back, if there was one.
    pub fn remove(&mut self, path: &str) -> (r: Option<ActiveCall>)
        requires
            unique_paths(old(self).entries@),
        ensures
            unique_paths(final(self).entries@),
            r == old(self).call_at(path@),
            forall|p: Seq<char>| #[trigger] final(self).call_at(p) == (if p == path@ {
                None
            } else {
                old(self).call_at(p)
            }),
    {
        let key = chars_of(path);
        let ghost before = self.entries@;
        match find_path(&self.entries, &key) {
            Some(k) => {
                let (_, call) = self.entries.remove(k);
                proof {
                    let after = self.entries@;
                    assert(after =~= before.remove(k as int));
                    lemma_lookup_index(before, k as int);
                    assert(unique_paths(after)) by {
                        assert forall|i: int, j: int| 0 <= i < j < after.len() implies #[trigger] after[i].0@
                            != #[trigger] after[j].0@ by {
                            let bi = if i < k { i } else { i + 1 };
                            let bj = if j < k { j } else { j + 1 };
                            assert(after[i] == before[bi] && after[j] == before[bj]);
                        }
                    }
                    assert forall|p: Seq<char>| #[trigger] lookup(after, p) == (if p == path@ {
                        None
                    } else {
                        lookup(before, p)
                    }) by {
                        if p == path@ {
                            assert forall|i: int| 0 <= i < after.len() implies #[trigger] after[i].0@ != p by {
                                let bi = if i < k { i } else { i + 1 };
                                assert(after[i] == before[bi]);
                                assert(bi != k);
                            }
                            lemma_lookup_absent(after, p);
                        } else {
                            let here = exists|m: int| 0 <= m < before.len() && before[m].0@ == p;
                            if here {
                                let m = choose|m: int| 0 <= m < before.len() && before[m].0@ == p;
                                assert(m != k);
                                let am = if m < k { m } else { m - 1 };
                                assert(after[am] == before[m]);
                                lemma_lookup_index(before, m);
                                lemma_lookup_index(after, am);
                            } else {
                                assert forall|i: int| 0 <= i < after.len() implies #[trigger] after[i].0@ != p by {
                                    let bi = if i < k { i } else { i + 1 };
                                    assert(after[i] == before[bi]);
                                }
                                lemma_lookup_absent(after, p);
                                if lookup(before, p) is Some {
                                    lemma_lookup_found(before, p);
                                }
                            }
                        }
                    }
                }
                Some(call)
            },
            None => {
                proof {
                    lemma_lookup_absent(before, path@);
                }
                None
            },
        }
    }

    /// Marks the call at `path` answered, if one is tracked there.
    pub fn mark_answered(&mut self, path: &str)
        requires
            unique_paths(old(self).entries@),
        ensures
            unique_paths(final(self).entries@),
            forall|p: Seq<char>| #[trigger] final(self).call_at(p) == (if p == path@ {
                match old(self).call_at(p) {
                    Some(c) => Some(answered_call(c)),
                    None => None,
                }
            } else {
                old(self).call_at(p)
            }),
    {
        let key = chars_of(path);
        let ghost before = self.entries@;
        match find_path(&self.entries, &key) {
            Some(k) => {
                let (p0, mut c) = self.entries.remove(k);
                c.answered = true;
                self.entries.insert(k, (p0, c));
                proof {
                    let after = self.entries@;
                    assert(after =~= before.update(k as int, (before[k as int].0, answered_call(before[k as int].1))));
                    lemma_lookup_index(before, k as int);
                    assert(unique_paths(after)) by {
                        assert forall|i: int, j: int| 0 <= i < j < after.len() implies #[trigger] after[i].0@
                            != #[trigger] after[j].0@ by {
                            assert(after[i].0 == before[i].0 && after[j].0 == before[j].0);
                        }
                    }
                    assert forall|p: Seq<char>| #[trigger] lookup(after, p) == (if p == path@ {
                        match lookup(before, p) {
                            Some(c) => Some(answered_call(c)),
                            None => None,
                        }
                    } else {
                        lookup(before, p)
                    }) by {
                        if p == path@ {
                            lemma_lookup_index(after, k as int);
                        } else {
                            let here = exists|m: int| 0 <= m < before.len() && before[m].0@ == p;
                            if here {
                                let m = choose|m: int| 0 <= m < before.len() && before[m].0@ == p;
                                assert(m != k);
                                assert(after[m] == before[m]);
                                lemma_lookup_index(before, m);
                                lemma_lookup_index(after, m);
                            } else {
                                assert forall|i: int| 0 <= i < after.len() implies #[trigger] after[i].0@ != p by {
                                    assert(after[i].0 == before[i].0);
                                }
                                lemma_lookup_absent(after, p);
                                if lookup(before, p) is Some {
                                    lemma_lookup_found(before, p);
                                }
                            }
                        }
                    }
                }
            },
            None => {
                proof {
                    lemma_lookup_absent(before, path@);
                }
            },
        }
    }
}

/// Direction of a new call from its state: `incoming` for an incoming or
/// alerting call, `outgoing` otherwise.
pub open spec fn direction_of_state(state: Seq<char>) -> Seq<char> {
    if state == "incoming"@ || state == "alerting"@ {
        "incoming"@
    } else {
        "outgoing"@
    }
}

/// The direction of a new call.
pub fn call_direction(state: &str) -> (r: &'static str)
    ensures
        r@ == direction_of_state(state@),
{
    let s = chars_of(state);
    let a = chars_of("incoming");
    let b = chars_of("alerting");
    if same_chars(s.as_slice(), a.as_slice()) || same_chars(s.as_slice(), b.as_slice()) {
        "incoming"
    } else {
        "outgoing"
    }
}

/// A call in state `active` has been answered.
pub fn state_is_answered(state: &str) -> (r: bool)
    ensures
        r == (state@ == "active"@),
{
    let s = chars_of(state);
    let a = chars_of("active");
    same_chars(s.as_slice(), a.as_slice())
}

/// Whole seconds from `start` to `end` (nanoseconds), rounded toward zero.
pub open spec fn elapsed_seconds(start: i64, end: i64) -> int {
    crate::text::trunc_div(end - start, 1_000_000_000)
}

/// How a finished call is recorded: an unanswered incoming call is missed.
pub open spec fn is_missed(c: ActiveCall) -> bool {
    !c.answered && c.direction@ == "incoming"@
}

/// The history record of a call that ended at `end_nanos` (`end_time` as
/// RFC 3339 text): direction `missed` for a missed call, else its own; the
/// elapsed whole seconds.
pub fn finished_call(call: ActiveCall, end_nanos: i64, end_time: String) -> (r: CallRecord)
    ensures
        r.id == call.db_id,
        r.phone_number@ == call.phone_number@,
        r.direction@ == (if is_missed(call) {
            "missed"@
        } else {
            call.direction@
        }),
        r.duration as int == elapsed_seconds(call.start_nanos, end_nanos),
        r.start_time@ == call.start_time@,
        r.end_time == Some(end_time),
        r.answered == call.answered,
{
    let d = chars_of_string(&call.direction);
    let inc = chars_of("incoming");
    let missed = !call.answered && same_chars(d.as_slice(), inc.as_slice());
    let diff: i128 = (end_nanos as i128) - (call.start_nanos as i128);
    let secs: i128 = if diff >= 0 {
        diff / 1_000_000_000
    } else {
        -((-diff) / 1_000_000_000)
    };
    let direction = if missed {
        "missed".to_owned()
    } else {
        call.direction
    };
    CallRecord {
        id: call.db_id,
        phone_number: call.phone_number,
        direction,
        duration: secs as i64,
        start_time: call.start_time,
        end_time: Some(end_time),
        answered: call.answered,
    }
}

} // verus!
