//! GPU performance-counter bookkeeping: the LUID-derived instance-name
//! pattern of each physical GPU, and the per-tick reconciliation of the
//! known counter set against a fresh enumeration.
//!
//! Engine counters appear and disappear as workloads start and stop, so the
//! set must be re-derived every tick: counters no longer enumerated are
//! released, newly enumerated ones are added, and a fresh data collection is
//! requested whenever something was added so new counters have a valid first
//! sample.

use vstd::prelude::*;

use crate::resolver::repeat_char;
use crate::text::{char_seqs, chars_eq, contains_seq, contains_sub, subvec};

verus! {

// ---------------------------------------------------------------------------
// LUID instance-name patterns
// ---------------------------------------------------------------------------
/// The character for one hexadecimal digit, upper case.
pub open spec fn hex_char(d: nat) -> char {
    if d == 0 {
        '0'
    } else if d == 1 {
        '1'
    } else if d == 2 {
        '2'
    } else if d == 3 {
        '3'
    } else if d == 4 {
        '4'
    } else if d == 5 {
        '5'
    } else if d == 6 {
        '6'
    } else if d == 7 {
        '7'
    } else if d == 8 {
        '8'
    } else if d == 9 {
        '9'
    } else if d == 10 {
        'A'
    } else if d == 11 {
        'B'
    } else if d == 12 {
        'C'
    } else if d == 13 {
        'D'
    } else if d == 14 {
        'E'
    } else {
        'F'
    }
}

/// The hexadecimal rendering of `n`, upper case, most significant digit
/// first, no leading zeros.
pub open spec fn hex_str(n: nat) -> Seq<char>
    decreases n,
{
    if n < 16 {
        seq![hex_char(n)]
    } else {
        hex_str(n / 16).push(hex_char(n % 16))
    }
}

/// The hexadecimal rendering padded on the left with zeros to at least
/// eight digits.
pub open spec fn hex_pad8(n: nat) -> Seq<char> {
    if hex_str(n).len() >= 8 {
        hex_str(n)
    } else {
        repeat_char('0', (8 - hex_str(n).len()) as nat) + hex_str(n)
    }
}

/// The fixed head of every instance-name pattern.
pub open spec fn luid_prefix() -> Seq<char> {
    seq![
        '_', 'l', 'u', 'i', 'd', '_', '0', 'x', '0', '0', '0', '0', '0', '0', '0', '0', '_', '0',
        'x',
    ]
}

/// The substring that marks a counter instance as belonging to the adapter
/// with the given LUID value.
pub open spec fn luid_pattern_spec(luid: nat) -> Seq<char> {
    luid_prefix() + hex_pad8(luid) + seq!['_']
}

/// The hexadecimal rendering of `v`.
fn u64_to_hex(v: u64) -> (r: Vec<char>)
    ensures
        r@ == hex_str(v as nat),
{
    let mut out: Vec<char> = Vec::new();
    let mut m: u64 = v;
    if m == 0 {
        out.push('0');
        assert(out@ =~= hex_str(0));
        return out;
    }
    while m > 0
        invariant
            m > 0 ==> hex_str(v as nat) =~= hex_str(m as nat) + out@,
            m == 0 ==> hex_str(v as nat) =~= out@,
        decreases m,
    {
        let d = m % 16;
        let c = if d == 0 {
            '0'
        } else if d == 1 {
            '1'
        } else if d == 2 {
            '2'
        } else if d == 3 {
            '3'
        } else if d == 4 {
            '4'
        } else if d == 5 {
            '5'
        } else if d == 6 {
            '6'
        } else if d == 7 {
            '7'
        } else if d == 8 {
            '8'
        } else if d == 9 {
            '9'
        } else if d == 10 {
            'A'
        } else if d == 11 {
            'B'
        } else if d == 12 {
            'C'
        } else if d == 13 {
            'D'
        } else if d == 14 {
            'E'
        } else {
            'F'
        };
        assert(c == hex_char((m % 16) as nat));
        let ghost old_m = m as nat;
        let ghost old_out = out@;
        out.insert(0, c);
        m = m / 16;
        proof {
            if old_m < 16 {
                assert(hex_str(old_m) =~= seq![hex_char(old_m)]);
                assert(seq![hex_char(old_m)] + old_out =~= out@);
            } else {
                assert(hex_str(old_m) =~= hex_str(old_m / 16) + seq![hex_char(old_m % 16)]);
                assert(hex_str(old_m) + old_out =~= hex_str(old_m / 16) + out@);
            }
        }
    }
    out
}

/// The instance-name pattern of the adapter with LUID value `luid`: the
/// fixed head, the LUID in eight-or-more upper-case hex digits, and a
/// trailing underscore.
pub fn luid_pattern(luid: u64) -> (r: Vec<char>)
    ensures
        r@ == luid_pattern_spec(luid as nat),
{
    let mut out: Vec<char> = Vec::new();
    out.push('_');
    out.push('l');
    out.push('u');
    out.push('i');
    out.push('d');
    out.push('_');
    out.push('0');
    out.push('x');
    out.push('0');
    out.push('0');
    out.push('0');
    out.push('0');
    out.push('0');
    out.push('0');
    out.push('0');
    out.push('0');
    out.push('_');
    out.push('0');
    out.push('x');
    assert(out@ =~= luid_prefix());
    let mut h = u64_to_hex(luid);
    let ghost h0 = h@;
    if h.len() < 8 {
        proof {
            assert(h@ =~= repeat_char('0', 0) + h0);
        }
        while h.len() < 8
            invariant
                h0.len() < 8,
                h0.len() <= h@.len() <= 8,
                h@ =~= repeat_char('0', (h@.len() - h0.len()) as nat) + h0,
            decreases 8 - h@.len(),
        {
            let ghost m = (h@.len() - h0.len()) as nat;
            h.insert(0, '0');
            proof {
                assert(h@ =~= repeat_char('0', (m + 1) as nat) + h0);
            }
        }
    }
    assert(h@ =~= hex_pad8(luid as nat));
    crate::text::append_chars(&mut out, &h);
    out.push('_');
    proof {
        assert(out@ =~= luid_pattern_spec(luid as nat));
    }
    out
}

// ---------------------------------------------------------------------------
// Counter-set reconciliation
// ---------------------------------------------------------------------------
/// One known engine-utilization counter: its instance name and the GPU
/// index its readings are attributed to.
pub struct GpuCounter {
    pub name: Vec<char>,
    pub gpu_index: usize,
}

/// Some counter in the list carries this instance name.
pub open spec fn has_name(s: Seq<GpuCounter>, n: Seq<char>) -> bool {
    exists|i: int| 0 <= i < s.len() && s[i].name@ == n
}

/// No two counters in the list share an instance name.
pub open spec fn names_unique(s: Seq<GpuCounter>) -> bool {
    forall|i: int, j: int| 0 <= i < j < s.len() ==> s[i].name@ != s[j].name@
}

/// The list of names holds this name.
pub open spec fn seq_has_name(ns: Seq<Seq<char>>, n: Seq<char>) -> bool {
    exists|i: int| 0 <= i < ns.len() && ns[i] == n
}

/// The first GPU whose LUID pattern occurs inside the instance name, or the
/// number of GPUs if none does.
pub open spec fn first_gpu_match(name: Seq<char>, luids: Seq<Seq<char>>, from: int) -> int
    decreases luids.len() - from,
{
    if !(0 <= from < luids.len()) {
        luids.len() as int
    } else if contains_seq(name, luids[from]) {
        from
    } else {
        first_gpu_match(name, luids, from + 1)
    }
}

/// The instance name belongs to some GPU.
pub open spec fn matches_some(name: Seq<char>, luids: Seq<Seq<char>>) -> bool {
    first_gpu_match(name, luids, 0) < luids.len()
}

/// Finds the first GPU whose LUID pattern occurs inside the instance name.
fn first_gpu_match_exec(name: &Vec<char>, luids: &Vec<Vec<char>>) -> (r: usize)
    ensures
        r == first_gpu_match(name@, char_seqs(luids@), 0),
{
    let ghost lv = char_seqs(luids@);
    let mut i: usize = 0;
    while i < luids.len()
        invariant
            lv == char_seqs(luids@),
            i <= luids@.len(),
            lv.len() == luids@.len(),
            first_gpu_match(name@, lv, 0) == first_gpu_match(name@, lv, i as int),
        decreases luids@.len() - i,
    {
        if contains_sub(name, &luids[i]) {
            return i;
        }
        i += 1;
    }
    luids.len()
}

/// Finds a counter by instance name.
fn find_by_name(v: &Vec<GpuCounter>, n: &Vec<char>) -> (r: Option<usize>)
    ensures
        match r {
            Some(j) => j < v@.len() && v@[j as int].name@ == n@,
            None => !has_name(v@, n@),
        },
{
    let mut i: usize = 0;
    while i < v.len()
        invariant
            i <= v@.len(),
            forall|k: int| 0 <= k < i ==> v@[k].name@ != n@,
        decreases v@.len() - i,
    {
        if chars_eq(&v[i].name, n) {
            return Some(i);
        }
        i += 1;
    }
    None
}

/// Every entry of `part` occurs, with the same name and GPU attribution, in
/// `whole`.
pub open spec fn entries_from(part: Seq<GpuCounter>, whole: Seq<GpuCounter>) -> bool {
    forall|w: int|
        0 <= w < part.len() ==> exists|j: int|
            0 <= j < whole.len() && whole[j].name@ == #[trigger] part[w].name@ && whole[j].gpu_index
                == part[w].gpu_index
}

/// What one reconciliation decides: the new known set, the counters to
/// open (with a fresh collection when any exist), and the counters to
/// release.
pub struct ReconcileOutcome {
    /// The counters known from now on.
    pub counters: Vec<GpuCounter>,
    /// The newly seen counters, to be opened before the next read.
    pub added: Vec<GpuCounter>,
    /// The stale counters, to be released.
    pub removed: Vec<GpuCounter>,
    /// Whether a fresh data collection must be issued so added counters
    /// have a valid first sample.
    pub recollect: bool,
}

/// Reconciles the known counter set against this tick's enumeration.
///
/// A name stays or enters exactly when it is enumerated and belongs to some
/// GPU; an entry that stays keeps its GPU attribution, a new entry is
/// attributed to the first GPU whose pattern matches; everything else is
/// removed; and a collection is requested exactly when something was added.
pub fn reconcile_counters(
    known: &Vec<GpuCounter>,
    enumerated: &Vec<Vec<char>>,
    luids: &Vec<Vec<char>>,
) -> (r: ReconcileOutcome)
    requires
        names_unique(known@),
    ensures
        names_unique(r.counters@),
        forall|n: Seq<char>|
            #[trigger] has_name(r.counters@, n) <==> (seq_has_name(char_seqs(enumerated@), n)
                && matches_some(n, char_seqs(luids@))),
        forall|j: int, k: int|
            0 <= j < r.counters@.len() && 0 <= k < known@.len() && r.counters@[j].name@
                == known@[k].name@ ==> r.counters@[j].gpu_index == known@[k].gpu_index,
        forall|j: int|
            0 <= j < r.counters@.len() && !has_name(known@, r.counters@[j].name@)
                ==> r.counters@[j].gpu_index as int == first_gpu_match(
                r.counters@[j].name@,
                char_seqs(luids@),
                0,
            ),
        forall|n: Seq<char>|
            #[trigger] has_name(r.added@, n) <==> (has_name(r.counters@, n) && !has_name(
                known@,
                n,
            )),
        forall|j: int, k: int|
            0 <= j < r.added@.len() && 0 <= k < r.counters@.len() && r.added@[j].name@
                == r.counters@[k].name@ ==> r.added@[j].gpu_index == r.counters@[k].gpu_index,
        forall|n: Seq<char>|
            #[trigger] has_name(r.removed@, n) <==> (has_name(known@, n) && !has_name(
                r.counters@,
                n,
            )),
        names_unique(r.added@),
        names_unique(r.removed@),
        entries_from(r.removed@, known@),
        r.recollect == (r.added@.len() > 0),
{
    let ghost ev = char_seqs(enumerated@);
    let ghost lv = char_seqs(luids@);
    let mut counters: Vec<GpuCounter> = Vec::new();
    let mut added: Vec<GpuCounter> = Vec::new();
    let mut i: usize = 0;
    while i < enumerated.len()
        invariant
            names_unique(known@),
            ev == char_seqs(enumerated@),
            lv == char_seqs(luids@),
            i <= enumerated@.len(),
            ev.len() == enumerated@.len(),
            names_unique(counters@),
            forall|n: Seq<char>|
                #[trigger] has_name(counters@, n) <==> (exists|j: int|
                    0 <= j < i && ev[j] == n) && matches_some(n, lv),
            forall|j: int, k: int|
                0 <= j < counters@.len() && 0 <= k < known@.len() && counters@[j].name@
                    == known@[k].name@ ==> counters@[j].gpu_index == known@[k].gpu_index,
            forall|j: int|
                0 <= j < counters@.len() && !has_name(known@, counters@[j].name@)
                    ==> counters@[j].gpu_index as int == first_gpu_match(
                    counters@[j].name@,
                    lv,
                    0,
                ),
            forall|n: Seq<char>|
                #[trigger] has_name(added@, n) <==> (has_name(counters@, n) && !has_name(
                    known@,
                    n,
                )),
            forall|j: int, k: int|
                0 <= j < added@.len() && 0 <= k < counters@.len() && added@[j].name@
                    == counters@[k].name@ ==> added@[j].gpu_index == counters@[k].gpu_index,
            names_unique(added@),
            added@.len() <= counters@.len(),
        decreases enumerated@.len() - i,
    {
        let name = &enumerated[i];
        let ghost n = name@;
        let ghost counters0 = counters@;
        let ghost added0 = added@;
        assert(ev[i as int] == n);
        let g = first_gpu_match_exec(name, luids);
        if g < luids.len() {
            assert(matches_some(n, lv));
            match find_by_name(&counters, name) {
                Some(_) => {
                    // Seen twice in one enumeration: already handled.
                    assert(has_name(counters@, n));
                },
                None => {
                    assert(!has_name(counters0, n));
                    match find_by_name(known, name) {
                        Some(t) => {
                            let entry = GpuCounter {
                                name: subvec(&known[t].name, 0, known[t].name.len()),
                                gpu_index: known[t].gpu_index,
                            };
                            assert(entry.name@ =~= n);
                            proof {
                                assert(has_name(known@, n));
                            }
                            counters.push(entry);
                            proof {
                                assert forall|j: int, k: int|
                                    0 <= j < counters@.len() && 0 <= k < known@.len()
                                        && counters@[j].name@ == known@[k].name@ implies counters@[
                                    j
                                ].gpu_index == known@[k].gpu_index by {
                                    if j == counters@.len() - 1 {
                                        if k != t as int {
                                            assert(known@[k].name@ != known@[t as int].name@);
                                        }
                                    } else {
                                        assert(counters@[j] == counters0[j]);
                                    }
                                }
                                assert forall|j: int, k: int|
                                    0 <= j < added@.len() && 0 <= k < counters@.len()
                                        && added@[j].name@ == counters@[k].name@ implies added@[
                                    j
                                ].gpu_index == counters@[k].gpu_index by {
                                    if k == counters@.len() - 1 {
                                        assert(added@[j] == added0[j]);
                                        assert(has_name(added0, n));
                                        assert(has_name(known@, n));
                                        assert(false);
                                    } else {
                                        assert(counters@[k] == counters0[k]);
                                    }
                                }
                            }
                        },
                        None => {
                            assert(!has_name(known@, n));
                            let entry = GpuCounter {
                                name: subvec(name, 0, name.len()),
                                gpu_index: g,
                            };
                            assert(entry.name@ =~= n);
                            let entry2 = GpuCounter {
                                name: subvec(name, 0, name.len()),
                                gpu_index: g,
                            };
                            assert(entry2.name@ =~= n);
                            proof {
                                if has_name(added@, n) {
                                    assert(has_name(counters@, n));
                                }
                                assert(!has_name(added@, n));
                            }
                            counters.push(entry);
                            added.push(entry2);
                            proof {
                                assert forall|j: int, k: int|
                                    0 <= j < counters@.len() && 0 <= k < known@.len()
                                        && counters@[j].name@ == known@[k].name@ implies counters@[
                                    j
                                ].gpu_index == known@[k].gpu_index by {
                                    if j == counters@.len() - 1 {
                                        assert(has_name(known@, n));
                                        assert(false);
                                    } else {
                                        assert(counters@[j] == counters0[j]);
                                    }
                                }
                                assert forall|j: int, k: int|
                                    0 <= j < added@.len() && 0 <= k < counters@.len()
                                        && added@[j].name@ == counters@[k].name@ implies added@[
                                    j
                                ].gpu_index == counters@[k].gpu_index by {
                                    if j == added@.len() - 1 {
                                        if k < counters@.len() - 1 {
                                            assert(counters@[k] == counters0[k]);
                                            assert(has_name(counters0, n));
                                            assert(false);
                                        }
                                    } else {
                                        assert(added@[j] == added0[j]);
                                        if k == counters@.len() - 1 {
                                            assert(has_name(added0, n));
                                            assert(has_name(counters0, n));
                                            assert(false);
                                        } else {
                                            assert(counters@[k] == counters0[k]);
                                        }
                                    }
                                }
                            }
                        },
                    }
                },
            }
        } else {
            assert(!matches_some(n, lv));
        }
        i += 1;
        proof {
            let inew = i as int;
            // Membership, forward: every tracked name was enumerated and
            // matches.
            assert forall|m: Seq<char>| #[trigger] has_name(counters@, m) implies ((exists|j: int|
                0 <= j < inew && ev[j] == m) && matches_some(m, lv)) by {
                let w = choose|w: int| 0 <= w < counters@.len() && counters@[w].name@ == m;
                if w < counters0.len() {
                    assert(counters@[w] == counters0[w]);
                    assert(has_name(counters0, m));
                    let j = choose|j: int| 0 <= j < inew - 1 && ev[j] == m;
                    assert(0 <= j < inew && ev[j] == m);
                } else {
                    assert(m == n);
                    assert(ev[inew - 1] == m);
                }
            }
            // Membership, backward: every enumerated, matching name is
            // tracked.
            assert forall|m: Seq<char>|
                ((exists|j: int| 0 <= j < inew && ev[j] == m) && matches_some(m, lv)) implies
                #[trigger] has_name(counters@, m) by {
                let j = choose|j: int| 0 <= j < inew && ev[j] == m;
                if j < inew - 1 {
                    assert(has_name(counters0, m));
                    let w = choose|w: int|
                        0 <= w < counters0.len() && counters0[w].name@ == m;
                    assert(counters@[w].name@ == m);
                } else {
                    assert(m == n);
                    if counters@.len() > counters0.len() {
                        assert(counters@[counters@.len() - 1].name@ == n);
                    }
                }
            }
            // The added list stays exactly the tracked names absent from the
            // known set.
            assert forall|m: Seq<char>| #[trigger] has_name(added@, m) implies (has_name(
                counters@,
                m,
            ) && !has_name(known@, m)) by {
                let w = choose|w: int| 0 <= w < added@.len() && added@[w].name@ == m;
                if w < added0.len() {
                    assert(added@[w] == added0[w]);
                    assert(has_name(added0, m));
                    let v = choose|v: int|
                        0 <= v < counters0.len() && counters0[v].name@ == m;
                    assert(counters@[v].name@ == m);
                } else {
                    assert(m == n);
                    assert(counters@[counters@.len() - 1].name@ == n);
                }
            }
            assert forall|m: Seq<char>|
                (has_name(counters@, m) && !has_name(known@, m)) implies #[trigger] has_name(
                added@,
                m,
            ) by {
                let w = choose|w: int| 0 <= w < counters@.len() && counters@[w].name@ == m;
                if w < counters0.len() {
                    assert(counters@[w] == counters0[w]);
                    assert(has_name(counters0, m));
                    assert(has_name(added0, m));
                    let v = choose|v: int| 0 <= v < added0.len() && added0[v].name@ == m;
                    assert(added@[v].name@ == m);
                } else {
                    assert(m == n);
                    assert(added@[added@.len() - 1].name@ == n);
                }
            }
        }
    }
    let mut removed: Vec<GpuCounter> = Vec::new();
    let mut t: usize = 0;
    while t < known.len()
        invariant
            names_unique(known@),
            t <= known@.len(),
            forall|n: Seq<char>|
                #[trigger] has_name(removed@, n) <==> ((exists|j: int|
                    0 <= j < t && known@[j].name@ == n) && !has_name(counters@, n)),
            names_unique(removed@),
            entries_from(removed@, known@),
        decreases known@.len() - t,
    {
        let ghost n = known@[t as int].name@;
        let ghost removed0 = removed@;
        match find_by_name(&counters, &known[t].name) {
            Some(_) => {
                assert(has_name(counters@, n));
            },
            None => {
                let entry = GpuCounter {
                    name: subvec(&known[t].name, 0, known[t].name.len()),
                    gpu_index: known[t].gpu_index,
                };
                assert(entry.name@ =~= n);
                proof {
                    if has_name(removed@, n) {
                        let j = choose|j: int| 0 <= j < t && known@[j].name@ == n;
                        assert(known@[j].name@ == known@[t as int].name@);
                        assert(false);
                    }
                }
                removed.push(entry);
                proof {
                    assert forall|w: int| 0 <= w < removed@.len() implies exists|j: int|
                        0 <= j < known@.len() && known@[j].name@ == #[trigger] removed@[w].name@
                            && known@[j].gpu_index == removed@[w].gpu_index by {
                        if w < removed0.len() {
                            assert(removed@[w] == removed0[w]);
                            assert(entries_from(removed0, known@));
                            let j = choose|j: int|
                                0 <= j < known@.len() && known@[j].name@ == removed0[w].name@
                                    && known@[j].gpu_index == removed0[w].gpu_index;
                            assert(known@[j].name@ == removed@[w].name@);
                        } else {
                            assert(known@[t as int].name@ == removed@[w].name@);
                        }
                    }
                    assert(entries_from(removed@, known@));
                }
            },
        }
        t += 1;
        proof {
            let tnew = t as int;
            assert forall|m: Seq<char>| #[trigger] has_name(removed@, m) implies ((exists|j: int|
                0 <= j < tnew && known@[j].name@ == m) && !has_name(counters@, m)) by {
                let w = choose|w: int| 0 <= w < removed@.len() && removed@[w].name@ == m;
                if w < removed0.len() {
                    assert(removed@[w] == removed0[w]);
                    assert(has_name(removed0, m));
                    let j = choose|j: int| 0 <= j < tnew - 1 && known@[j].name@ == m;
                    assert(0 <= j < tnew && known@[j].name@ == m);
                } else {
                    assert(m == n);
                    assert(known@[tnew - 1].name@ == m);
                }
            }
            assert forall|m: Seq<char>|
                ((exists|j: int| 0 <= j < tnew && known@[j].name@ == m) && !has_name(
                    counters@,
                    m,
                )) implies #[trigger] has_name(removed@, m) by {
                let j = choose|j: int| 0 <= j < tnew && known@[j].name@ == m;
                if j < tnew - 1 {
                    assert(has_name(removed0, m));
                    let w = choose|w: int| 0 <= w < removed0.len() && removed0[w].name@ == m;
                    assert(removed@[w].name@ == m);
                } else {
                    assert(m == n);
                    if removed@.len() > removed0.len() {
                        assert(removed@[removed@.len() - 1].name@ == n);
                    }
                }
            }
        }
    }
    let recollect = added.len() > 0;
    ReconcileOutcome { counters, added, removed, recollect }
}

} // verus!
