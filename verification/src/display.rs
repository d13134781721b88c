//! Display identity: the stable id derived from a monitor's device path,
//! and the matching of a display against the configured target rules.
//!
//! A configuration entry targets a display by its device path, by the role
//! keywords `main` and `sub`, or by the catch-all `all`; matching runs in
//! that order of precedence, and the fallback roles give synthesized ids
//! (`main`, `sub_N`, `all_N`).

use vstd::prelude::*;

use crate::text::{
    ascii_upper, chars_eq_str, chars_to_upper, dec_str, str_to_chars, subvec, u_to_dec,
};

verus! {

/// The trailing segment removed: everything after and including the last
/// `#`, or everything when there is none.
pub open spec fn strip_tail(s: Seq<char>) -> Seq<char>
    decreases s.len(),
{
    if s.len() == 0 {
        s
    } else if s.last() == '#' {
        s.drop_last()
    } else {
        strip_tail(s.drop_last())
    }
}

/// Every `#` replaced by a backslash.
pub open spec fn hash_to_backslash(s: Seq<char>) -> Seq<char> {
    s.map_values(
        |c: char|
            if c == '#' {
                '\\'
            } else {
                c
            },
    )
}

/// The stable display id derived from a device path: the four-character
/// head dropped, the trailing segment removed through the last `#`, the
/// remaining `#` separators turned into backslashes, and the whole
/// upper-cased.
pub open spec fn device_path_id_spec(path: Seq<char>) -> Seq<char> {
    ascii_upper(hash_to_backslash(strip_tail(path.skip(4))))
}

/// With no `#` anywhere, the whole sequence is stripped.
proof fn lemma_strip_tail_no_hash(s: Seq<char>)
    requires
        forall|k: int| 0 <= k < s.len() ==> s[k] != '#',
    ensures
        strip_tail(s) == Seq::<char>::empty(),
    decreases s.len(),
{
    if s.len() > 0 {
        lemma_strip_tail_no_hash(s.drop_last());
    }
}

/// With a last `#` at position `j`, stripping keeps exactly the prefix
/// before it.
proof fn lemma_strip_tail_last_hash(s: Seq<char>, j: int)
    requires
        0 <= j < s.len(),
        s[j] == '#',
        forall|k: int| j < k < s.len() ==> s[k] != '#',
    ensures
        strip_tail(s) == s.subrange(0, j),
    decreases s.len(),
{
    if j == s.len() - 1 {
        assert(s.drop_last() =~= s.subrange(0, j));
    } else {
        lemma_strip_tail_last_hash(s.drop_last(), j);
        assert(s.drop_last().subrange(0, j) =~= s.subrange(0, j));
    }
}

/// Derives the stable display id from a monitor device path.
pub fn device_path_id(path: &str) -> (r: Vec<char>)
    requires
        path@.len() >= 4,
    ensures
        r@ == device_path_id_spec(path@),
{
    let v = str_to_chars(path);
    let w = subvec(&v, 4, v.len());
    proof {
        assert(w@ =~= path@.skip(4));
    }
    // Find the last `#`; keep what precedes it, or nothing without one.
    let mut hash_at: Option<usize> = None;
    let mut i: usize = 0;
    while i < w.len()
        invariant
            i <= w@.len(),
            match hash_at {
                Some(j) => j < i && w@[j as int] == '#' && forall|k: int|
                    j < k < i ==> w@[k] != '#',
                None => forall|k: int| 0 <= k < i ==> w@[k] != '#',
            },
        decreases w@.len() - i,
    {
        if w[i] == '#' {
            hash_at = Some(i);
        }
        i += 1;
    }
    let stripped = match hash_at {
        Some(j) => {
            proof {
                lemma_strip_tail_last_hash(w@, j as int);
            }
            subvec(&w, 0, j)
        },
        None => {
            proof {
                lemma_strip_tail_no_hash(w@);
            }
            Vec::new()
        },
    };
    assert(stripped@ =~= strip_tail(path@.skip(4)));
    // Turn the remaining separators into backslashes.
    let mut mapped: Vec<char> = Vec::new();
    let mut k: usize = 0;
    while k < stripped.len()
        invariant
            k <= stripped@.len(),
            mapped@.len() == k,
            forall|p: int|
                0 <= p < k ==> mapped@[p] == (if stripped@[p] == '#' {
                    '\\'
                } else {
                    stripped@[p]
                }),
        decreases stripped@.len() - k,
    {
        let c = stripped[k];
        if c == '#' {
            mapped.push('\\');
        } else {
            mapped.push(c);
        }
        k += 1;
    }
    proof {
        assert(mapped@ =~= hash_to_backslash(stripped@));
    }
    chars_to_upper(&mapped)
}

/// Which monitor a display is, for the fallback target keywords.
#[derive(Clone, Copy, PartialEq, Eq, Structural, Debug)]
pub enum DisplayRole {
    /// The monitor carrying the primary taskbar.
    Primary,
    /// A further monitor, numbered from one in discovery order.
    Secondary { counter: u32 },
}

/// The ghost image of a target list.
pub open spec fn targets_view(s: Seq<String>) -> Seq<Seq<char>> {
    Seq::new(s.len(), |i: int| s[i]@)
}

/// The first target equal to `key`, or the number of targets.
pub open spec fn first_target_idx(ts: Seq<Seq<char>>, key: Seq<char>, from: int) -> int
    decreases ts.len() - from,
{
    if !(0 <= from < ts.len()) {
        ts.len() as int
    } else if ts[from] == key {
        from
    } else {
        first_target_idx(ts, key, from + 1)
    }
}

pub open spec fn main_chars() -> Seq<char> {
    seq!['m', 'a', 'i', 'n']
}

pub open spec fn sub_chars() -> Seq<char> {
    seq!['s', 'u', 'b']
}

pub open spec fn all_chars() -> Seq<char> {
    seq!['a', 'l', 'l']
}

/// The configuration entry a display falls under and the id it gets: its
/// device path first, then its role keyword, then `all`, each taking the
/// first equal target; no match leaves the display unconfigured.
pub open spec fn chosen_target(ts: Seq<Seq<char>>, device: Seq<char>, role: DisplayRole) -> Option<
    (int, Seq<char>),
> {
    let d = first_target_idx(ts, device, 0);
    if d < ts.len() {
        Some((d, device))
    } else {
        match role {
            DisplayRole::Primary => {
                let m = first_target_idx(ts, main_chars(), 0);
                if m < ts.len() {
                    Some((m, main_chars()))
                } else {
                    let a = first_target_idx(ts, all_chars(), 0);
                    if a < ts.len() {
                        Some((a, all_chars() + seq!['_', '0']))
                    } else {
                        None
                    }
                }
            },
            DisplayRole::Secondary { counter } => {
                let s = first_target_idx(ts, sub_chars(), 0);
                if s < ts.len() {
                    Some((s, sub_chars() + seq!['_'] + dec_str(counter as nat)))
                } else {
                    let a = first_target_idx(ts, all_chars(), 0);
                    if a < ts.len() {
                        Some((a, all_chars() + seq!['_'] + dec_str(counter as nat)))
                    } else {
                        None
                    }
                }
            },
        }
    }
}

/// Finds the first target equal to `key`.
fn find_target(targets: &Vec<String>, key: &Vec<char>) -> (r: usize)
    ensures
        r == first_target_idx(targets_view(targets@), key@, 0),
        r <= targets@.len(),
{
    let ghost tv = targets_view(targets@);
    let mut i: usize = 0;
    while i < targets.len()
        invariant
            tv == targets_view(targets@),
            i <= targets@.len(),
            tv.len() == targets@.len(),
            first_target_idx(tv, key@, 0) == first_target_idx(tv, key@, i as int),
        decreases targets@.len() - i,
    {
        if chars_eq_str(key, targets[i].as_str()) {
            return i;
        }
        i += 1;
    }
    targets.len()
}

/// Matches a display against the configured targets, in precedence order.
pub fn choose_display_id(targets: &Vec<String>, device: &Vec<char>, role: DisplayRole) -> (r:
    Option<(usize, Vec<char>)>)
    ensures
        match r {
            Some((idx, id)) => chosen_target(targets_view(targets@), device@, role) == Some(
                (idx as int, id@),
            ),
            None => chosen_target(targets_view(targets@), device@, role) is None,
        },
{
    let d = find_target(targets, device);
    if d < targets.len() {
        return Some((d, subvec(device, 0, device.len())));
    }
    match role {
        DisplayRole::Primary => {
            let mut main_key: Vec<char> = Vec::new();
            main_key.push('m');
            main_key.push('a');
            main_key.push('i');
            main_key.push('n');
            assert(main_key@ =~= main_chars());
            let m = find_target(targets, &main_key);
            if m < targets.len() {
                return Some((m, main_key));
            }
            let mut all_key: Vec<char> = Vec::new();
            all_key.push('a');
            all_key.push('l');
            all_key.push('l');
            assert(all_key@ =~= all_chars());
            let a = find_target(targets, &all_key);
            if a < targets.len() {
                let mut id = all_key;
                id.push('_');
                id.push('0');
                assert(id@ =~= all_chars() + seq!['_', '0']);
                return Some((a, id));
            }
            None
        },
        DisplayRole::Secondary { counter } => {
            let mut sub_key: Vec<char> = Vec::new();
            sub_key.push('s');
            sub_key.push('u');
            sub_key.push('b');
            assert(sub_key@ =~= sub_chars());
            let s = find_target(targets, &sub_key);
            if s < targets.len() {
                let mut id = sub_key;
                id.push('_');
                let digits = u_to_dec(counter as usize);
                crate::text::append_chars(&mut id, &digits);
                assert(id@ =~= sub_chars() + seq!['_'] + dec_str(counter as nat));
                return Some((s, id));
            }
            let mut all_key: Vec<char> = Vec::new();
            all_key.push('a');
            all_key.push('l');
            all_key.push('l');
            assert(all_key@ =~= all_chars());
            let a = find_target(targets, &all_key);
            if a < targets.len() {
                let mut id = all_key;
                id.push('_');
                let digits = u_to_dec(counter as usize);
                crate::text::append_chars(&mut id, &digits);
                assert(id@ =~= all_chars() + seq!['_'] + dec_str(counter as nat));
                return Some((a, id));
            }
            None
        },
    }
}

} // verus!
