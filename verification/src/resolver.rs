//! The template resolver: every brace-delimited token `{...}` of a label's
//! format string is replaced, left to right, by resolved text, and the result
//! is then rendered as a time pattern for the label's zone.
//!
//! Token precedence: exact CPU and memory keywords (with an optional padding
//! prefix `-`, `_` or `0`), then a GPU keyword `(-|_|0)?gpu<digits>` found
//! anywhere inside the token, then a custom format definition named by the
//! whole token, and finally the empty string.  A CPU or memory key absent
//! from the snapshot reads as `0`; an absent GPU key falls through to the
//! custom-format lookup.

use vstd::prelude::*;

use crate::clock::{format_instant, time_text};
use crate::metrics::{MetricSnapshot, SnapshotView};
use crate::text::{
    append_chars, chars_eq, dec_str, find_char, lemma_dec_str_digits, lemma_dec_str_injective,
    lemma_dec_str_len, str_to_chars, subvec,
};

verus! {

// ---------------------------------------------------------------------------
// Padding
// ---------------------------------------------------------------------------
/// How a metric value is padded: right-aligned in three columns with spaces
/// (the plain and `_` variants), with zeros (the `0` variant), or not at all
/// (the `-` variant).
#[derive(Clone, Copy, PartialEq, Eq, Structural, Debug)]
pub enum Pad {
    Space,
    Zero,
    Bare,
}

/// `n` copies of one character.
pub open spec fn repeat_char(c: char, n: nat) -> Seq<char> {
    Seq::new(n, |i: int| c)
}

/// The fill character of a padding variant.
pub open spec fn fill_char(p: Pad) -> char {
    match p {
        Pad::Zero => '0',
        _ => ' ',
    }
}

/// A metric value under a padding variant: the decimal rendering, padded on
/// the left to three columns unless the variant is bare.
pub open spec fn pad_text(p: Pad, v: nat) -> Seq<char> {
    let d = dec_str(v);
    match p {
        Pad::Bare => d,
        _ => if d.len() >= 3 {
            d
        } else {
            repeat_char(fill_char(p), (3 - d.len()) as nat) + d
        },
    }
}

/// The padded rendering of a metric value.
pub fn pad_value(p: Pad, v: u8) -> (r: Vec<char>)
    ensures
        r@ == pad_text(p, v as nat),
{
    let mut d = crate::text::u_to_dec(v as usize);
    let ghost d0 = d@;
    if matches!(p, Pad::Bare) {
        return d;
    }
    let fill = if matches!(p, Pad::Zero) {
        '0'
    } else {
        ' '
    };
    assert(fill == fill_char(p));
    if d.len() >= 3 {
        return d;
    }
    proof {
        assert(d@ =~= repeat_char(fill, 0) + d0);
    }
    while d.len() < 3
        invariant
            d0.len() < 3,
            d0.len() <= d@.len() <= 3,
            d@ =~= repeat_char(fill, (d@.len() - d0.len()) as nat) + d0,
        decreases 3 - d@.len(),
    {
        let ghost m = (d@.len() - d0.len()) as nat;
        d.insert(0, fill);
        proof {
            assert(d@ =~= repeat_char(fill, (m + 1) as nat) + d0);
        }
    }
    proof {
        assert(d@ =~= repeat_char(fill_char(p), (3 - d0.len()) as nat) + d0);
    }
    d
}

// ---------------------------------------------------------------------------
// Custom format definitions
// ---------------------------------------------------------------------------
/// The ghost image of a custom format definition.
pub struct CustomFormatView {
    pub name: Seq<char>,
    pub time_fmt: Seq<char>,
    pub items: Seq<(Seq<char>, Seq<char>)>,
}

/// A named token, a time pattern, and a mapping from the pattern's rendered
/// value to literal replacement text, with an optional `_` wildcard entry.
pub struct CustomFormatDef {
    pub name: Vec<char>,
    pub time_fmt: Vec<char>,
    pub items: Vec<(Vec<char>, Vec<char>)>,
}

/// The ghost image of a replacement table.
pub open spec fn items_view(s: Seq<(Vec<char>, Vec<char>)>) -> Seq<(Seq<char>, Seq<char>)> {
    Seq::new(s.len(), |i: int| (s[i].0@, s[i].1@))
}

impl View for CustomFormatDef {
    type V = CustomFormatView;

    open spec fn view(&self) -> CustomFormatView {
        CustomFormatView {
            name: self.name@,
            time_fmt: self.time_fmt@,
            items: items_view(self.items@),
        }
    }
}

impl CustomFormatDef {
    /// A definition with an empty replacement table.
    pub fn new(name: &str, time_fmt: &str) -> (d: CustomFormatDef)
        ensures
            d@.name == name@,
            d@.time_fmt == time_fmt@,
            d@.items.len() == 0,
    {
        let d = CustomFormatDef {
            name: str_to_chars(name),
            time_fmt: str_to_chars(time_fmt),
            items: Vec::new(),
        };
        proof {
            assert(d@.items =~= Seq::<(Seq<char>, Seq<char>)>::empty());
        }
        d
    }

    /// Appends one replacement entry.  Lookup takes the first entry with a
    /// given key, so a later duplicate never shadows an earlier one.
    pub fn add_entry(&mut self, key: &str, value: &str)
        ensures
            final(self)@.name == old(self)@.name,
            final(self)@.time_fmt == old(self)@.time_fmt,
            final(self)@.items == old(self)@.items.push((key@, value@)),
    {
        self.items.push((str_to_chars(key), str_to_chars(value)));
        proof {
            assert(self@.items =~= old(self)@.items.push((key@, value@)));
        }
    }
}

/// The first replacement entry with the given key, if any.
pub open spec fn item_lookup(items: Seq<(Seq<char>, Seq<char>)>, key: Seq<char>) -> Option<
    Seq<char>,
>
    decreases items.len(),
{
    if items.len() == 0 {
        None
    } else if items[0].0 == key {
        Some(items[0].1)
    } else {
        item_lookup(items.drop_first(), key)
    }
}

/// Finds the first replacement entry with the given key.
fn item_find(items: &Vec<(Vec<char>, Vec<char>)>, key: &Vec<char>) -> (r: Option<Vec<char>>)
    ensures
        match r {
            Some(v) => item_lookup(items_view(items@), key@) == Some(v@),
            None => item_lookup(items_view(items@), key@) is None,
        },
{
    let ghost iv = items_view(items@);
    proof {
        assert(iv.skip(0) =~= iv);
    }
    let mut i: usize = 0;
    while i < items.len()
        invariant
            iv == items_view(items@),
            i <= items@.len(),
            iv.len() == items@.len(),
            item_lookup(iv, key@) == item_lookup(iv.skip(i as int), key@),
        decreases items@.len() - i,
    {
        let entry = &items[i];
        proof {
            assert(iv.skip(i as int).len() > 0);
            assert(iv.skip(i as int)[0] == iv[i as int]);
            assert(iv.skip(i as int).drop_first() =~= iv.skip(i as int + 1));
        }
        if chars_eq(&entry.0, key) {
            let v = subvec(&entry.1, 0, entry.1.len());
            return Some(v);
        }
        i += 1;
    }
    proof {
        assert(iv.skip(items@.len() as int) =~= Seq::<(Seq<char>, Seq<char>)>::empty());
    }
    None
}

/// The loaded set of custom format definitions.  Lookup takes the first
/// definition with a given name.
pub struct CustomFormats {
    pub defs: Vec<CustomFormatDef>,
}

impl View for CustomFormats {
    type V = Seq<CustomFormatView>;

    open spec fn view(&self) -> Seq<CustomFormatView> {
        Seq::new(self.defs@.len(), |i: int| self.defs@[i]@)
    }
}

/// The first definition with the given name, if any.
pub open spec fn def_lookup(defs: Seq<CustomFormatView>, name: Seq<char>) -> Option<
    CustomFormatView,
>
    decreases defs.len(),
{
    if defs.len() == 0 {
        None
    } else if defs[0].name == name {
        Some(defs[0])
    } else {
        def_lookup(defs.drop_first(), name)
    }
}

impl CustomFormats {
    /// An empty definition set.
    pub fn new() -> (c: CustomFormats)
        ensures
            c@.len() == 0,
    {
        let c = CustomFormats { defs: Vec::new() };
        proof {
            assert(c@ =~= Seq::<CustomFormatView>::empty());
        }
        c
    }

    /// Appends one definition.  Lookup takes the first definition with a
    /// given name, so a later duplicate never shadows an earlier one.
    pub fn add(&mut self, def: CustomFormatDef)
        ensures
            final(self)@ == old(self)@.push(def@),
    {
        self.defs.push(def);
        proof {
            assert(self@ =~= old(self)@.push(self.defs@.last()@));
        }
    }

    /// Finds the index of the first definition with the given name.
    fn find(&self, name: &Vec<char>) -> (r: Option<usize>)
        ensures
            match r {
                Some(j) => j < self@.len() && def_lookup(self@, name@) == Some(self@[j as int]),
                None => def_lookup(self@, name@) is None,
            },
    {
        let ghost dv = self@;
        proof {
            assert(dv.skip(0) =~= dv);
        }
        let mut i: usize = 0;
        while i < self.defs.len()
            invariant
                dv == self@,
                i <= self.defs@.len(),
                dv.len() == self.defs@.len(),
                def_lookup(dv, name@) == def_lookup(dv.skip(i as int), name@),
            decreases self.defs@.len() - i,
        {
            proof {
                assert(dv.skip(i as int).len() > 0);
                assert(dv.skip(i as int)[0] == dv[i as int]);
                assert(dv.skip(i as int).drop_first() =~= dv.skip(i as int + 1));
            }
            if chars_eq(&self.defs[i].name, name) {
                return Some(i);
            }
            i += 1;
        }
        proof {
            assert(dv.skip(self.defs@.len() as int) =~= Seq::<CustomFormatView>::empty());
        }
        None
    }
}

// ---------------------------------------------------------------------------
// Token classification
// ---------------------------------------------------------------------------
/// The padding variant selected by a token's first character, if any.
pub open spec fn pad_prefix(c: char) -> Option<Pad> {
    if c == '_' {
        Some(Pad::Space)
    } else if c == '0' {
        Some(Pad::Zero)
    } else if c == '-' {
        Some(Pad::Bare)
    } else {
        None
    }
}

/// Splits an optional padding prefix off a token.
pub open spec fn split_pad(tok: Seq<char>) -> (Pad, Seq<char>) {
    if tok.len() >= 1 && pad_prefix(tok[0]) is Some {
        (pad_prefix(tok[0]).unwrap(), tok.drop_first())
    } else {
        (Pad::Space, tok)
    }
}

/// The keyword selecting the CPU metric.
pub open spec fn cpu_chars() -> Seq<char> {
    seq!['c', 'p', 'u']
}

/// The keyword selecting the memory metric.
pub open spec fn mem_chars() -> Seq<char> {
    seq!['m', 'e', 'm']
}

/// A decimal digit.
pub open spec fn is_digit(c: char) -> bool {
    '0' <= c && c <= '9'
}

/// The letters `gpu` start at position `i` of `tok`.
pub open spec fn gpu_at(tok: Seq<char>, i: int) -> bool {
    0 <= i && i + 3 <= tok.len() && tok[i] == 'g' && tok[i + 1] == 'p' && tok[i + 2] == 'u'
}

/// The end (exclusive) of the run of digits starting at `j`.
pub open spec fn digit_run_end(tok: Seq<char>, j: int) -> int
    decreases tok.len() - j,
{
    if 0 <= j < tok.len() && is_digit(tok[j]) {
        digit_run_end(tok, j + 1)
    } else {
        j
    }
}

/// The leftmost occurrence inside `tok` of the pattern
/// `(-|_|0)?gpu<digits>`: the padding variant and the digit run, scanning
/// from position `i`.
pub open spec fn gpu_scan(tok: Seq<char>, i: int) -> Option<(Pad, Seq<char>)>
    decreases tok.len() - i,
{
    if !(0 <= i < tok.len()) {
        None
    } else if pad_prefix(tok[i]) is Some && gpu_at(tok, i + 1) && i + 4 < tok.len() && is_digit(
        tok[i + 4],
    ) {
        Some((pad_prefix(tok[i]).unwrap(), tok.subrange(i + 4, digit_run_end(tok, i + 4))))
    } else if gpu_at(tok, i) && i + 3 < tok.len() && is_digit(tok[i + 3]) {
        Some((Pad::Space, tok.subrange(i + 3, digit_run_end(tok, i + 3))))
    } else {
        gpu_scan(tok, i + 1)
    }
}

/// The run of digits starting at `j` never passes the end of the token.
pub proof fn lemma_digit_run_end_bounds(tok: Seq<char>, j: int)
    requires
        0 <= j <= tok.len(),
    ensures
        j <= digit_run_end(tok, j) <= tok.len(),
        forall|k: int| j <= k < digit_run_end(tok, j) ==> is_digit(tok[k]),
        digit_run_end(tok, j) < tok.len() ==> !is_digit(tok[digit_run_end(tok, j)]),
    decreases tok.len() - j,
{
    if j < tok.len() && is_digit(tok[j]) {
        lemma_digit_run_end_bounds(tok, j + 1);
    }
}

/// Finds the end of the run of digits starting at `j`.
fn digit_run_end_exec(tok: &Vec<char>, j: usize) -> (r: usize)
    requires
        j <= tok@.len(),
    ensures
        r == digit_run_end(tok@, j as int),
{
    let mut k: usize = j;
    while k < tok.len() && tok[k] >= '0' && tok[k] <= '9'
        invariant
            j <= k <= tok@.len(),
            digit_run_end(tok@, j as int) == digit_run_end(tok@, k as int),
        decreases tok@.len() - k,
    {
        k += 1;
    }
    k
}

/// Finds the leftmost GPU keyword occurrence: the padding variant and the
/// digit run's start and end.
fn gpu_scan_exec(tok: &Vec<char>) -> (r: Option<(Pad, usize, usize)>)
    ensures
        match r {
            Some((p, ds, de)) => {
                &&& ds <= de <= tok@.len()
                &&& gpu_scan(tok@, 0) == Some((p, tok@.subrange(ds as int, de as int)))
            },
            None => gpu_scan(tok@, 0) is None,
        },
{
    let n = tok.len();
    let mut i: usize = 0;
    while i < n
        invariant
            n == tok@.len(),
            i <= n,
            gpu_scan(tok@, 0) == gpu_scan(tok@, i as int),
        decreases n - i,
    {
        let c = tok[i];
        let pad = if c == '_' {
            Some(Pad::Space)
        } else if c == '0' {
            Some(Pad::Zero)
        } else if c == '-' {
            Some(Pad::Bare)
        } else {
            None
        };
        assert(pad == pad_prefix(tok@[i as int]));
        if let Some(p) = pad {
            if n - i > 4 && tok[i + 1] == 'g' && tok[i + 2] == 'p' && tok[i + 3] == 'u' && tok[i
                + 4] >= '0' && tok[i + 4] <= '9' {
                let ds = i + 4;
                let de = digit_run_end_exec(tok, ds);
                proof {
                    lemma_digit_run_end_bounds(tok@, ds as int);
                }
                return Some((p, ds, de));
            }
        } else {
            if n - i > 3 && tok[i] == 'g' && tok[i + 1] == 'p' && tok[i + 2] == 'u' && tok[i + 3]
                >= '0' && tok[i + 3] <= '9' {
                let ds = i + 3;
                let de = digit_run_end_exec(tok, ds);
                proof {
                    lemma_digit_run_end_bounds(tok@, ds as int);
                }
                return Some((Pad::Space, ds, de));
            }
        }
        proof {
            if pad is Some {
                assert(!(gpu_at(tok@, i as int + 1) && i + 4 < tok@.len() && is_digit(
                    tok@[i as int + 4],
                )));
                assert(!(gpu_at(tok@, i as int) && i + 3 < tok@.len() && is_digit(
                    tok@[i as int + 3],
                )));
            } else {
                assert(!(gpu_at(tok@, i as int) && i + 3 < tok@.len() && is_digit(
                    tok@[i as int + 3],
                )));
            }
        }
        i += 1;
    }
    None
}

/// The GPU index whose decimal rendering equals `digits`, if it is below
/// `n`: the snapshot holds keys `gpu0` through `gpu<n-1>`.
pub open spec fn gpu_index_for(digits: Seq<char>, n: nat) -> Option<nat> {
    if exists|k: nat| k < n && #[trigger] dec_str(k) == digits {
        Some(choose|k: nat| k < n && #[trigger] dec_str(k) == digits)
    } else {
        None
    }
}

/// Looks up the GPU value whose index renders as `digits`.
fn gpu_value_for(digits: &Vec<char>, gpus: &Vec<u8>) -> (r: Option<u8>)
    ensures
        match gpu_index_for(digits@, gpus@.len()) {
            Some(k) => r == Some(gpus@[k as int]),
            None => r is None,
        },
{
    let mut k: usize = 0;
    while k < gpus.len()
        invariant
            k <= gpus@.len(),
            forall|j: nat| j < k ==> #[trigger] dec_str(j) != digits@,
        decreases gpus@.len() - k,
    {
        let ks = crate::text::u_to_dec(k);
        if chars_eq(digits, &ks) {
            proof {
                let kk = choose|j: nat| j < gpus@.len() && #[trigger] dec_str(j) == digits@;
                lemma_dec_str_injective(kk, k as nat);
            }
            return Some(gpus[k]);
        }
        k += 1;
    }
    assert(gpu_index_for(digits@, gpus@.len()) is None);
    None
}

// ---------------------------------------------------------------------------
// Token resolution
// ---------------------------------------------------------------------------
/// The value of an optional metric key, reading absent as zero.
pub open spec fn opt_val(v: Option<u8>) -> nat {
    match v {
        Some(x) => x as nat,
        None => 0,
    }
}

/// What a custom-format token contributes: the definition's time pattern is
/// rendered for the current instant and zone, the rendered value is looked up
/// in the replacement table, the `_` entry backs an absent value, and with
/// neither the token contributes the empty sequence.  An unknown token
/// likewise contributes the empty sequence.
pub open spec fn custom_text(
    tok: Seq<char>,
    defs: Seq<CustomFormatView>,
    now_ms: int,
    tz: Seq<char>,
) -> Seq<char> {
    match def_lookup(defs, tok) {
        None => Seq::empty(),
        Some(def) => {
            let rendered = time_text(now_ms, tz, def.time_fmt);
            match item_lookup(def.items, rendered) {
                Some(rep) => rep,
                None => match item_lookup(def.items, seq!['_']) {
                    Some(rep) => rep,
                    None => Seq::empty(),
                },
            }
        },
    }
}

/// What one token resolves to, in precedence order: exact CPU or memory
/// keyword, GPU keyword with a present metric, custom format definition,
/// empty.
pub open spec fn token_text(
    tok: Seq<char>,
    snap: SnapshotView,
    defs: Seq<CustomFormatView>,
    now_ms: int,
    tz: Seq<char>,
) -> Seq<char> {
    let (pad, rest) = split_pad(tok);
    if rest == cpu_chars() {
        pad_text(pad, opt_val(snap.cpu))
    } else if rest == mem_chars() {
        pad_text(pad, opt_val(snap.mem))
    } else {
        match gpu_scan(tok, 0) {
            Some((gpad, digits)) => match gpu_index_for(digits, snap.gpus.len()) {
                Some(k) => pad_text(gpad, snap.gpus[k as int] as nat),
                None => custom_text(tok, defs, now_ms, tz),
            },
            None => custom_text(tok, defs, now_ms, tz),
        }
    }
}

/// Resolves a custom-format token.
fn resolve_custom(tok: &Vec<char>, customs: &CustomFormats, now_ms: i64, tz: &str) -> (r: Vec<
    char,
>)
    ensures
        r@ == custom_text(tok@, customs@, now_ms as int, tz@),
{
    match customs.find(tok) {
        None => Vec::new(),
        Some(j) => {
            let def = &customs.defs[j];
            proof {
                assert(customs@[j as int] == def@);
            }
            let rendered_s = format_instant(now_ms, tz, &def.time_fmt);
            let rendered = str_to_chars(rendered_s.as_str());
            match item_find(&def.items, &rendered) {
                Some(rep) => rep,
                None => {
                    let mut underscore: Vec<char> = Vec::new();
                    underscore.push('_');
                    assert(underscore@ =~= seq!['_']);
                    match item_find(&def.items, &underscore) {
                        Some(rep) => rep,
                        None => Vec::new(),
                    }
                },
            }
        },
    }
}

/// Resolves one token.
fn resolve_token(
    tok: &Vec<char>,
    snap: &MetricSnapshot,
    customs: &CustomFormats,
    now_ms: i64,
    tz: &str,
) -> (r: Vec<char>)
    ensures
        r@ == token_text(tok@, snap@, customs@, now_ms as int, tz@),
{
    let (pad, start): (Pad, usize) = if tok.len() >= 1 {
        let c = tok[0];
        if c == '_' {
            (Pad::Space, 1)
        } else if c == '0' {
            (Pad::Zero, 1)
        } else if c == '-' {
            (Pad::Bare, 1)
        } else {
            (Pad::Space, 0)
        }
    } else {
        (Pad::Space, 0)
    };
    proof {
        assert(split_pad(tok@).0 == pad);
        assert(split_pad(tok@).1 =~= tok@.subrange(start as int, tok@.len() as int));
    }
    if tok.len() - start == 3 {
        let a = tok[start];
        let b = tok[start + 1];
        let c = tok[start + 2];
        if a == 'c' && b == 'p' && c == 'u' {
            proof {
                assert(split_pad(tok@).1 =~= cpu_chars());
            }
            let v = match snap.cpu {
                Some(x) => x,
                None => 0,
            };
            return pad_value(pad, v);
        }
        if a == 'm' && b == 'e' && c == 'm' {
            proof {
                assert(split_pad(tok@).1 =~= mem_chars());
                assert(split_pad(tok@).1 != cpu_chars());
            }
            let v = match snap.mem {
                Some(x) => x,
                None => 0,
            };
            return pad_value(pad, v);
        }
    }
    proof {
        assert(split_pad(tok@).1 != cpu_chars());
        assert(split_pad(tok@).1 != mem_chars());
    }
    match gpu_scan_exec(tok) {
        Some((gpad, ds, de)) => {
            let digits = subvec(tok, ds, de);
            match gpu_value_for(&digits, &snap.gpus) {
                Some(v) => pad_value(gpad, v),
                None => resolve_custom(tok, customs, now_ms, tz),
            }
        },
        None => resolve_custom(tok, customs, now_ms, tz),
    }
}

// ---------------------------------------------------------------------------
// Token substitution over a whole format string
// ---------------------------------------------------------------------------
/// The first position at or after `from` holding `c`, or the length of `s`
/// if there is none.
pub open spec fn find_idx(s: Seq<char>, from: int, c: char) -> int
    decreases s.len() - from,
{
    if !(0 <= from < s.len()) {
        s.len() as int
    } else if s[from] == c {
        from
    } else {
        find_idx(s, from + 1, c)
    }
}

/// `find_idx` names the first occurrence: nothing before it matches, and it
/// matches unless it is the length.
pub proof fn lemma_find_idx(s: Seq<char>, from: int, c: char)
    requires
        0 <= from <= s.len(),
    ensures
        from <= find_idx(s, from, c) <= s.len(),
        find_idx(s, from, c) < s.len() ==> s[find_idx(s, from, c)] == c,
        forall|k: int| from <= k < find_idx(s, from, c) ==> s[k] != c,
    decreases s.len() - from,
{
    if from < s.len() && s[from] != c {
        lemma_find_idx(s, from + 1, c);
    }
}

/// A position that matches, with none before it matching, is `find_idx`.
pub proof fn lemma_find_idx_agrees(s: Seq<char>, from: int, c: char, j: int)
    requires
        0 <= from <= j <= s.len(),
        j < s.len() ==> s[j] == c,
        forall|k: int| from <= k < j ==> s[k] != c,
        j == s.len() ==> forall|k: int| from <= k < s.len() ==> s[k] != c,
    ensures
        find_idx(s, from, c) == j,
    decreases s.len() - from,
{
    if from < s.len() && s[from] != c {
        lemma_find_idx_agrees(s, from + 1, c, j);
    }
}

/// The format string with every brace-delimited token replaced, left to
/// right.  A `{` with no later `}` is kept literally, as is everything after
/// it.
pub open spec fn spec_subst(
    fmt: Seq<char>,
    snap: SnapshotView,
    defs: Seq<CustomFormatView>,
    now_ms: int,
    tz: Seq<char>,
) -> Seq<char>
    decreases fmt.len(),
{
    let b = find_idx(fmt, 0, '{');
    if !(0 <= b && b < fmt.len()) {
        fmt
    } else {
        let e = find_idx(fmt, b + 1, '}');
        if !(b + 1 <= e && e < fmt.len()) {
            fmt
        } else {
            fmt.subrange(0, b) + token_text(fmt.subrange(b + 1, e), snap, defs, now_ms, tz)
                + spec_subst(fmt.subrange(e + 1, fmt.len() as int), snap, defs, now_ms, tz)
        }
    }
}

/// Replaces every brace-delimited token of `fmt`.
pub fn substitute(
    fmt: &Vec<char>,
    snap: &MetricSnapshot,
    customs: &CustomFormats,
    now_ms: i64,
    tz: &str,
) -> (out: Vec<char>)
    ensures
        out@ == spec_subst(fmt@, snap@, customs@, now_ms as int, tz@),
    decreases fmt@.len(),
{
    let n = fmt.len();
    match find_char(fmt, 0, '{') {
        None => {
            proof {
                lemma_find_idx_agrees(fmt@, 0, '{', n as int);
            }
            let out = subvec(fmt, 0, n);
            proof {
                assert(out@ =~= fmt@);
            }
            out
        },
        Some(b) => {
            proof {
                lemma_find_idx_agrees(fmt@, 0, '{', b as int);
            }
            match find_char(fmt, b + 1, '}') {
                None => {
                    proof {
                        lemma_find_idx_agrees(fmt@, b + 1, '}', n as int);
                    }
                    let out = subvec(fmt, 0, n);
                    proof {
                        assert(out@ =~= fmt@);
                    }
                    out
                },
                Some(e) => {
                    proof {
                        lemma_find_idx_agrees(fmt@, b + 1, '}', e as int);
                    }
                    let tok = subvec(fmt, b + 1, e);
                    let mut out = subvec(fmt, 0, b);
                    let rt = resolve_token(&tok, snap, customs, now_ms, tz);
                    append_chars(&mut out, &rt);
                    let rest = subvec(fmt, e + 1, n);
                    let tail = substitute(&rest, snap, customs, now_ms, tz);
                    append_chars(&mut out, &tail);
                    proof {
                        assert(out@ =~= fmt@.subrange(0, b as int) + token_text(
                            fmt@.subrange(b as int + 1, e as int),
                            snap@,
                            customs@,
                            now_ms as int,
                            tz@,
                        ) + spec_subst(
                            fmt@.subrange(e as int + 1, fmt@.len() as int),
                            snap@,
                            customs@,
                            now_ms as int,
                            tz@,
                        ));
                    }
                    out
                },
            }
        },
    }
}

/// The rendered text of one label for one tick: every token of the format
/// string is substituted, and the remaining string is rendered as a time
/// pattern for the label's zone at the shared current instant.
pub fn resolve_label_text(
    format: &str,
    timezone: &str,
    now_ms: i64,
    snap: &MetricSnapshot,
    customs: &CustomFormats,
) -> (r: String)
    ensures
        r@ == time_text(
            now_ms as int,
            timezone@,
            spec_subst(format@, snap@, customs@, now_ms as int, timezone@),
        ),
{
    let fmt_chars = str_to_chars(format);
    let substituted = substitute(&fmt_chars, snap, customs, now_ms, timezone);
    format_instant(now_ms, timezone, &substituted)
}

// ---------------------------------------------------------------------------
// Which metric families the configured labels reference
// ---------------------------------------------------------------------------
/// The keyword `kw`, wrapped in braces with an optional padding prefix,
/// occurs as a whole token somewhere in the format string.
pub open spec fn keyword_braced(f: Seq<char>, kw: Seq<char>) -> bool {
    ||| crate::text::contains_seq(f, seq!['{'] + kw + seq!['}'])
    ||| crate::text::contains_seq(f, seq!['{', '-'] + kw + seq!['}'])
    ||| crate::text::contains_seq(f, seq!['{', '_'] + kw + seq!['}'])
    ||| crate::text::contains_seq(f, seq!['{', '0'] + kw + seq!['}'])
}

/// A braced GPU token starts at `p`: `{`, an optional padding prefix,
/// `gpu`, at least one digit, and a closing `}` right after the digits.
pub open spec fn gpu_braced_at(f: Seq<char>, p: int) -> bool {
    let q = if p + 1 < f.len() && pad_prefix(f[p + 1]) is Some {
        p + 2
    } else {
        p + 1
    };
    &&& 0 <= p < f.len()
    &&& f[p] == '{'
    &&& gpu_at(f, q)
    &&& q + 3 < f.len()
    &&& is_digit(f[q + 3])
    &&& digit_run_end(f, q + 3) < f.len()
    &&& f[digit_run_end(f, q + 3)] == '}'
}

/// The format string holds some braced GPU token.
pub open spec fn gpu_referenced(f: Seq<char>) -> bool {
    exists|p: int| #[trigger] gpu_braced_at(f, p)
}

/// Whether the format string holds a braced keyword token.
fn keyword_braced_exec(f: &Vec<char>, kw: &Vec<char>) -> (r: bool)
    ensures
        r == keyword_braced(f@, kw@),
{
    let mut plain: Vec<char> = Vec::new();
    plain.push('{');
    append_chars(&mut plain, kw);
    plain.push('}');
    assert(plain@ =~= seq!['{'] + kw@ + seq!['}']);
    if crate::text::contains_sub(f, &plain) {
        return true;
    }
    let mut bare: Vec<char> = Vec::new();
    bare.push('{');
    bare.push('-');
    append_chars(&mut bare, kw);
    bare.push('}');
    assert(bare@ =~= seq!['{', '-'] + kw@ + seq!['}']);
    if crate::text::contains_sub(f, &bare) {
        return true;
    }
    let mut under: Vec<char> = Vec::new();
    under.push('{');
    under.push('_');
    append_chars(&mut under, kw);
    under.push('}');
    assert(under@ =~= seq!['{', '_'] + kw@ + seq!['}']);
    if crate::text::contains_sub(f, &under) {
        return true;
    }
    let mut zero: Vec<char> = Vec::new();
    zero.push('{');
    zero.push('0');
    append_chars(&mut zero, kw);
    zero.push('}');
    assert(zero@ =~= seq!['{', '0'] + kw@ + seq!['}']);
    crate::text::contains_sub(f, &zero)
}

/// Whether the format string holds some braced GPU token.
fn gpu_referenced_exec(f: &Vec<char>) -> (r: bool)
    ensures
        r == gpu_referenced(f@),
{
    let n = f.len();
    let mut p: usize = 0;
    while p < n
        invariant
            n == f@.len(),
            p <= n,
            forall|k: int| 0 <= k < p ==> !(#[trigger] gpu_braced_at(f@, k)),
        decreases n - p,
    {
        if f[p] == '{' {
            let c1 = if p + 1 < n {
                f[p + 1]
            } else {
                '{'
            };
            let q = if p + 1 < n && (c1 == '-' || c1 == '_' || c1 == '0') {
                p + 2
            } else {
                p + 1
            };
            if n - q > 3 && f[q] == 'g' && f[q + 1] == 'p' && f[q + 2] == 'u' && f[q + 3] >= '0'
                && f[q + 3] <= '9' {
                let e = digit_run_end_exec(f, q + 3);
                if e < n && f[e] == '}' {
                    assert(gpu_braced_at(f@, p as int));
                    return true;
                }
            }
        }
        assert(!gpu_braced_at(f@, p as int));
        p += 1;
    }
    false
}

/// The metric families that at least one of the given label formats
/// references; only these are sampled each tick.
pub fn scan_formats(formats: &Vec<String>) -> (flags: crate::metrics::FamilyFlags)
    ensures
        flags.cpu == exists|i: int|
            0 <= i < formats@.len() && keyword_braced(#[trigger] formats@[i]@, cpu_chars()),
        flags.mem == exists|i: int|
            0 <= i < formats@.len() && keyword_braced(#[trigger] formats@[i]@, mem_chars()),
        flags.gpu == exists|i: int|
            0 <= i < formats@.len() && gpu_referenced(#[trigger] formats@[i]@),
{
    let mut cpu = false;
    let mut mem = false;
    let mut gpu = false;
    let mut cpu_kw: Vec<char> = Vec::new();
    cpu_kw.push('c');
    cpu_kw.push('p');
    cpu_kw.push('u');
    assert(cpu_kw@ =~= cpu_chars());
    let mut mem_kw: Vec<char> = Vec::new();
    mem_kw.push('m');
    mem_kw.push('e');
    mem_kw.push('m');
    assert(mem_kw@ =~= mem_chars());
    let mut i: usize = 0;
    while i < formats.len()
        invariant
            i <= formats@.len(),
            cpu_kw@ == cpu_chars(),
            mem_kw@ == mem_chars(),
            cpu == exists|k: int|
                0 <= k < i && keyword_braced(#[trigger] formats@[k]@, cpu_chars()),
            mem == exists|k: int|
                0 <= k < i && keyword_braced(#[trigger] formats@[k]@, mem_chars()),
            gpu == exists|k: int| 0 <= k < i && gpu_referenced(#[trigger] formats@[k]@),
        decreases formats@.len() - i,
    {
        let chars = str_to_chars(formats[i].as_str());
        if !cpu && keyword_braced_exec(&chars, &cpu_kw) {
            cpu = true;
        }
        if !mem && keyword_braced_exec(&chars, &mem_kw) {
            mem = true;
        }
        if !gpu && gpu_referenced_exec(&chars) {
            gpu = true;
        }
        i += 1;
    }
    crate::metrics::FamilyFlags { cpu, gpu, mem }
}

// ---------------------------------------------------------------------------
// Stated properties
// ---------------------------------------------------------------------------
/// Splicing: in a format made of a token-free prefix, one well-formed token
/// and a remainder, substitution keeps the prefix, resolves the token, and
/// continues in the remainder.
pub proof fn lemma_subst_splice(
    pre: Seq<char>,
    tok: Seq<char>,
    post: Seq<char>,
    snap: SnapshotView,
    defs: Seq<CustomFormatView>,
    now_ms: int,
    tz: Seq<char>,
)
    requires
        forall|k: int| 0 <= k < pre.len() ==> pre[k] != '{',
        forall|k: int| 0 <= k < tok.len() ==> tok[k] != '}',
    ensures
        spec_subst(pre + seq!['{'] + tok + seq!['}'] + post, snap, defs, now_ms, tz) == pre
            + token_text(tok, snap, defs, now_ms, tz) + spec_subst(post, snap, defs, now_ms, tz),
{
    let fmt = pre + seq!['{'] + tok + seq!['}'] + post;
    let b = pre.len() as int;
    let e = b + 1 + tok.len();
    assert(fmt[b] == '{');
    assert(fmt[e] == '}');
    assert forall|k: int| 0 <= k < b implies fmt[k] != '{' by {
        assert(fmt[k] == pre[k]);
    }
    lemma_find_idx_agrees(fmt, 0, '{', b);
    assert forall|k: int| b + 1 <= k < e implies fmt[k] != '}' by {
        assert(fmt[k] == tok[k - (b + 1)]);
    }
    lemma_find_idx_agrees(fmt, b + 1, '}', e);
    assert(fmt.subrange(0, b) =~= pre);
    assert(fmt.subrange(b + 1, e) =~= tok);
    assert(fmt.subrange(e + 1, fmt.len() as int) =~= post);
}

/// An absent CPU or memory key reads as zero: the token still renders, as
/// the zero value under its padding variant.
pub proof fn lemma_absent_key_reads_zero(
    tok: Seq<char>,
    snap: SnapshotView,
    defs: Seq<CustomFormatView>,
    now_ms: int,
    tz: Seq<char>,
)
    requires
        snap.cpu is None,
        snap.mem is None,
        split_pad(tok).1 == cpu_chars() || split_pad(tok).1 == mem_chars(),
    ensures
        token_text(tok, snap, defs, now_ms, tz) == pad_text(split_pad(tok).0, 0),
{
}

/// The padding variants are consistent: the bare variant is the plain
/// decimal rendering, and the space and zero variants pad it on the left to
/// exactly three columns whenever it is shorter, sharing its digits.
pub proof fn lemma_padding_consistent(v: nat)
    ensures
        pad_text(Pad::Bare, v) == dec_str(v),
        dec_str(v).len() >= 3 ==> pad_text(Pad::Space, v) == dec_str(v) && pad_text(Pad::Zero, v)
            == dec_str(v),
        dec_str(v).len() < 3 ==> pad_text(Pad::Space, v).len() == 3 && pad_text(Pad::Zero, v).len()
            == 3,
        pad_text(Pad::Space, v).skip(pad_text(Pad::Space, v).len() - dec_str(v).len())
            == dec_str(v),
        pad_text(Pad::Zero, v).skip(pad_text(Pad::Zero, v).len() - dec_str(v).len()) == dec_str(v),
{
    lemma_dec_str_len(v);
    if dec_str(v).len() < 3 {
        assert(pad_text(Pad::Space, v).skip(pad_text(Pad::Space, v).len() - dec_str(v).len())
            =~= dec_str(v));
        assert(pad_text(Pad::Zero, v).skip(pad_text(Pad::Zero, v).len() - dec_str(v).len())
            =~= dec_str(v));
    } else {
        assert(pad_text(Pad::Space, v).skip(0) =~= dec_str(v));
        assert(pad_text(Pad::Zero, v).skip(0) =~= dec_str(v));
    }
}

/// The `_` padding variant renders exactly as the plain variant: a token
/// `_cpu` or `_mem` resolves as `cpu` or `mem` does.
pub proof fn lemma_underscore_variant(
    rest: Seq<char>,
    snap: SnapshotView,
    defs: Seq<CustomFormatView>,
    now_ms: int,
    tz: Seq<char>,
)
    requires
        rest == cpu_chars() || rest == mem_chars(),
    ensures
        token_text(seq!['_'] + rest, snap, defs, now_ms, tz) == token_text(
            rest,
            snap,
            defs,
            now_ms,
            tz,
        ),
{
    let tok = seq!['_'] + rest;
    assert(tok[0] == '_');
    assert(tok.drop_first() =~= rest);
    assert(split_pad(tok) == (Pad::Space, rest));
    assert(split_pad(rest) == (Pad::Space, rest));
}

/// A token `gpu<N>` resolves with the metric keyed by GPU index `N`, padded
/// to three columns; `-gpu<N>` resolves the same key unpadded.
pub proof fn lemma_gpu_token_uses_indexed_key(
    k: nat,
    snap: SnapshotView,
    defs: Seq<CustomFormatView>,
    now_ms: int,
    tz: Seq<char>,
)
    requires
        k < snap.gpus.len(),
    ensures
        token_text(seq!['g', 'p', 'u'] + dec_str(k), snap, defs, now_ms, tz) == pad_text(
            Pad::Space,
            snap.gpus[k as int] as nat,
        ),
        token_text(seq!['-', 'g', 'p', 'u'] + dec_str(k), snap, defs, now_ms, tz) == dec_str(
            snap.gpus[k as int] as nat,
        ),
{
    lemma_dec_str_len(k);
    lemma_dec_str_digits(k);
    let bare = seq!['g', 'p', 'u'] + dec_str(k);
    let dash = seq!['-', 'g', 'p', 'u'] + dec_str(k);
    assert(bare.len() >= 4);
    assert(split_pad(bare) == (Pad::Space, bare));
    assert(split_pad(bare).1 != cpu_chars() && split_pad(bare).1 != mem_chars());
    assert(gpu_at(bare, 0));
    lemma_digit_run_all(bare, 3);
    assert(gpu_scan(bare, 0) == Some(
        (Pad::Space, bare.subrange(3, digit_run_end(bare, 3))),
    ));
    assert(bare.subrange(3, bare.len() as int) =~= dec_str(k));
    lemma_gpu_index_resolves(k, snap.gpus.len());

    assert(dash[0] == '-');
    assert(dash.drop_first() =~= bare);
    assert(split_pad(dash).1 != cpu_chars() && split_pad(dash).1 != mem_chars());
    assert(gpu_at(dash, 1));
    lemma_digit_run_all(dash, 4);
    assert(gpu_scan(dash, 0) == Some((Pad::Bare, dash.subrange(4, digit_run_end(dash, 4)))));
    assert(dash.subrange(4, dash.len() as int) =~= dec_str(k));
}

/// A digit run that reaches the end of the token ends at its length.
pub proof fn lemma_digit_run_all(tok: Seq<char>, j: int)
    requires
        0 <= j <= tok.len(),
        forall|i: int| j <= i < tok.len() ==> '0' <= #[trigger] tok[i] && tok[i] <= '9',
    ensures
        digit_run_end(tok, j) == tok.len(),
    decreases tok.len() - j,
{
    if j < tok.len() {
        lemma_digit_run_all(tok, j + 1);
    }
}

/// A digit string that renders some index below `n` resolves to that index.
pub proof fn lemma_gpu_index_resolves(k: nat, n: nat)
    requires
        k < n,
    ensures
        gpu_index_for(dec_str(k), n) == Some(k),
{
    assert(dec_str(k) == dec_str(k));
    let kk = choose|j: nat| j < n && #[trigger] dec_str(j) == dec_str(k);
    lemma_dec_str_injective(kk, k);
}

/// For a fixed instant and a fixed snapshot, resolution is a function of its
/// inputs alone: two renderings of the same label agree.
pub proof fn lemma_resolution_idempotent(
    fmt: Seq<char>,
    snap: SnapshotView,
    defs: Seq<CustomFormatView>,
    now_ms: int,
    tz: Seq<char>,
    r1: Seq<char>,
    r2: Seq<char>,
)
    requires
        r1 == time_text(now_ms, tz, spec_subst(fmt, snap, defs, now_ms, tz)),
        r2 == time_text(now_ms, tz, spec_subst(fmt, snap, defs, now_ms, tz)),
    ensures
        r1 == r2,
{
}

/// A custom token whose rendered time value is in no replacement entry, with
/// no `_` fallback, contributes the empty string.
pub proof fn lemma_custom_miss_is_empty(
    tok: Seq<char>,
    defs: Seq<CustomFormatView>,
    now_ms: int,
    tz: Seq<char>,
    def: CustomFormatView,
)
    requires
        def_lookup(defs, tok) == Some(def),
        item_lookup(def.items, time_text(now_ms, tz, def.time_fmt)) is None,
        item_lookup(def.items, seq!['_']) is None,
    ensures
        custom_text(tok, defs, now_ms, tz) == Seq::<char>::empty(),
{
}

} // verus!
