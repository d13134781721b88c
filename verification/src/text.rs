//! Character-sequence utilities shared by the template resolver, the metric
//! sampler and the display matching code: conversions between `&str` and
//! `Vec<char>`, equality and substring tests, decimal and hexadecimal
//! rendering of integers, and ASCII case folding.

use vstd::prelude::*;

verus! {

/// The character for one decimal digit.
pub open spec fn digit_char(d: nat) -> char {
    if d == 0 {
        '0'
    } else if d == 1 {
        '1'
    } else if d == 2 {
        '2'
    } else if d == 3 {
        '3'
    } else if d == 4 {
        '4'
    } else if d == 5 {
        '5'
    } else if d == 6 {
        '6'
    } else if d == 7 {
        '7'
    } else if d == 8 {
        '8'
    } else {
        '9'
    }
}

/// The decimal rendering of `n`, most significant digit first, with no sign
/// and no leading zeros (`0` renders as `"0"`).
pub open spec fn dec_str(n: nat) -> Seq<char>
    decreases n,
{
    if n < 10 {
        seq![digit_char(n)]
    } else {
        dec_str(n / 10).push(digit_char(n % 10))
    }
}

pub proof fn lemma_dec_str_len(n: nat)
    ensures
        dec_str(n).len() >= 1,
    decreases n,
{
    if n >= 10 {
        lemma_dec_str_len(n / 10);
    }
}

/// The numeric value of a digit character; unconstrained for other characters.
pub open spec fn digit_val(c: char) -> nat {
    if c == '0' {
        0
    } else if c == '1' {
        1
    } else if c == '2' {
        2
    } else if c == '3' {
        3
    } else if c == '4' {
        4
    } else if c == '5' {
        5
    } else if c == '6' {
        6
    } else if c == '7' {
        7
    } else if c == '8' {
        8
    } else {
        9
    }
}

/// The value of a digit string read most significant digit first.
pub open spec fn digits_val(s: Seq<char>) -> nat
    decreases s.len(),
{
    if s.len() == 0 {
        0
    } else {
        digits_val(s.drop_last()) * 10 + digit_val(s.last())
    }
}

/// Reading back the decimal rendering of `n` yields `n`.
pub proof fn lemma_digits_val_dec_str(n: nat)
    ensures
        digits_val(dec_str(n)) == n,
    decreases n,
{
    if n < 10 {
        assert(dec_str(n) =~= seq![digit_char(n)]);
        assert(dec_str(n).drop_last() =~= Seq::<char>::empty());
        assert(dec_str(n).last() == digit_char(n));
        assert(digit_val(digit_char(n)) == n);
        assert(digits_val(Seq::<char>::empty()) == 0);
        assert(digits_val(dec_str(n)) == digits_val(dec_str(n).drop_last()) * 10 + digit_val(
            dec_str(n).last(),
        ));
    } else {
        lemma_digits_val_dec_str(n / 10);
        assert(dec_str(n).drop_last() =~= dec_str(n / 10));
        assert(dec_str(n).last() == digit_char(n % 10));
        assert(digit_val(digit_char(n % 10)) == n % 10);
        assert(digits_val(dec_str(n)) == (n / 10) * 10 + n % 10);
        assert((n / 10) * 10 + n % 10 == n) by (nonlinear_arith);
    }
}

/// Distinct numbers render to distinct decimal strings.
pub proof fn lemma_dec_str_injective(a: nat, b: nat)
    requires
        dec_str(a) == dec_str(b),
    ensures
        a == b,
{
    lemma_digits_val_dec_str(a);
    lemma_digits_val_dec_str(b);
}

/// The decimal rendering of `n`.
pub fn u_to_dec(n: usize) -> (r: Vec<char>)
    ensures
        r@ == dec_str(n as nat),
{
    let mut out: Vec<char> = Vec::new();
    let mut m: usize = n;
    if m == 0 {
        out.push('0');
        assert(out@ =~= dec_str(0));
        return out;
    }
    while m > 0
        invariant
            m > 0 ==> dec_str(n as nat) =~= dec_str(m as nat) + out@,
            m == 0 ==> dec_str(n as nat) =~= out@,
        decreases m,
    {
        let d = m % 10;
        let c = if d == 0 {
            '0'
        } else if d == 1 {
            '1'
        } else if d == 2 {
            '2'
        } else if d == 3 {
            '3'
        } else if d == 4 {
            '4'
        } else if d == 5 {
            '5'
        } else if d == 6 {
            '6'
        } else if d == 7 {
            '7'
        } else if d == 8 {
            '8'
        } else {
            '9'
        };
        assert(c == digit_char((m % 10) as nat));
        let ghost old_m = m as nat;
        let ghost old_out = out@;
        out.insert(0, c);
        m = m / 10;
        proof {
            if old_m < 10 {
                assert(dec_str(old_m) =~= seq![digit_char(old_m)]);
                assert(seq![digit_char(old_m)] + old_out =~= out@);
            } else {
                assert(dec_str(old_m) =~= dec_str(old_m / 10) + seq![digit_char(old_m % 10)]);
                assert(dec_str(old_m) + old_out =~= dec_str(old_m / 10) + out@);
            }
        }
    }
    out
}

/// Every character of a decimal rendering is a digit.
pub proof fn lemma_dec_str_digits(n: nat)
    ensures
        forall|i: int|
            0 <= i < dec_str(n).len() ==> '0' <= #[trigger] dec_str(n)[i] && dec_str(n)[i] <= '9',
    decreases n,
{
    if n < 10 {
        assert(dec_str(n) =~= seq![digit_char(n)]);
        assert('0' <= digit_char(n) && digit_char(n) <= '9');
    } else {
        lemma_dec_str_digits(n / 10);
        assert('0' <= digit_char(n % 10) && digit_char(n % 10) <= '9');
        assert forall|i: int| 0 <= i < dec_str(n).len() implies '0' <= #[trigger] dec_str(n)[i]
            && dec_str(n)[i] <= '9' by {
            if i < dec_str(n / 10).len() {
                assert(dec_str(n)[i] == dec_str(n / 10)[i]);
            } else {
                assert(dec_str(n)[i] == digit_char(n % 10));
            }
        }
    }
}

/// Appends the characters of `src` to `dst`.
pub fn append_chars(dst: &mut Vec<char>, src: &Vec<char>)
    ensures
        final(dst)@ == old(dst)@ + src@,
{
    let mut i: usize = 0;
    while i < src.len()
        invariant
            i <= src@.len(),
            dst@ =~= old(dst)@ + src@.subrange(0, i as int),
        decreases src@.len() - i,
    {
        dst.push(src[i]);
        i += 1;
    }
    proof {
        assert(dst@ =~= old(dst)@ + src@);
    }
}

/// The characters of `s`, in order.
pub fn str_to_chars(s: &str) -> (r: Vec<char>)
    ensures
        r@ == s@,
{
    let n = s.unicode_len();
    let mut out: Vec<char> = Vec::new();
    let mut i: usize = 0;
    while i < n
        invariant
            n == s@.len(),
            i <= n,
            out@ =~= s@.subrange(0, i as int),
        decreases n - i,
    {
        out.push(s.get_char(i));
        i += 1;
    }
    assert(s@.subrange(0, n as int) =~= s@);
    out
}

/// Element-wise equality of two character vectors.
pub fn chars_eq(a: &Vec<char>, b: &Vec<char>) -> (r: bool)
    ensures
        r == (a@ == b@),
{
    if a.len() != b.len() {
        return false;
    }
    let mut i: usize = 0;
    while i < a.len()
        invariant
            a@.len() == b@.len(),
            i <= a@.len(),
            forall|k: int| 0 <= k < i ==> a@[k] == b@[k],
        decreases a@.len() - i,
    {
        if a[i] != b[i] {
            return false;
        }
        i += 1;
    }
    proof {
        assert(a@ =~= b@);
    }
    true
}

/// Equality of a character vector and a string slice.
pub fn chars_eq_str(a: &Vec<char>, s: &str) -> (r: bool)
    ensures
        r == (a@ == s@),
{
    let n = s.unicode_len();
    if a.len() != n {
        return false;
    }
    let mut i: usize = 0;
    while i < n
        invariant
            n == s@.len(),
            a@.len() == n,
            i <= n,
            forall|k: int| 0 <= k < i ==> a@[k] == s@[k],
        decreases n - i,
    {
        if a[i] != s.get_char(i) {
            return false;
        }
        i += 1;
    }
    proof {
        assert(a@ =~= s@);
    }
    true
}

/// Equality of two string slices by characters.
pub fn str_eq(a: &str, b: &str) -> (r: bool)
    ensures
        r == (a@ == b@),
{
    let n = a.unicode_len();
    if b.unicode_len() != n {
        return false;
    }
    let mut i: usize = 0;
    while i < n
        invariant
            n == a@.len(),
            b@.len() == n,
            i <= n,
            forall|k: int| 0 <= k < i ==> a@[k] == b@[k],
        decreases n - i,
    {
        if a.get_char(i) != b.get_char(i) {
            return false;
        }
        i += 1;
    }
    proof {
        assert(a@ =~= b@);
    }
    true
}

/// The characters of `v` from `from` (inclusive) to `to` (exclusive).
pub fn subvec(v: &Vec<char>, from: usize, to: usize) -> (r: Vec<char>)
    requires
        from <= to <= v@.len(),
    ensures
        r@ == v@.subrange(from as int, to as int),
{
    let mut out: Vec<char> = Vec::new();
    let mut i: usize = from;
    while i < to
        invariant
            from <= i <= to <= v@.len(),
            out@ =~= v@.subrange(from as int, i as int),
        decreases to - i,
    {
        out.push(v[i]);
        i += 1;
    }
    out
}

/// The first position at or after `from` holding `c`, if any.
pub fn find_char(v: &Vec<char>, from: usize, c: char) -> (r: Option<usize>)
    requires
        from <= v@.len(),
    ensures
        match r {
            Some(j) => {
                &&& from <= j < v@.len()
                &&& v@[j as int] == c
                &&& forall|k: int| from <= k < j ==> v@[k] != c
            },
            None => forall|k: int| from <= k < v@.len() ==> v@[k] != c,
        },
{
    let mut i: usize = from;
    while i < v.len()
        invariant
            from <= i <= v@.len(),
            forall|k: int| from <= k < i ==> v@[k] != c,
        decreases v@.len() - i,
    {
        if v[i] == c {
            return Some(i);
        }
        i += 1;
    }
    None
}

/// `needle` occurs as a contiguous run inside `hay`.
pub open spec fn contains_seq(hay: Seq<char>, needle: Seq<char>) -> bool {
    exists|i: int|
        0 <= i && i + needle.len() <= hay.len() && #[trigger] hay.subrange(i, i + needle.len())
            == needle
}

/// Whether `needle` occurs starting at position `at` of `hay`.
fn matches_at(hay: &Vec<char>, needle: &Vec<char>, at: usize) -> (r: bool)
    requires
        at + needle@.len() <= hay@.len(),
    ensures
        r == (hay@.subrange(at as int, at + needle@.len()) == needle@),
{
    let nl = needle.len();
    let hl = hay.len();
    let mut j: usize = 0;
    while j < nl
        invariant
            nl == needle@.len(),
            hl == hay@.len(),
            at + nl <= hl,
            j <= nl,
            forall|k: int| 0 <= k < j ==> hay@[at + k] == needle@[k],
        decreases nl - j,
    {
        if hay[at + j] != needle[j] {
            proof {
                let jj = j as int;
                assert(hay@.subrange(at as int, at + needle@.len())[jj] != needle@[jj]);
            }
            return false;
        }
        j += 1;
    }
    proof {
        assert(hay@.subrange(at as int, at + needle@.len()) =~= needle@);
    }
    true
}

/// Whether `needle` occurs as a contiguous run inside `hay`.
pub fn contains_sub(hay: &Vec<char>, needle: &Vec<char>) -> (r: bool)
    ensures
        r == contains_seq(hay@, needle@),
{
    let nl = needle.len();
    if nl > hay.len() {
        assert(!contains_seq(hay@, needle@));
        return false;
    }
    if nl == 0 {
        proof {
            assert(hay@.subrange(0, 0 + needle@.len() as int) =~= needle@);
        }
        return true;
    }
    let end = hay.len() - nl + 1;
    let mut i: usize = 0;
    while i < end
        invariant
            1 <= nl == needle@.len(),
            nl <= hay@.len(),
            end == hay@.len() - nl + 1,
            i <= end,
            forall|p: int|
                0 <= p < i ==> #[trigger] hay@.subrange(p, p + needle@.len()) != needle@,
        decreases end - i,
    {
        if matches_at(hay, needle, i) {
            return true;
        }
        i += 1;
    }
    false
}

/// The ghost image of a list of character vectors.
pub open spec fn char_seqs(s: Seq<Vec<char>>) -> Seq<Seq<char>> {
    Seq::new(s.len(), |i: int| s[i]@)
}

/// The position of the first NUL character, or the length if there is none.
pub open spec fn first_nul(s: Seq<char>) -> int
    decreases s.len(),
{
    if s.len() == 0 {
        0
    } else if s[0] == '\0' {
        0
    } else {
        1 + first_nul(s.drop_first())
    }
}

/// A position holding NUL, with none before it, is the first.
pub proof fn lemma_first_nul_agrees(s: Seq<char>, j: int)
    requires
        0 <= j <= s.len(),
        j < s.len() ==> s[j] == '\0',
        forall|k: int| 0 <= k < j ==> s[k] != '\0',
        j == s.len() ==> forall|k: int| 0 <= k < s.len() ==> s[k] != '\0',
    ensures
        first_nul(s) == j,
    decreases s.len(),
{
    if s.len() > 0 && s[0] != '\0' {
        lemma_first_nul_agrees(s.drop_first(), j - 1);
    }
}

/// The non-empty runs of a NUL-separated multi-string, in order.  Only runs
/// closed by a NUL count; trailing characters without one are dropped, and
/// empty runs contribute nothing.
pub open spec fn split_nul(s: Seq<char>) -> Seq<Seq<char>>
    decreases s.len(),
{
    let j = first_nul(s);
    if !(0 <= j < s.len()) {
        Seq::empty()
    } else {
        (if j > 0 {
            seq![s.subrange(0, j)]
        } else {
            Seq::<Seq<char>>::empty()
        }) + split_nul(s.subrange(j + 1, s.len() as int))
    }
}

/// Splits a NUL-separated multi-string into its non-empty runs.
pub fn split_nul_str(s: &str) -> (r: Vec<Vec<char>>)
    ensures
        char_seqs(r@) == split_nul(s@),
{
    let v = str_to_chars(s);
    let mut out: Vec<Vec<char>> = Vec::new();
    let mut i: usize = 0;
    proof {
        assert(v@.skip(0) =~= v@);
        assert(char_seqs(out@) =~= Seq::<Seq<char>>::empty());
    }
    while i < v.len()
        invariant
            v@ == s@,
            i <= v@.len(),
            split_nul(s@) =~= char_seqs(out@) + split_nul(v@.skip(i as int)),
        decreases v@.len() - i,
    {
        let ghost rem = v@.skip(i as int);
        let ghost out0 = out@;
        match find_char(&v, i, '\0') {
            None => {
                proof {
                    lemma_first_nul_agrees(rem, rem.len() as int);
                }
                i = v.len();
            },
            Some(j) => {
                let ghost i0 = i as int;
                proof {
                    lemma_first_nul_agrees(rem, j - i0);
                }
                if j > i {
                    let seg = subvec(&v, i, j);
                    proof {
                        assert(seg@ =~= rem.subrange(0, j - i0));
                    }
                    out.push(seg);
                    proof {
                        assert(char_seqs(out@) =~= char_seqs(out0) + seq![
                            rem.subrange(0, j - i0),
                        ]);
                    }
                }
                i = j + 1;
                proof {
                    assert(v@.skip(i as int) =~= rem.subrange(j - i0 + 1, rem.len() as int));
                }
            },
        }
    }
    proof {
        assert(v@.skip(v@.len() as int) =~= Seq::<char>::empty());
        assert(split_nul(s@) =~= char_seqs(out@));
    }
    out
}

/// ASCII lower-casing of one character; other characters are unchanged.
pub open spec fn ascii_lower_char(c: char) -> char {
    if 'A' <= c && c <= 'Z' {
        (((c as u32) + 32) as u8) as char
    } else {
        c
    }
}

/// ASCII lower-casing of a character sequence.
pub open spec fn ascii_lower(s: Seq<char>) -> Seq<char> {
    s.map_values(|c: char| ascii_lower_char(c))
}

/// ASCII upper-casing of one character; other characters are unchanged.
pub open spec fn ascii_upper_char(c: char) -> char {
    if 'a' <= c && c <= 'z' {
        (((c as u32) - 32) as u8) as char
    } else {
        c
    }
}

/// ASCII upper-casing of a character sequence.
pub open spec fn ascii_upper(s: Seq<char>) -> Seq<char> {
    s.map_values(|c: char| ascii_upper_char(c))
}

/// ASCII lower-casing of a character vector.
pub fn chars_to_lower(v: &Vec<char>) -> (r: Vec<char>)
    ensures
        r@ == ascii_lower(v@),
{
    let mut out: Vec<char> = Vec::new();
    let mut i: usize = 0;
    while i < v.len()
        invariant
            i <= v@.len(),
            out@.len() == i,
            forall|k: int| 0 <= k < i ==> out@[k] == ascii_lower_char(v@[k]),
        decreases v@.len() - i,
    {
        let c = v[i];
        let code = c as u32;
        if 65 <= code && code <= 90 {
            out.push(((code + 32) as u8) as char);
        } else {
            out.push(c);
        }
        i += 1;
    }
    proof {
        assert(out@ =~= ascii_lower(v@));
    }
    out
}

/// ASCII upper-casing of a character vector.
pub fn chars_to_upper(v: &Vec<char>) -> (r: Vec<char>)
    ensures
        r@ == ascii_upper(v@),
{
    let mut out: Vec<char> = Vec::new();
    let mut i: usize = 0;
    while i < v.len()
        invariant
            i <= v@.len(),
            out@.len() == i,
            forall|k: int| 0 <= k < i ==> out@[k] == ascii_upper_char(v@[k]),
        decreases v@.len() - i,
    {
        let c = v[i];
        let code = c as u32;
        if 97 <= code && code <= 122 {
            out.push(((code - 32) as u8) as char);
        } else {
            out.push(c);
        }
        i += 1;
    }
    proof {
        assert(out@ =~= ascii_upper(v@));
    }
    out
}

} // verus!
