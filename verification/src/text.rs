//! Character-level text operations that the page and the negotiation
//! are built from, each with its meaning as a function on `Seq<char>`.

use vstd::prelude::*;

verus! {

/// `pat` occurs in `s` starting at index `i`.
pub open spec fn occurs_at(s: Seq<char>, pat: Seq<char>, i: int) -> bool {
    &&& 0 <= i
    &&& i + pat.len() <= s.len()
    &&& s.subrange(i, i + pat.len()) == pat
}

/// `s` ends with `suffix`.
pub open spec fn has_suffix(s: Seq<char>, suffix: Seq<char>) -> bool {
    occurs_at(s, suffix, s.len() - suffix.len())
}

/// `needle` occurs somewhere in `s` (the empty needle occurs everywhere).
pub open spec fn has_infix(s: Seq<char>, needle: Seq<char>) -> bool {
    exists|i: int| occurs_at(s, needle, i)
}

/// Every non-overlapping occurrence of `pat` in `s`, scanned from the
/// left, replaced by `rep`; the meaning of `str::replace` for a
/// non-empty pattern.
pub open spec fn replace_all(s: Seq<char>, pat: Seq<char>, rep: Seq<char>) -> Seq<char>
    decreases s.len(),
{
    if s.len() == 0 || pat.len() == 0 {
        s
    } else if occurs_at(s, pat, 0) {
        rep + replace_all(s.skip(pat.len() as int), pat, rep)
    } else {
        seq![s[0]] + replace_all(s.skip(1), pat, rep)
    }
}

/// The characters of `s`, in order.
pub fn chars_of(s: &str) -> (v: Vec<char>)
    ensures
        v@ == s@,
{
    let mut v: Vec<char> = Vec::new();
    for c in it: s.chars()
        invariant
            it.seq() == s@,
            v@ == it.seq().take(it.index() as int),
    {
        v.push(c);
    }
    v
}

/// `String::push` from std: appends one character.
#[verifier::external_body]
pub(crate) fn push_char(s: &mut String, c: char)
    ensures
        final(s)@ == old(s)@.push(c),
{
    s.push(c);
}

/// Whether `pat` occurs in `s` at index `i`.
pub(crate) fn matches_at(s: &Vec<char>, pat: &Vec<char>, i: usize) -> (b: bool)
    ensures
        b == occurs_at(s@, pat@, i as int),
{
    if i > s.len() || pat.len() > s.len() - i {
        return false;
    }
    let mut j: usize = 0;
    while j < pat.len()
        invariant
            i + pat.len() <= s.len(),
            j <= pat.len(),
            forall|k: int| 0 <= k < j ==> s@[i + k] == pat@[k],
        decreases pat.len() - j,
    {
        if s[i + j] != pat[j] {
            assert(s@.subrange(i as int, i + pat.len())[j as int] != pat@[j as int]);
            return false;
        }
        j = j + 1;
    }
    assert(s@.subrange(i as int, i + pat.len()) =~= pat@);
    true
}

/// Whether `s` ends with `suffix`, as `str::ends_with`.
pub fn ends_with(s: &str, suffix: &str) -> (b: bool)
    ensures
        b == has_suffix(s@, suffix@),
{
    let sv = chars_of(s);
    let pv = chars_of(suffix);
    if pv.len() > sv.len() {
        return false;
    }
    matches_at(&sv, &pv, sv.len() - pv.len())
}

/// Whether `needle` occurs in `s`, as `str::contains` with a string
/// pattern.
pub fn contains(s: &str, needle: &str) -> (b: bool)
    ensures
        b == has_infix(s@, needle@),
{
    let sv = chars_of(s);
    let pv = chars_of(needle);
    if pv.len() > sv.len() {
        return false;
    }
    let last = sv.len() - pv.len();
    let mut i: usize = 0;
    loop
        invariant
            i <= last,
            last == sv@.len() - pv@.len(),
            sv@ == s@,
            pv@ == needle@,
            forall|k: int| 0 <= k < i ==> !occurs_at(s@, needle@, k),
        ensures
            forall|k: int| 0 <= k <= last ==> !occurs_at(s@, needle@, k),
        decreases last - i,
    {
        if matches_at(&sv, &pv, i) {
            return true;
        }
        if i == last {
            break;
        }
        i = i + 1;
    }
    assert forall|k: int| !occurs_at(s@, needle@, k) by {
        if 0 <= k <= last {
        }
    }
    false
}

/// The decimal digit `d` (0 to 9) as a character.
pub open spec fn digit_char(d: int) -> char {
    if d <= 0 {
        '0'
    } else if d == 1 {
        '1'
    } else if d == 2 {
        '2'
    } else if d == 3 {
        '3'
    } else if d == 4 {
        '4'
    } else if d == 5 {
        '5'
    } else if d == 6 {
        '6'
    } else if d == 7 {
        '7'
    } else if d == 8 {
        '8'
    } else {
        '9'
    }
}

/// The decimal numeral of `n`, without leading zeros.
pub open spec fn decimal(n: nat) -> Seq<char>
    decreases n,
{
    if n < 10 {
        seq![digit_char(n as int)]
    } else {
        decimal(n / 10).push(digit_char((n % 10) as int))
    }
}

/// The decimal numeral of `i`, with a leading `-` when negative; what
/// `Display` prints for an integer.
pub open spec fn signed_decimal(i: int) -> Seq<char> {
    if i < 0 {
        seq!['-'] + decimal((-i) as nat)
    } else {
        decimal(i as nat)
    }
}

fn digit(d: u64) -> (c: char)
    requires
        d < 10,
    ensures
        c == digit_char(d as int),
{
    if d == 0 {
        '0'
    } else if d == 1 {
        '1'
    } else if d == 2 {
        '2'
    } else if d == 3 {
        '3'
    } else if d == 4 {
        '4'
    } else if d == 5 {
        '5'
    } else if d == 6 {
        '6'
    } else if d == 7 {
        '7'
    } else if d == 8 {
        '8'
    } else {
        '9'
    }
}

/// Appends the decimal numeral of `n` to `out`.
pub fn push_decimal(out: &mut String, n: u64)
    ensures
        final(out)@ == old(out)@ + decimal(n as nat),
    decreases n,
{
    if n >= 10 {
        push_decimal(out, n / 10);
    }
    push_char(out, digit(n % 10));
    assert(final(out)@ =~= old(out)@ + decimal(n as nat));
}

/// Appends the decimal numeral of `i`, signed, to `out`, as
/// `format!("{}", i)` writes it.
pub fn push_signed_decimal(out: &mut String, i: i64)
    ensures
        final(out)@ == old(out)@ + signed_decimal(i as int),
{
    if i < 0 {
        push_char(out, '-');
        let magnitude: u64 = ((-(i + 1)) as u64) + 1;
        push_decimal(out, magnitude);
        assert(final(out)@ =~= old(out)@ + signed_decimal(i as int));
    } else {
        push_decimal(out, i as u64);
    }
}

/// Law: `s` ends with `x` exactly when `x` is no longer than `s` and
/// its characters equal the last characters of `s`, one by one.
pub proof fn law_suffix_is_trailing_match(s: Seq<char>, x: Seq<char>)
    ensures
        has_suffix(s, x) <==> (x.len() <= s.len() && forall|i: int|
            0 <= i < x.len() ==> s[s.len() - x.len() + i] == x[i]),
{
    if x.len() <= s.len() {
        let t = s.subrange(s.len() - x.len(), s.len() as int);
        if forall|i: int| 0 <= i < x.len() ==> s[s.len() - x.len() + i] == x[i] {
            assert(t =~= x);
        }
        if t == x {
            assert forall|i: int| 0 <= i < x.len() implies s[s.len() - x.len() + i] == x[i] by {
                assert(t[i] == s[s.len() - x.len() + i]);
            }
        }
    }
}

/// The characters of `x` equal, one by one, those of `s` from
/// position `j` on.
pub open spec fn chars_equal_from(s: Seq<char>, x: Seq<char>, j: int) -> bool {
    &&& 0 <= j
    &&& j + x.len() <= s.len()
    &&& forall|i: int| 0 <= i < x.len() ==> s[j + i] == #[trigger] x[i]
}

/// Law: `x` occurs in `s` exactly when, at some position, the
/// characters of `s` equal those of `x`, one by one.
pub proof fn law_infix_is_some_match(s: Seq<char>, x: Seq<char>)
    ensures
        has_infix(s, x) <==> exists|j: int| #[trigger] chars_equal_from(s, x, j),
{
    if has_infix(s, x) {
        let j = choose|j: int| occurs_at(s, x, j);
        assert forall|i: int| 0 <= i < x.len() implies s[j + i] == #[trigger] x[i] by {
            assert(s.subrange(j, j + x.len())[i] == s[j + i]);
        }
        assert(chars_equal_from(s, x, j));
    }
    if exists|j: int| #[trigger] chars_equal_from(s, x, j) {
        let j = choose|j: int| #[trigger] chars_equal_from(s, x, j);
        assert(s.subrange(j, j + x.len()) =~= x);
        assert(occurs_at(s, x, j));
    }
}

/// The number a string of decimal digits stands for, read from the
/// left.
pub open spec fn digits_value(s: Seq<char>) -> int
    decreases s.len(),
{
    if s.len() == 0 {
        0
    } else {
        digits_value(s.drop_last()) * 10 + (s.last() as int - '0' as int)
    }
}

/// Law: the decimal numeral of `n` is made of digits `0` to `9` only,
/// has no leading zero (but for `0` itself), and reads back as `n`.
pub proof fn law_decimal_reads_back(n: nat)
    ensures
        decimal(n).len() > 0,
        forall|i: int| 0 <= i < decimal(n).len() ==> '0' <= #[trigger] decimal(n)[i] <= '9',
        n > 0 ==> decimal(n)[0] != '0',
        digits_value(decimal(n)) == n,
    decreases n,
{
    if n < 10 {
        let s = decimal(n);
        assert(s.drop_last() =~= Seq::<char>::empty());
        assert(digits_value(s.drop_last()) == 0);
    } else {
        law_decimal_reads_back(n / 10);
        let p = decimal(n / 10);
        let s = decimal(n);
        assert(s == p.push(digit_char((n % 10) as int)));
        assert(s.drop_last() =~= p);
        assert(s[0] == p[0]);
        assert forall|i: int| 0 <= i < s.len() implies '0' <= #[trigger] s[i] <= '9' by {
            if i < p.len() {
                assert(s[i] == p[i]);
            }
        }
    }
}

/// Law: a negative number is written as `-` and the numeral of its
/// magnitude, any other as its numeral alone.
pub proof fn law_signed_decimal_sign(i: int)
    ensures
        i < 0 ==> signed_decimal(i) == seq!['-'] + decimal((-i) as nat),
        i >= 0 ==> signed_decimal(i) == decimal(i as nat),
        i < 0 ==> signed_decimal(i)[0] == '-',
        i >= 0 ==> digits_value(signed_decimal(i)) == i,
{
    if i >= 0 {
        law_decimal_reads_back(i as nat);
    }
}

} // verus!
