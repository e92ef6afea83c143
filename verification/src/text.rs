//! Character-level helpers: whitespace classification, trimming, and
//! rendering numbers as decimal digit sequences.

use vstd::prelude::*;

verus! {

/// The characters with the Unicode `White_Space` property, the ones
/// `str::trim` strips.
pub open spec fn whitespace(c: char) -> bool {
    ||| 0x9 <= (c as u32) <= 0xd
    ||| c == ' '
    ||| (c as u32) == 0x85
    ||| (c as u32) == 0xa0
    ||| (c as u32) == 0x1680
    ||| 0x2000 <= (c as u32) <= 0x200a
    ||| (c as u32) == 0x2028
    ||| (c as u32) == 0x2029
    ||| (c as u32) == 0x202f
    ||| (c as u32) == 0x205f
    ||| (c as u32) == 0x3000
}

/// Decides the `whitespace` predicate.
pub fn is_whitespace_char(c: char) -> (r: bool)
    ensures
        r == whitespace(c),
{
    let n = c as u32;
    (0x9 <= n && n <= 0xd) || n == 0x20 || n == 0x85 || n == 0xa0 || n == 0x1680 || (0x2000 <= n
        && n <= 0x200a) || n == 0x2028 || n == 0x2029 || n == 0x202f || n == 0x205f || n == 0x3000
}

/// `s` without its leading whitespace.
pub open spec fn trim_front(s: Seq<char>) -> Seq<char>
    decreases s.len(),
{
    if s.len() > 0 && whitespace(s[0]) {
        trim_front(s.drop_first())
    } else {
        s
    }
}

/// `s` without its trailing whitespace.
pub open spec fn trim_back(s: Seq<char>) -> Seq<char>
    decreases s.len(),
{
    if s.len() > 0 && whitespace(s.last()) {
        trim_back(s.drop_last())
    } else {
        s
    }
}

/// `s` without leading and trailing whitespace, as `str::trim` yields it.
pub open spec fn trimmed(s: Seq<char>) -> Seq<char> {
    trim_back(trim_front(s))
}

/// Strips leading and trailing whitespace from `v`.
pub fn trim(v: &Vec<char>) -> (r: Vec<char>)
    ensures
        r@ == trimmed(v@),
{
    let mut start: usize = 0;
    assert(v@.skip(0) =~= v@);
    while start < v.len() && is_whitespace_char(v[start])
        invariant
            start <= v@.len(),
            trim_front(v@) == trim_front(v@.skip(start as int)),
        decreases v@.len() - start,
    {
        assert(v@.skip(start as int).drop_first() =~= v@.skip(start + 1));
        start = start + 1;
    }
    assert(trim_front(v@) == v@.skip(start as int));
    let ghost f = trim_front(v@);
    let mut end: usize = v.len();
    assert(f.take(end - start) =~= f);
    while end > start && is_whitespace_char(v[end - 1])
        invariant
            start <= end <= v@.len(),
            f == v@.skip(start as int),
            trim_back(f) == trim_back(f.take(end - start)),
        decreases end,
    {
        assert(f.take(end - start).last() == v@[end - 1]);
        assert(f.take(end - start).drop_last() =~= f.take(end - 1 - start));
        end = end - 1;
    }
    assert(trim_back(f) == f.take(end - start));
    let mut r: Vec<char> = Vec::new();
    let mut i: usize = start;
    while i < end
        invariant
            start <= i <= end <= v@.len(),
            f == v@.skip(start as int),
            r@ == f.take(i - start),
        decreases end - i,
    {
        let c = v[i];
        r.push(c);
        assert(r@ =~= f.take(i + 1 - start));
        i = i + 1;
    }
    r
}

/// The digit character for a value below ten.
pub open spec fn digit_char(d: int) -> char {
    if d == 0 {
        '0'
    } else if d == 1 {
        '1'
    } else if d == 2 {
        '2'
    } else if d == 3 {
        '3'
    } else if d == 4 {
        '4'
    } else if d == 5 {
        '5'
    } else if d == 6 {
        '6'
    } else if d == 7 {
        '7'
    } else if d == 8 {
        '8'
    } else {
        '9'
    }
}

/// The decimal digits of `n`, most significant first.
pub open spec fn dec_digits(n: nat) -> Seq<char>
    decreases n,
{
    if n < 10 {
        seq![digit_char(n as int)]
    } else {
        dec_digits(n / 10).push(digit_char((n % 10) as int))
    }
}

/// Ten to the `k`.
pub open spec fn pow10(k: nat) -> nat
    decreases k,
{
    if k == 0 {
        1
    } else {
        10 * pow10((k - 1) as nat)
    }
}

/// A number below `pow10(k)` has at most `k` decimal digits.
pub proof fn lemma_dec_digits_len(n: nat, k: nat)
    requires
        k >= 1,
        n < pow10(k),
    ensures
        1 <= dec_digits(n).len() <= k,
    decreases k,
{
    if n >= 10 {
        assert(pow10(k) == 10 * pow10((k - 1) as nat));
        assert(n / 10 < pow10((k - 1) as nat)) by (nonlinear_arith)
            requires
                n < 10 * pow10((k - 1) as nat),
        ;
        assert(k >= 2) by {
            if k == 1 {
                assert(pow10(1) == 10);
            }
        }
        lemma_dec_digits_len(n / 10, (k - 1) as nat);
    }
}

/// Any machine word has at most twenty decimal digits.
pub proof fn lemma_dec_digits_len_usize(n: usize)
    ensures
        1 <= dec_digits(n as nat).len() <= 20,
{
    assert(pow10(20) == 100000000000000000000) by {
        reveal_with_fuel(pow10, 21);
    }
    assert(n < pow10(20));
    lemma_dec_digits_len(n as nat, 20);
}

/// Returns the digit character for `d`.
pub fn to_digit_char(d: usize) -> (r: char)
    requires
        d < 10,
    ensures
        r == digit_char(d as int),
{
    match d {
        0 => '0',
        1 => '1',
        2 => '2',
        3 => '3',
        4 => '4',
        5 => '5',
        6 => '6',
        7 => '7',
        8 => '8',
        _ => '9',
    }
}

/// Renders `n` in decimal, most significant digit first.
pub fn decimal_digits(n: usize) -> (r: Vec<char>)
    ensures
        r@ == dec_digits(n as nat),
    decreases n,
{
    if n < 10 {
        let mut v: Vec<char> = Vec::new();
        v.push(to_digit_char(n));
        assert(v@ =~= seq![digit_char(n as int)]);
        v
    } else {
        let mut v = decimal_digits(n / 10);
        v.push(to_digit_char(n % 10));
        v
    }
}

/// Counts the decimal digits of `n`.
pub fn count_digits(n: usize) -> (r: u16)
    ensures
        r == dec_digits(n as nat).len(),
        1 <= r <= 20,
    decreases n,
{
    proof {
        lemma_dec_digits_len_usize(n);
    }
    if n < 10 {
        1
    } else {
        1 + count_digits(n / 10)
    }
}

/// The first index at or after `from` holding whitespace, if any.
pub open spec fn first_ws(l: Seq<char>, from: nat) -> Option<nat>
    decreases l.len() - from,
{
    if from >= l.len() {
        None
    } else if whitespace(l[from as int]) {
        Some(from)
    } else {
        first_ws(l, from + 1)
    }
}

/// The last index below `end` holding whitespace, if any.
pub open spec fn last_ws_before(l: Seq<char>, end: nat) -> Option<nat>
    recommends
        end <= l.len(),
    decreases end,
{
    if end == 0 || end > l.len() {
        None
    } else if whitespace(l[end - 1]) {
        Some((end - 1) as nat)
    } else {
        last_ws_before(l, (end - 1) as nat)
    }
}

/// Scans forward for the first whitespace at or after `from`.
pub fn find_ws(l: &Vec<char>, from: usize) -> (r: Option<usize>)
    ensures
        (match r {
            Some(k) => first_ws(l@, from as nat) == Some(k as nat) && from <= k < l@.len(),
            None => first_ws(l@, from as nat) is None,
        }),
{
    let mut j = from;
    while j < l.len() && !is_whitespace_char(l[j])
        invariant
            from <= j,
            first_ws(l@, from as nat) == first_ws(l@, j as nat),
        decreases l@.len() - j,
    {
        j = j + 1;
    }
    if j < l.len() {
        Some(j)
    } else {
        None
    }
}

/// Scans backward for the last whitespace below `end`.
pub fn rfind_ws(l: &Vec<char>, end: usize) -> (r: Option<usize>)
    requires
        end <= l@.len(),
    ensures
        (match r {
            Some(k) => last_ws_before(l@, end as nat) == Some(k as nat) && k < end,
            None => last_ws_before(l@, end as nat) is None,
        }),
{
    let mut j = end;
    while j > 0 && !is_whitespace_char(l[j - 1])
        invariant
            j <= end <= l@.len(),
            last_ws_before(l@, end as nat) == last_ws_before(l@, j as nat),
        decreases j,
    {
        j = j - 1;
    }
    if j > 0 {
        Some(j - 1)
    } else {
        None
    }
}

/// `n` spaces.
pub open spec fn blanks(n: nat) -> Seq<char> {
    Seq::new(n, |i: int| ' ')
}

/// Builds `n` spaces.
pub fn make_blanks(n: usize) -> (r: Vec<char>)
    ensures
        r@ == blanks(n as nat),
{
    let mut r: Vec<char> = Vec::new();
    let mut i: usize = 0;
    while i < n
        invariant
            i <= n,
            r@ == blanks(i as nat),
        decreases n - i,
    {
        r.push(' ');
        assert(r@ =~= blanks((i + 1) as nat));
        i = i + 1;
    }
    r
}

} // verus!
