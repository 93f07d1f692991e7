//! Character-level helpers on strings: copying, whitespace and trimming.

use vstd::prelude::*;

verus! {

/// Relies on `String::push`: appends one character at the end.
pub assume_specification[ String::push ](s: &mut String, ch: char)
    ensures
        final(s)@ == old(s)@.push(ch),
;

/// The characters of `s`, one element each.
pub fn chars_of(s: &str) -> (r: Vec<char>)
    ensures
        r@ == s@,
{
    let mut r: Vec<char> = Vec::new();
    for c in it: s.chars()
        invariant
            r@ == it.seq().take(it.index() as int),
    {
        r.push(c);
    }
    r
}

/// Unicode `White_Space`, the property that `char::is_whitespace` tests.
pub open spec fn is_white(c: char) -> bool {
    let u = c as u32;
    (0x9 <= u && u <= 0xd) || u == 0x20 || u == 0x85 || u == 0xa0 || u == 0x1680 || (0x2000 <= u
        && u <= 0x200a) || u == 0x2028 || u == 0x2029 || u == 0x202f || u == 0x205f || u == 0x3000
}

/// `s` without its leading whitespace.
pub open spec fn trim_start(s: Seq<char>) -> Seq<char>
    decreases s.len(),
{
    if s.len() > 0 && is_white(s[0]) {
        trim_start(s.drop_first())
    } else {
        s
    }
}

/// `s` without its trailing whitespace.
pub open spec fn trim_end(s: Seq<char>) -> Seq<char>
    decreases s.len(),
{
    if s.len() > 0 && is_white(s.last()) {
        trim_end(s.drop_last())
    } else {
        s
    }
}

/// `s` without leading and trailing whitespace.
pub open spec fn trimmed(s: Seq<char>) -> Seq<char> {
    trim_end(trim_start(s))
}

pub fn is_white_char(c: char) -> (r: bool)
    ensures
        r == is_white(c),
{
    let u = c as u32;
    (0x9 <= u && u <= 0xd) || u == 0x20 || u == 0x85 || u == 0xa0 || u == 0x1680 || (0x2000 <= u
        && u <= 0x200a) || u == 0x2028 || u == 0x2029 || u == 0x202f || u == 0x205f || u == 0x3000
}

/// A string holding `v[from..to]`.
pub fn string_of(v: &Vec<char>, from: usize, to: usize) -> (r: String)
    requires
        from <= to <= v.len(),
    ensures
        r@ == v@.subrange(from as int, to as int),
{
    let mut r = String::new();
    let mut k = from;
    while k < to
        invariant
            from <= k <= to <= v.len(),
            r@ == v@.subrange(from as int, k as int),
        decreases to - k,
    {
        r.push(v[k]);
        k = k + 1;
        assert(r@ =~= v@.subrange(from as int, k as int));
    }
    r
}

/// Whether two character sequences are equal.
pub fn same_chars(a: &Vec<char>, b: &Vec<char>) -> (r: bool)
    ensures
        r == (a@ == b@),
{
    if a.len() != b.len() {
        return false;
    }
    let mut k: usize = 0;
    while k < a.len()
        invariant
            a.len() == b.len(),
            k <= a.len(),
            a@.take(k as int) == b@.take(k as int),
        decreases a.len() - k,
    {
        if a[k] != b[k] {
            assert(a@[k as int] != b@[k as int]);
            return false;
        }
        assert(a@.take(k + 1) =~= a@.take(k as int).push(a@[k as int]));
        assert(b@.take(k + 1) =~= b@.take(k as int).push(b@[k as int]));
        k = k + 1;
    }
    assert(a@ =~= a@.take(a.len() as int));
    assert(b@ =~= b@.take(b.len() as int));
    true
}

/// Whether `s` equals `t`.
pub fn same_text(s: &str, t: &str) -> (r: bool)
    ensures
        r == (s@ == t@),
{
    same_chars(&chars_of(s), &chars_of(t))
}

/// The copy of `s` without leading and trailing whitespace.
pub fn trim(s: &str) -> (r: String)
    ensures
        r@ == trimmed(s@),
{
    let v = chars_of(s);
    let n = v.len();
    let mut a: usize = 0;
    assert(v@.subrange(0, n as int) =~= v@);
    while a < n && is_white_char(v[a])
        invariant
            a <= n == v.len(),
            trim_start(v@) == trim_start(v@.subrange(a as int, n as int)),
        decreases n - a,
    {
        assert(v@.subrange(a as int, n as int).drop_first() =~= v@.subrange(a + 1, n as int));
        a = a + 1;
    }
    assert(trim_start(v@) == v@.subrange(a as int, n as int));
    let mut b: usize = n;
    while b > a && is_white_char(v[b - 1])
        invariant
            a <= b <= n == v.len(),
            trim_end(v@.subrange(a as int, n as int)) == trim_end(v@.subrange(a as int, b as int)),
        decreases b,
    {
        assert(v@.subrange(a as int, b as int).drop_last() =~= v@.subrange(a as int, b - 1));
        b = b - 1;
    }
    string_of(&v, a, b)
}

/// Whether `p` is a prefix of `s`.
pub open spec fn is_prefix(p: Seq<char>, s: Seq<char>) -> bool {
    p.len() <= s.len() && s.take(p.len() as int) == p
}

/// Whether `p` is a suffix of `s`.
pub open spec fn is_suffix(p: Seq<char>, s: Seq<char>) -> bool {
    p.len() <= s.len() && s.skip(s.len() - p.len()) == p
}

/// Whether `p` stands in `v` at `k`.
pub fn occurs_at(v: &Vec<char>, p: &Vec<char>, k: usize) -> (r: bool)
    requires
        k <= v.len(),
    ensures
        r == is_prefix(p@, v@.skip(k as int)),
{
    if p.len() > v.len() - k {
        return false;
    }
    let mut i: usize = 0;
    while i < p.len()
        invariant
            k + p.len() <= v.len(),
            i <= p.len(),
            v@.subrange(k as int, k + i) == p@.take(i as int),
        decreases p.len() - i,
    {
        if v[k + i] != p[i] {
            assert(v@.skip(k as int).take(p.len() as int)[i as int] != p@[i as int]);
            return false;
        }
        assert(v@.subrange(k as int, k + i + 1) =~= v@.subrange(k as int, k + i).push(v@[k + i]));
        assert(p@.take(i + 1) =~= p@.take(i as int).push(p@[i as int]));
        i = i + 1;
    }
    assert(p@.take(p.len() as int) =~= p@);
    assert(v@.skip(k as int).take(p.len() as int) =~= v@.subrange(k as int, k + p.len()));
    true
}

/// Whether `p` is a prefix of `v`.
pub fn starts_with(v: &Vec<char>, p: &Vec<char>) -> (r: bool)
    ensures
        r == is_prefix(p@, v@),
{
    assert(v@.skip(0) =~= v@);
    occurs_at(v, p, 0)
}

/// Whether `p` is a suffix of `v`.
pub fn ends_with(v: &Vec<char>, p: &Vec<char>) -> (r: bool)
    ensures
        r == is_suffix(p@, v@),
{
    if p.len() > v.len() {
        return false;
    }
    let k = v.len() - p.len();
    let r = occurs_at(v, p, k);
    assert(v@.skip(k as int).take(p.len() as int) =~= v@.skip(k as int));
    r
}

/// The characters `v[from..to]`.
pub fn sub_chars(v: &Vec<char>, from: usize, to: usize) -> (r: Vec<char>)
    requires
        from <= to <= v.len(),
    ensures
        r@ == v@.subrange(from as int, to as int),
{
    let mut r: Vec<char> = Vec::new();
    let mut k = from;
    while k < to
        invariant
            from <= k <= to <= v.len(),
            r@ == v@.subrange(from as int, k as int),
        decreases to - k,
    {
        r.push(v[k]);
        k = k + 1;
        assert(r@ =~= v@.subrange(from as int, k as int));
    }
    r
}

/// `s` without `m` at its end, when it ends with `m`.
pub open spec fn without_suffix(s: Seq<char>, m: Seq<char>) -> Seq<char> {
    if is_suffix(m, s) {
        s.take(s.len() - m.len())
    } else {
        s
    }
}

/// The copy of `s` without `m` at its end, when it ends with `m`.
pub fn strip_suffix(s: &str, m: &str) -> (r: String)
    ensures
        r@ == without_suffix(s@, m@),
{
    let v = chars_of(s);
    let mv = chars_of(m);
    if ends_with(&v, &mv) {
        string_of(&v, 0, v.len() - mv.len())
    } else {
        string_of(&v, 0, v.len())
    }
}

/// The decimal digit for `d`.
pub open spec fn digit_char(d: nat) -> char {
    (('0' as u32) + d) as char
}

/// The decimal digits of `n`, without leading zeros.
pub open spec fn digits_of(n: nat) -> Seq<char>
    decreases n,
{
    if n < 10 {
        seq![digit_char(n)]
    } else {
        digits_of(n / 10).push(digit_char(n % 10))
    }
}

/// The decimal form of `n`, with a minus sign when it is negative.
pub open spec fn decimal_of(n: int) -> Seq<char> {
    if n < 0 {
        seq!['-'] + digits_of((-n) as nat)
    } else {
        digits_of(n as nat)
    }
}

fn push_digits(r: &mut String, n: u64)
    ensures
        final(r)@ == old(r)@ + digits_of(n as nat),
    decreases n,
{
    let d = ((n % 10) as u32 + ('0' as u32)) as u8 as char;
    assert(d == digit_char((n % 10) as nat));
    if n >= 10 {
        push_digits(r, n / 10);
    }
    r.push(d);
    assert(final(r)@ =~= old(r)@ + digits_of(n as nat));
}

/// The decimal form of `n`.
pub fn decimal(n: i32) -> (r: String)
    ensures
        r@ == decimal_of(n as int),
{
    let mut r = String::new();
    let m = n as i64;
    if m < 0 {
        r.push('-');
        push_digits(&mut r, (-m) as u64);
    } else {
        push_digits(&mut r, m as u64);
    }
    assert(r@ =~= decimal_of(n as int));
    r
}

/// What `str::to_lowercase` makes of `s`.
pub uninterp spec fn lower_of(s: Seq<char>) -> Seq<char>;

/// Relies on `str::to_lowercase`, whose result depends on the characters of
/// `s` alone.
#[verifier::external_body]
pub(crate) fn lowercase(s: &str) -> (r: String)
    ensures
        r@ == lower_of(s@),
{
    s.to_lowercase()
}

/// The run of non-whitespace characters that ends `t`.
pub open spec fn trailing_word(t: Seq<char>) -> Seq<char>
    decreases t.len(),
{
    if t.len() == 0 || is_white(t.last()) {
        Seq::empty()
    } else {
        trailing_word(t.drop_last()).push(t.last())
    }
}

/// The last whitespace-separated word of `s`, empty when `s` has none.
pub open spec fn last_word_of(s: Seq<char>) -> Seq<char> {
    trailing_word(trim_end(s))
}

/// The last whitespace-separated word of `s`.
pub fn last_word(s: &str) -> (r: String)
    ensures
        r@ == last_word_of(s@),
{
    let v = chars_of(s);
    let n = v.len();
    let mut b: usize = n;
    assert(v@.subrange(0, n as int) =~= v@);
    while b > 0 && is_white_char(v[b - 1])
        invariant
            b <= n == v.len(),
            trim_end(v@) == trim_end(v@.subrange(0, b as int)),
        decreases b,
    {
        assert(v@.subrange(0, b as int).drop_last() =~= v@.subrange(0, b - 1));
        b = b - 1;
    }
    let ghost t = v@.subrange(0, b as int);
    assert(trim_end(v@) == t);
    let mut a: usize = b;
    assert(t =~= v@.subrange(0, a as int));
    assert(v@.subrange(a as int, b as int) =~= Seq::<char>::empty());
    assert(trailing_word(t) =~= trailing_word(v@.subrange(0, a as int)) + v@.subrange(a as int, b as int));
    while a > 0 && !is_white_char(v[a - 1])
        invariant
            a <= b <= n == v.len(),
            t == v@.subrange(0, b as int),
            trailing_word(t) == trailing_word(v@.subrange(0, a as int)) + v@.subrange(a as int, b as int),
        decreases a,
    {
        let ghost front = v@.subrange(0, a as int);
        assert(front.drop_last() =~= v@.subrange(0, a - 1));
        assert(front.last() == v@[a - 1]);
        assert(v@.subrange(a - 1, b as int) =~= seq![v@[a - 1]] + v@.subrange(a as int, b as int));
        assert(trailing_word(front) == trailing_word(v@.subrange(0, a - 1)).push(v@[a - 1]));
        assert(trailing_word(v@.subrange(0, a - 1)).push(v@[a - 1]) + v@.subrange(a as int, b as int)
            =~= trailing_word(v@.subrange(0, a - 1)) + v@.subrange(a - 1, b as int));
        a = a - 1;
    }
    assert(trailing_word(v@.subrange(0, a as int)) =~= Seq::<char>::empty());
    assert(Seq::<char>::empty() + v@.subrange(a as int, b as int) =~= v@.subrange(a as int, b as int));
    string_of(&v, a, b)
}

/// Whether `c` is an ASCII decimal digit.
pub open spec fn is_digit(c: char) -> bool {
    '0' <= c && c <= '9'
}

/// Whether `s` is made of decimal digits only.
pub open spec fn all_digits(s: Seq<char>) -> bool {
    forall|i: int| 0 <= i < s.len() ==> is_digit(#[trigger] s[i])
}

/// The number that the decimal digits `s` write.
pub open spec fn digits_value(s: Seq<char>) -> int
    decreases s.len(),
{
    if s.len() == 0 {
        0
    } else {
        digits_value(s.drop_last()) * 10 + (s.last() as u32 - '0' as u32)
    }
}

/// The integer that `s` writes: an optional sign, then at least one digit.
pub open spec fn int_value(s: Seq<char>) -> Option<int> {
    if s.len() > 0 && (s[0] == '-' || s[0] == '+') {
        let d = s.drop_first();
        if d.len() > 0 && all_digits(d) {
            if s[0] == '-' {
                Some(-digits_value(d))
            } else {
                Some(digits_value(d))
            }
        } else {
            None
        }
    } else if s.len() > 0 && all_digits(s) {
        Some(digits_value(s))
    } else {
        None
    }
}

/// The `i32` that `s` writes, if it writes one that fits.
pub open spec fn i32_value(s: Seq<char>) -> Option<i32> {
    match int_value(s) {
        Some(v) => if i32::MIN <= v <= i32::MAX {
            Some(v as i32)
        } else {
            None
        },
        None => None,
    }
}

proof fn lemma_digits_value_grows(s: Seq<char>, k: int)
    requires
        all_digits(s),
        0 <= k <= s.len(),
    ensures
        0 <= digits_value(s.take(k)) <= digits_value(s),
    decreases s.len(),
{
    if k == s.len() {
        assert(s.take(k) =~= s);
        if s.len() > 0 {
            lemma_digits_value_grows(s.drop_last(), k - 1);
            assert(s.drop_last().take(k - 1) =~= s.drop_last());
            assert(is_digit(s[s.len() - 1]));
        }
    } else {
        assert(s.drop_last().take(k) =~= s.take(k));
        lemma_digits_value_grows(s.drop_last(), k);
        assert(is_digit(s[s.len() - 1]));
    }
}

/// Parses `s` as an `i32`, the way `str::parse::<i32>` accepts it.
pub fn parse_i32(s: &str) -> (r: Option<i32>)
    ensures
        r == i32_value(s@),
{
    let v = chars_of(s);
    let n = v.len();
    if n == 0 {
        return None;
    }
    let neg = v[0] == '-';
    let start: usize = if v[0] == '-' || v[0] == '+' { 1 } else { 0 };
    let ghost d = v@.skip(start as int);
    assert(v@ == s@);
    if start == n {
        return None;
    }
    assert(start == 1 ==> d =~= v@.drop_first());
    assert(start == 0 ==> d =~= v@);
    let mut acc: i64 = 0;
    let mut k: usize = start;
    while k < n
        invariant
            start <= k <= n == v.len(),
            0 < n,
            v@ == s@,
            d == v@.skip(start as int),
            start == 0 ==> d == s@,
            start == 1 ==> d == s@.drop_first(),
            start <= 1,
            (start == 1) == (s@[0] == '-' || s@[0] == '+'),
            neg == (s@[0] == '-'),
            all_digits(d.take(k - start)),
            acc == digits_value(d.take(k - start)),
            0 <= acc <= 0x8000_0000,
        decreases n - k,
    {
        let c = v[k];
        if !('0' <= c && c <= '9') {
            assert(d[k - start] == c);
            assert(!all_digits(d));
            assert(start == 0 ==> !all_digits(s@));
            assert(int_value(s@) is None);
            return None;
        }
        assert(d.take(k - start + 1).drop_last() =~= d.take(k - start));
        assert(d.take(k - start + 1).last() == c);
        acc = acc * 10 + (c as u32 - '0' as u32) as i64;
        k = k + 1;
        assert(all_digits(d.take(k - start)));
        if acc > 0x8000_0000 {
            proof {
                if all_digits(d) {
                    lemma_digits_value_grows(d, k - start);
                    assert(digits_value(d) > 0x8000_0000);
                    if start == 1 {
                        assert(int_value(s@) == Some(-digits_value(d)) || int_value(s@) == Some(
                            digits_value(d),
                        ));
                    } else {
                        assert(int_value(s@) == Some(digits_value(d)));
                    }
                } else {
                    assert(int_value(s@) is None);
                }
                assert(i32_value(s@) is None);
            }
            return None;
        }
    }
    assert(d.take(n - start) =~= d);
    if neg {
        Some((-acc) as i32)
    } else if acc <= 0x7fff_ffff {
        Some(acc as i32)
    } else {
        None
    }
}

} // verus!
