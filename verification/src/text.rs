use vstd::prelude::*;

verus! {

// ---------------------------------------------------------------------------
// Characters of strings
// ---------------------------------------------------------------------------

/// The characters of `s`, in order.
pub fn chars_of(s: &str) -> (r: Vec<char>)
    ensures
        r@ == s@,
{
    let mut out: Vec<char> = Vec::new();
    proof {
        broadcast use vstd::string::axiom_spec_iter;
    }
    for c in it: s.chars()
        invariant
            out@ == it.seq().take(it.index() as int),
    {
        out.push(c);
    }
    out
}

/// Appends one character to a string (`String::push`).
#[verifier::external_body]
pub(crate) fn push_char(s: &mut String, c: char)
    ensures
        final(s)@ == old(s)@.push(c),
{
    s.push(c);
}

/// A string holding the characters of `chars[start..end]`.
pub fn string_from_chars(chars: &Vec<char>, start: usize, end: usize) -> (r: String)
    requires
        start <= end <= chars.len(),
    ensures
        r@ == chars@.subrange(start as int, end as int),
{
    let mut out = String::new();
    let mut i = start;
    while i < end
        invariant
            start <= i <= end <= chars.len(),
            out@ == chars@.subrange(start as int, i as int),
        decreases end - i,
    {
        push_char(&mut out, chars[i]);
        i += 1;
        assert(out@ =~= chars@.subrange(start as int, i as int));
    }
    out
}

/// Whether two strings hold the same characters.
pub fn str_eq(a: &str, b: &str) -> (r: bool)
    ensures
        r == (a@ == b@),
{
    let x: String = a.to_owned();
    let y: String = b.to_owned();
    x == y
}

// ---------------------------------------------------------------------------
// ASCII helpers
// ---------------------------------------------------------------------------

/// An ASCII decimal digit.
pub open spec fn is_digit(c: char) -> bool {
    '0' <= c && c <= '9'
}

/// Every character of `s` is an ASCII decimal digit.
pub open spec fn all_digits(s: Seq<char>) -> bool {
    forall|i: int| 0 <= i < s.len() ==> is_digit(#[trigger] s[i])
}

/// The value of one decimal digit.
pub open spec fn digit_value(c: char) -> int {
    c as int - '0' as int
}

/// The number that a sequence of decimal digits denotes.
pub open spec fn decimal_value(s: Seq<char>) -> int
    decreases s.len(),
{
    if s.len() == 0 {
        0
    } else {
        decimal_value(s.drop_last()) * 10 + digit_value(s.last())
    }
}

/// `c` equals the lower-case ASCII letter `lower` up to ASCII case.
pub open spec fn char_eq_ignore_ascii_case(c: char, lower: char) -> bool {
    c == lower || ('A' <= c && c <= 'Z' && c as int + 32 == lower as int)
}

/// `s` equals the lower-case ASCII text `lower` up to ASCII case.
pub open spec fn eq_ignore_ascii_case(s: Seq<char>, lower: Seq<char>) -> bool {
    &&& s.len() == lower.len()
    &&& forall|i: int| 0 <= i < s.len() ==> char_eq_ignore_ascii_case(#[trigger] s[i], lower[i])
}

fn char_eq_ignore_case_exec(c: char, lower: char) -> (r: bool)
    ensures
        r == char_eq_ignore_ascii_case(c, lower),
{
    if c == lower {
        true
    } else if 'A' <= c && c <= 'Z' {
        (c as u32) + 32 == (lower as u32)
    } else {
        false
    }
}

/// Whether `chars[start..end]` equals the lower-case ASCII text `lower` up to ASCII case.
pub fn range_eq_ignore_ascii_case(chars: &Vec<char>, start: usize, end: usize, lower: &Vec<char>) -> (r: bool)
    requires
        start <= end <= chars.len(),
    ensures
        r == eq_ignore_ascii_case(chars@.subrange(start as int, end as int), lower@),
{
    if end - start != lower.len() {
        return false;
    }
    let mut i: usize = 0;
    while i < lower.len()
        invariant
            start <= end <= chars.len(),
            end - start == lower.len(),
            i <= lower.len(),
            forall|j: int| 0 <= j < i ==> char_eq_ignore_ascii_case(chars@[start + j], lower@[j]),
        decreases lower.len() - i,
    {
        if !char_eq_ignore_case_exec(chars[start + i], lower[i]) {
            assert(chars@.subrange(start as int, end as int)[i as int] == chars@[start + i]);
            return false;
        }
        i += 1;
    }
    proof {
        let sub = chars@.subrange(start as int, end as int);
        assert forall|j: int| 0 <= j < sub.len() implies char_eq_ignore_ascii_case(#[trigger] sub[j], lower@[j]) by {
            assert(sub[j] == chars@[start + j]);
        }
    }
    true
}

// ---------------------------------------------------------------------------
// Integer literals
// ---------------------------------------------------------------------------

/// `s` without one leading `+` or `-`, and whether that sign was `-`.
pub open spec fn split_sign(s: Seq<char>) -> (bool, Seq<char>) {
    if s.len() > 0 && (s[0] == '+' || s[0] == '-') {
        (s[0] == '-', s.drop_first())
    } else {
        (false, s)
    }
}

/// What `str::parse::<i64>` accepts and the number it yields: an optional sign, then one
/// or more ASCII digits, denoting a number in the range of `i64`.
pub open spec fn spec_parse_i64(s: Seq<char>) -> Option<int> {
    let (negative, digits) = split_sign(s);
    if digits.len() > 0 && all_digits(digits) {
        let v = if negative { -decimal_value(digits) } else { decimal_value(digits) };
        if i64::MIN <= v <= i64::MAX {
            Some(v)
        } else {
            None
        }
    } else {
        None
    }
}

proof fn lemma_decimal_value_nonneg(s: Seq<char>)
    requires
        all_digits(s),
    ensures
        decimal_value(s) >= 0,
    decreases s.len(),
{
    if s.len() > 0 {
        assert(all_digits(s.drop_last())) by {
            assert forall|i: int| 0 <= i < s.drop_last().len() implies is_digit(#[trigger] s.drop_last()[i]) by {
                assert(s.drop_last()[i] == s[i]);
            }
        }
        lemma_decimal_value_nonneg(s.drop_last());
        assert(is_digit(s[s.len() - 1]));
    }
}

/// Parses a decimal `i64` the way `str::parse::<i64>` does.
pub fn parse_i64(s: &str) -> (r: Option<i64>)
    ensures
        match r {
            Some(v) => spec_parse_i64(s@) == Some(v as int),
            None => spec_parse_i64(s@) is None,
        },
{
    let chars = chars_of(s);
    let n = chars.len();
    let mut start: usize = 0;
    let mut negative = false;
    if n > 0 && (chars[0] == '+' || chars[0] == '-') {
        negative = chars[0] == '-';
        start = 1;
    }
    let ghost digits = split_sign(s@).1;
    assert(digits == chars@.subrange(start as int, n as int));
    if start == n {
        assert(digits.len() == 0);
        return None;
    }
    let limit: u128 = 0x8000_0000_0000_0000;
    let mut acc: u128 = 0;
    let mut capped = false;
    let mut i = start;
    while i < n
        invariant
            start <= i <= n == chars.len(),
            start < n,
            digits == chars@.subrange(start as int, n as int),
            digits == split_sign(s@).1,
            chars@ == s@,
            negative == split_sign(s@).0,
            all_digits(chars@.subrange(start as int, i as int)),
            !capped ==> acc == decimal_value(chars@.subrange(start as int, i as int)) && acc <= limit,
            capped ==> decimal_value(chars@.subrange(start as int, i as int)) > limit,
            limit == 0x8000_0000_0000_0000u128,
        decreases n - i,
    {
        let c = chars[i];
        if !('0' <= c && c <= '9') {
            assert(digits[i - start] == c);
            assert(!is_digit(digits[i - start]));
            assert(!all_digits(digits));
            return None;
        }
        let d = (c as u32 - '0' as u32) as u128;
        let ghost prev = chars@.subrange(start as int, i as int);
        let ghost next = chars@.subrange(start as int, i + 1);
        assert(next.drop_last() =~= prev);
        assert(next.last() == c);
        assert(all_digits(next)) by {
            assert forall|j: int| 0 <= j < next.len() implies is_digit(#[trigger] next[j]) by {
                if j < prev.len() {
                    assert(next[j] == prev[j]);
                }
            }
        }
        proof {
            lemma_decimal_value_nonneg(prev);
        }
        if !capped {
            let v = acc * 10 + d;
            if v > limit {
                capped = true;
            } else {
                acc = v;
            }
        }
        i += 1;
    }
    assert(chars@.subrange(start as int, n as int) == digits);
    if capped {
        return None;
    }
    if negative {
        if acc == limit {
            Some(i64::MIN)
        } else {
            Some(-(acc as i64))
        }
    } else {
        if acc == limit {
            None
        } else {
            Some(acc as i64)
        }
    }
}


// ---------------------------------------------------------------------------
// Floating-point literals
// ---------------------------------------------------------------------------

/// How many ASCII digits `s` starts with.
pub open spec fn leading_digits(s: Seq<char>) -> nat
    decreases s.len(),
{
    if s.len() > 0 && is_digit(s[0]) {
        1 + leading_digits(s.drop_first())
    } else {
        0
    }
}

/// What may follow the digits of a floating-point literal: nothing, or an exponent
/// (`e` or `E`, an optional sign, one or more digits).
pub open spec fn is_exponent_suffix(t: Seq<char>) -> bool {
    t.len() == 0 || ((t[0] == 'e' || t[0] == 'E') && {
        let d = split_sign(t.drop_first()).1;
        d.len() > 0 && all_digits(d)
    })
}

/// A decimal number as `f64`'s parser reads it: digits with at most one `.`, at least
/// one digit among them, then an optional exponent.
pub open spec fn is_decimal_number(s: Seq<char>) -> bool {
    let a = leading_digits(s);
    if a < s.len() && s[a as int] == '.' {
        let b = leading_digits(s.skip((a + 1) as int));
        a + b >= 1 && is_exponent_suffix(s.skip((a + 1 + b) as int))
    } else {
        a >= 1 && is_exponent_suffix(s.skip(a as int))
    }
}

/// The texts that `str::parse::<f64>` accepts: an optional sign, then `inf`, `infinity`,
/// `nan` (in any ASCII case) or a decimal number.
pub open spec fn is_float_literal(s: Seq<char>) -> bool {
    let body = split_sign(s).1;
    ||| eq_ignore_ascii_case(body, seq!['i', 'n', 'f'])
    ||| eq_ignore_ascii_case(body, seq!['i', 'n', 'f', 'i', 'n', 'i', 't', 'y'])
    ||| eq_ignore_ascii_case(body, seq!['n', 'a', 'n'])
    ||| is_decimal_number(body)
}

proof fn lemma_leading_digits(s: Seq<char>, k: int)
    requires
        0 <= k <= s.len(),
        forall|j: int| 0 <= j < k ==> is_digit(#[trigger] s[j]),
        k == s.len() || !is_digit(s[k]),
    ensures
        leading_digits(s) == k,
    decreases k,
{
    if k > 0 {
        let t = s.drop_first();
        assert forall|j: int| 0 <= j < k - 1 implies is_digit(#[trigger] t[j]) by {
            assert(t[j] == s[j + 1]);
        }
        if k < s.len() {
            assert(t[k - 1] == s[k]);
        }
        lemma_leading_digits(t, k - 1);
        assert(is_digit(s[0]));
    }
}

/// The end of the run of ASCII digits in `chars` that starts at `start`.
fn scan_digits(chars: &Vec<char>, start: usize) -> (end: usize)
    requires
        start <= chars.len(),
    ensures
        start <= end <= chars.len(),
        end - start == leading_digits(chars@.skip(start as int)),
        all_digits(chars@.subrange(start as int, end as int)),
{
    let mut i = start;
    while i < chars.len() && '0' <= chars[i] && chars[i] <= '9'
        invariant
            start <= i <= chars.len(),
            forall|j: int| start <= j < i ==> is_digit(#[trigger] chars@[j]),
        decreases chars.len() - i,
    {
        i += 1;
    }
    proof {
        let t = chars@.skip(start as int);
        assert forall|j: int| 0 <= j < i - start implies is_digit(#[trigger] t[j]) by {
            assert(t[j] == chars@[start + j]);
        }
        if i < chars.len() {
            assert(t[i - start] == chars@[i as int]);
        }
        lemma_leading_digits(t, i - start);
        let u = chars@.subrange(start as int, i as int);
        assert forall|j: int| 0 <= j < u.len() implies is_digit(#[trigger] u[j]) by {
            assert(u[j] == chars@[start + j]);
        }
    }
    i
}

/// Whether `chars[start..]` is an exponent suffix.
fn exponent_suffix_at(chars: &Vec<char>, start: usize) -> (r: bool)
    requires
        start <= chars.len(),
    ensures
        r == is_exponent_suffix(chars@.skip(start as int)),
{
    let n = chars.len();
    let ghost t = chars@.skip(start as int);
    if start == n {
        return true;
    }
    assert(t[0] == chars@[start as int]);
    if !(chars[start] == 'e' || chars[start] == 'E') {
        return false;
    }
    let mut k = start + 1;
    let ghost u = t.drop_first();
    assert(u =~= chars@.skip(start + 1));
    if k < n && (chars[k] == '+' || chars[k] == '-') {
        assert(u[0] == chars@[k as int]);
        k = k + 1;
    }
    assert(split_sign(u).1 =~= chars@.skip(k as int));
    if k == n {
        return false;
    }
    let end = scan_digits(chars, k);
    proof {
        let d = chars@.skip(k as int);
        if end == n {
            assert(d =~= chars@.subrange(k as int, end as int));
        } else {
            assert(d[end - k] == chars@[end as int]);
            assert(!is_digit(d[end - k])) by {
                lemma_leading_digits_stop(d);
            }
        }
    }
    end == n
}

proof fn lemma_leading_digits_stop(s: Seq<char>)
    requires
        leading_digits(s) < s.len(),
    ensures
        !is_digit(s[leading_digits(s) as int]),
    decreases s.len(),
{
    if s.len() > 0 && is_digit(s[0]) {
        let t = s.drop_first();
        lemma_leading_digits_stop(t);
        assert(t[leading_digits(t) as int] == s[leading_digits(s) as int]);
    }
}

/// Whether `s` is text that `str::parse::<f64>` accepts.
pub fn is_float_literal_str(s: &str) -> (r: bool)
    ensures
        r == is_float_literal(s@),
{
    let chars = chars_of(s);
    let n = chars.len();
    let mut start: usize = 0;
    if n > 0 && (chars[0] == '+' || chars[0] == '-') {
        start = 1;
    }
    let ghost body = split_sign(s@).1;
    assert(body =~= chars@.skip(start as int));
    assert(body =~= chars@.subrange(start as int, n as int));
    let inf = vec!['i', 'n', 'f'];
    let infinity = vec!['i', 'n', 'f', 'i', 'n', 'i', 't', 'y'];
    let nan = vec!['n', 'a', 'n'];
    if range_eq_ignore_ascii_case(&chars, start, n, &inf) {
        assert(inf@ =~= seq!['i', 'n', 'f']);
        return true;
    }
    if range_eq_ignore_ascii_case(&chars, start, n, &infinity) {
        assert(infinity@ =~= seq!['i', 'n', 'f', 'i', 'n', 'i', 't', 'y']);
        return true;
    }
    if range_eq_ignore_ascii_case(&chars, start, n, &nan) {
        assert(nan@ =~= seq!['n', 'a', 'n']);
        return true;
    }
    assert(inf@ =~= seq!['i', 'n', 'f']);
    assert(infinity@ =~= seq!['i', 'n', 'f', 'i', 'n', 'i', 't', 'y']);
    assert(nan@ =~= seq!['n', 'a', 'n']);
    let a_end = scan_digits(&chars, start);
    let a = a_end - start;
    if a_end < n && chars[a_end] == '.' {
        assert(body[a as int] == chars@[a_end as int]);
        let b_end = scan_digits(&chars, a_end + 1);
        assert(body.skip(a + 1) =~= chars@.skip(a_end + 1));
        assert(body.skip(a + 1 + (b_end - a_end - 1)) =~= chars@.skip(b_end as int));
        let b = b_end - a_end - 1;
        a + b >= 1 && exponent_suffix_at(&chars, b_end)
    } else {
        proof {
            if a_end < n {
                assert(body[a as int] == chars@[a_end as int]);
            }
        }
        assert(body.skip(a as int) =~= chars@.skip(a_end as int));
        a >= 1 && exponent_suffix_at(&chars, a_end)
    }
}

// ---------------------------------------------------------------------------
// Ordering of strings
// ---------------------------------------------------------------------------

/// `a` sorts before `b` in the order of `str`'s `Ord`: lexicographic by code point, a
/// proper prefix first.
pub open spec fn str_lt(a: Seq<char>, b: Seq<char>) -> bool
    decreases a.len(),
{
    if a.len() == 0 {
        b.len() > 0
    } else if b.len() == 0 {
        false
    } else if a[0] != b[0] {
        a[0] < b[0]
    } else {
        str_lt(a.drop_first(), b.drop_first())
    }
}

/// No string sorts before itself, and two strings never sort before each other.
pub proof fn lemma_str_lt_asymmetric(a: Seq<char>, b: Seq<char>)
    ensures
        !(str_lt(a, b) && str_lt(b, a)),
        !str_lt(a, a),
    decreases a.len(),
{
    if a.len() > 0 && b.len() > 0 && a[0] == b[0] {
        lemma_str_lt_asymmetric(a.drop_first(), b.drop_first());
    }
    if a.len() > 0 {
        lemma_str_lt_asymmetric(a.drop_first(), a.drop_first());
    }
}

/// Of two different strings, one sorts before the other.
pub proof fn lemma_str_lt_total(a: Seq<char>, b: Seq<char>)
    requires
        a != b,
    ensures
        str_lt(a, b) || str_lt(b, a),
    decreases a.len(),
{
    if a.len() > 0 && b.len() > 0 && a[0] == b[0] {
        if a.drop_first() == b.drop_first() {
            assert(a =~= seq![a[0]] + a.drop_first());
            assert(b =~= seq![b[0]] + b.drop_first());
        }
        lemma_str_lt_total(a.drop_first(), b.drop_first());
    }
    if a.len() == 0 && b.len() == 0 {
        assert(a =~= b);
    }
}

/// The order of strings is transitive.
pub proof fn lemma_str_lt_transitive(a: Seq<char>, b: Seq<char>, c: Seq<char>)
    requires
        str_lt(a, b),
        str_lt(b, c),
    ensures
        str_lt(a, c),
    decreases a.len(),
{
    if a.len() > 0 && b.len() > 0 && c.len() > 0 && a[0] == b[0] && b[0] == c[0] {
        lemma_str_lt_transitive(a.drop_first(), b.drop_first(), c.drop_first());
    }
}

proof fn lemma_str_lt_common_prefix(a: Seq<char>, b: Seq<char>, i: int)
    requires
        0 <= i <= a.len(),
        i <= b.len(),
        a.take(i) == b.take(i),
    ensures
        str_lt(a, b) == str_lt(a.skip(i), b.skip(i)),
    decreases i,
{
    if i > 0 {
        assert(a[0] == a.take(i)[0]);
        assert(b[0] == b.take(i)[0]);
        assert(a.drop_first().take(i - 1) =~= a.take(i).drop_first());
        assert(b.drop_first().take(i - 1) =~= b.take(i).drop_first());
        lemma_str_lt_common_prefix(a.drop_first(), b.drop_first(), i - 1);
        assert(a.drop_first().skip(i - 1) =~= a.skip(i));
        assert(b.drop_first().skip(i - 1) =~= b.skip(i));
    } else {
        assert(a.skip(0) =~= a);
        assert(b.skip(0) =~= b);
    }
}

/// Whether `a` sorts before `b` (`a < b` on `str`).
pub fn str_less(a: &str, b: &str) -> (r: bool)
    ensures
        r == str_lt(a@, b@),
{
    let x = chars_of(a);
    let y = chars_of(b);
    let mut i: usize = 0;
    while i < x.len() && i < y.len() && x[i] == y[i]
        invariant
            i <= x.len(),
            i <= y.len(),
            x@ == a@,
            y@ == b@,
            x@.take(i as int) == y@.take(i as int),
        decreases x.len() - i,
    {
        i += 1;
        assert(x@.take(i as int) =~= x@.take(i - 1).push(x@[i - 1]));
        assert(y@.take(i as int) =~= y@.take(i - 1).push(y@[i - 1]));
    }
    proof {
        lemma_str_lt_common_prefix(a@, b@, i as int);
        let s = a@.skip(i as int);
        let t = b@.skip(i as int);
        if i < x.len() && i < y.len() {
            assert(s[0] == x@[i as int]);
            assert(t[0] == y@[i as int]);
        }
    }
    if i == x.len() {
        i < y.len()
    } else if i == y.len() {
        false
    } else {
        x[i] < y[i]
    }
}

// ---------------------------------------------------------------------------
// Decimal text of numbers
// ---------------------------------------------------------------------------

/// The ASCII digit for `d` (0 to 9).
pub open spec fn digit_char(d: nat) -> char {
    ('0' as u32 + d) as char
}

/// The decimal digits of `n`, as `n.to_string()` writes them.
pub open spec fn decimal_digits(n: nat) -> Seq<char>
    decreases n,
{
    if n < 10 {
        seq![digit_char(n)]
    } else {
        decimal_digits(n / 10).push(digit_char(n % 10))
    }
}

fn digit_char_exec(d: usize) -> (r: char)
    requires
        d < 10,
    ensures
        r == digit_char(d as nat),
{
    if d == 0 { '0' }
    else if d == 1 { '1' }
    else if d == 2 { '2' }
    else if d == 3 { '3' }
    else if d == 4 { '4' }
    else if d == 5 { '5' }
    else if d == 6 { '6' }
    else if d == 7 { '7' }
    else if d == 8 { '8' }
    else { '9' }
}

/// The decimal text of `n`.
pub fn usize_to_string(n: usize) -> (r: String)
    ensures
        r@ == decimal_digits(n as nat),
{
    let mut out: Vec<char> = Vec::new();
    let mut m = n;
    while m >= 10
        invariant
            decimal_digits(n as nat) == decimal_digits(m as nat) + out@,
        decreases m,
    {
        let d = m % 10;
        let ghost before = out@;
        out.insert(0, digit_char_exec(d));
        assert(decimal_digits(m as nat) == decimal_digits((m / 10) as nat).push(digit_char(d as nat)));
        m = m / 10;
        assert(decimal_digits(n as nat) =~= decimal_digits(m as nat) + out@);
    }
    out.insert(0, digit_char_exec(m));
    assert(out@ =~= decimal_digits(n as nat));
    let len = out.len();
    string_from_chars(&out, 0, len)
}

} // verus!
