use vstd::prelude::*;

use crate::models::typed_lines::FloatLiteral;
use crate::schema::ValueType;
use crate::text::{
    all_digits, chars_of, decimal_value, digit_value, is_digit, is_float_literal,
    is_float_literal_str, push_char, spec_parse_i64, split_sign, str_eq,
};

verus! {

/// A value read from text. A floating-point value is held as the literal it was read
/// from.
#[derive(Debug, PartialEq)]
pub enum Value {
    Str(String),
    Int(i64),
    Float(FloatLiteral),
    Bool(bool),
}

/// A [`Value`] over mathematical values.
pub enum ValueView {
    Str(Seq<char>),
    Int(int),
    Float(Seq<char>),
    Bool(bool),
}

impl View for Value {
    type V = ValueView;

    open spec fn view(&self) -> ValueView {
        match self {
            Value::Str(s) => ValueView::Str(s@),
            Value::Int(i) => ValueView::Int(*i as int),
            Value::Float(f) => ValueView::Float(f.text@),
            Value::Bool(b) => ValueView::Bool(*b),
        }
    }
}

/// Why a text is not an `i64`, in the order in which `str::parse::<i64>` finds it.
#[derive(Debug, Clone, Copy, PartialEq, Eq, Structural)]
pub enum IntParseFailure {
    Empty,
    InvalidDigit,
    PosOverflow,
    NegOverflow,
}

/// Reads `digits` from position `k` on, `acc` being the magnitude read so far: the first
/// character that is no digit, or the first digit after which the value leaves the range
/// of `i64`, and `None` when neither occurs.
pub open spec fn int_scan(negative: bool, digits: Seq<char>, k: int, acc: int) -> Option<
    IntParseFailure,
>
    decreases digits.len() - k,
{
    if k < 0 || k >= digits.len() {
        None
    } else if !is_digit(digits[k]) {
        Some(IntParseFailure::InvalidDigit)
    } else {
        let a = acc * 10 + digit_value(digits[k]);
        if negative && -a < i64::MIN {
            Some(IntParseFailure::NegOverflow)
        } else if !negative && a > i64::MAX {
            Some(IntParseFailure::PosOverflow)
        } else {
            int_scan(negative, digits, k + 1, a)
        }
    }
}

/// Why `s` is not an `i64`: empty, a sign alone, or what [`int_scan`] finds after the
/// sign; `None` when it is one.
pub open spec fn int_failure(s: Seq<char>) -> Option<IntParseFailure> {
    if s.len() == 0 {
        Some(IntParseFailure::Empty)
    } else {
        let (negative, digits) = split_sign(s);
        if digits.len() == 0 {
            Some(IntParseFailure::InvalidDigit)
        } else {
            int_scan(negative, digits, 0, 0)
        }
    }
}

/// The number that a sign and digits denote.
pub open spec fn signed_decimal(s: Seq<char>) -> int {
    let (negative, digits) = split_sign(s);
    if negative {
        -decimal_value(digits)
    } else {
        decimal_value(digits)
    }
}

/// The message of each [`IntParseFailure`].
pub open spec fn int_failure_message(f: IntParseFailure) -> Seq<char> {
    match f {
        IntParseFailure::Empty => "cannot parse integer from empty string"@,
        IntParseFailure::InvalidDigit => "invalid digit found in string"@,
        IntParseFailure::PosOverflow => "number too large to fit in target type"@,
        IntParseFailure::NegOverflow => "number too small to fit in target type"@,
    }
}

/// What reading `s` as a value of type `ty` gives: the text itself for `Str`; an `i64`,
/// a floating-point literal or `true`/`false` for the others, with the message of the
/// first problem found otherwise.
pub open spec fn spec_parse_value(s: Seq<char>, ty: ValueType) -> Result<ValueView, Seq<char>> {
    match ty {
        ValueType::Str => Ok(ValueView::Str(s)),
        ValueType::Int => match int_failure(s) {
            Some(f) => Err(int_failure_message(f)),
            None => Ok(ValueView::Int(signed_decimal(s))),
        },
        ValueType::Float => if is_float_literal(s) {
            Ok(ValueView::Float(s))
        } else if s.len() == 0 {
            Err("cannot parse float from empty string"@)
        } else {
            Err("invalid float literal"@)
        },
        ValueType::Bool => if s == "true"@ {
            Ok(ValueView::Bool(true))
        } else if s == "false"@ {
            Ok(ValueView::Bool(false))
        } else {
            Err("provided string was not `true` or `false`"@)
        },
    }
}

/// Reads `s` as an `i64` (an optional sign, then decimal digits), or says why it is none.
pub fn parse_int(s: &str) -> (r: Result<i64, IntParseFailure>)
    ensures
        match int_failure(s@) {
            Some(f) => r == Err::<i64, IntParseFailure>(f),
            None => r matches Ok(v) && v == signed_decimal(s@),
        },
        r matches Ok(v) ==> spec_parse_i64(s@) == Some(v as int),
{
    let chars = chars_of(s);
    let n = chars.len();
    if n == 0 {
        return Err(IntParseFailure::Empty);
    }
    let mut start: usize = 0;
    let mut negative = false;
    if chars[0] == '+' || chars[0] == '-' {
        negative = chars[0] == '-';
        start = 1;
    }
    let ghost digits = split_sign(s@).1;
    assert(digits =~= chars@.subrange(start as int, n as int));
    if start == n {
        return Err(IntParseFailure::InvalidDigit);
    }
    let mut acc: i128 = 0;
    let mut i = start;
    while i < n
        invariant
            start <= i <= n == chars.len(),
            start < n,
            chars@ == s@,
            digits == chars@.subrange(start as int, n as int),
            digits == split_sign(s@).1,
            negative == split_sign(s@).0,
            int_scan(negative, digits, 0, 0) == int_scan(negative, digits, i - start, acc as int),
            acc == decimal_value(digits.take(i - start)),
            all_digits(digits.take(i - start)),
            0 <= acc,
            negative ==> acc <= 0x8000_0000_0000_0000,
            !negative ==> acc <= 0x7fff_ffff_ffff_ffff,
        decreases n - i,
    {
        let c = chars[i];
        let ghost k = i - start;
        assert(digits[k] == c);
        if !('0' <= c && c <= '9') {
            return Err(IntParseFailure::InvalidDigit);
        }
        let d = (c as u32 - '0' as u32) as i128;
        let a = acc * 10 + d;
        if negative && a > 0x8000_0000_0000_0000 {
            return Err(IntParseFailure::NegOverflow);
        }
        if !negative && a > 0x7fff_ffff_ffff_ffff {
            return Err(IntParseFailure::PosOverflow);
        }
        proof {
            let next = digits.take(k + 1);
            assert(next.drop_last() =~= digits.take(k));
            assert(next.last() == c);
            assert(all_digits(next)) by {
                assert forall|j: int| 0 <= j < next.len() implies is_digit(#[trigger] next[j]) by {
                    if j < k {
                        assert(next[j] == digits.take(k)[j]);
                    }
                }
            }
        }
        acc = a;
        i += 1;
    }
    assert(digits.take(n - start) =~= digits);
    if negative {
        Ok((-acc) as i64)
    } else {
        Ok(acc as i64)
    }
}

/// The message of an [`IntParseFailure`], as `str::parse::<i64>` words it.
pub fn int_failure_text(f: IntParseFailure) -> (r: String)
    ensures
        r@ == int_failure_message(f),
{
    match f {
        IntParseFailure::Empty => "cannot parse integer from empty string".to_owned(),
        IntParseFailure::InvalidDigit => "invalid digit found in string".to_owned(),
        IntParseFailure::PosOverflow => "number too large to fit in target type".to_owned(),
        IntParseFailure::NegOverflow => "number too small to fit in target type".to_owned(),
    }
}

/// Reads `s` as a value of type `ty` (see [`spec_parse_value`]).
pub fn parse_value(s: &str, ty: ValueType) -> (r: Result<Value, String>)
    ensures
        r matches Ok(x) ==> spec_parse_value(s@, ty) == Ok::<ValueView, Seq<char>>(x@),
        r matches Err(e) ==> spec_parse_value(s@, ty) == Err::<ValueView, Seq<char>>(e@),
{
    match ty {
        ValueType::Str => {
            let t: String = s.to_owned();
            assert(t@ == s@);
            Ok(Value::Str(t))
        },
        ValueType::Int => match parse_int(s) {
            Ok(v) => Ok(Value::Int(v)),
            Err(f) => Err(int_failure_text(f)),
        },
        ValueType::Float => {
            if is_float_literal_str(s) {
                Ok(Value::Float(FloatLiteral { text: s.to_owned() }))
            } else if s.unicode_len() == 0 {
                Err("cannot parse float from empty string".to_owned())
            } else {
                Err("invalid float literal".to_owned())
            }
        },
        ValueType::Bool => {
            if str_eq(s, "true") {
                Ok(Value::Bool(true))
            } else if str_eq(s, "false") {
                Ok(Value::Bool(false))
            } else {
                Err("provided string was not `true` or `false`".to_owned())
            }
        },
    }
}

/// The character of the decimal digit `d`.
pub open spec fn digit_char(d: nat) -> char {
    (d + 48) as char
}

/// The decimal digits of `n`, without leading zeros (`"0"` for zero).
pub open spec fn decimal_text(n: nat) -> Seq<char>
    decreases n,
{
    if n < 10 {
        seq![digit_char(n)]
    } else {
        decimal_text(n / 10).push(digit_char(n % 10))
    }
}

/// The decimal text of `v`, with a `-` before a negative number.
pub open spec fn int_text(v: int) -> Seq<char> {
    if v < 0 {
        seq!['-'] + decimal_text((-v) as nat)
    } else {
        decimal_text(v as nat)
    }
}

/// The text of a value: the string itself, the decimal number, the floating-point
/// literal as read, or `true`/`false`.
pub open spec fn value_text(v: ValueView) -> Seq<char> {
    match v {
        ValueView::Str(s) => s,
        ValueView::Int(i) => int_text(i),
        ValueView::Float(t) => t,
        ValueView::Bool(b) => if b {
            "true"@
        } else {
            "false"@
        },
    }
}

fn push_decimal(s: &mut String, n: u64)
    ensures
        final(s)@ == old(s)@ + decimal_text(n as nat),
    decreases n,
{
    if n >= 10 {
        push_decimal(s, n / 10);
    }
    let d = (n % 10) as u8;
    let c = (d + 48) as char;
    push_char(s, c);
    proof {
        if n >= 10 {
            assert(decimal_text(n as nat) == decimal_text((n / 10) as nat).push(digit_char((n % 10) as nat)));
        }
    }
}

/// The text of `v` (see [`value_text`]).
pub fn value_to_string(v: &Value) -> (r: String)
    ensures
        r@ == value_text(v@),
{
    match v {
        Value::Str(x) => x.clone(),
        Value::Int(x) => {
            let mut out = String::new();
            let m: u64 = if *x < 0 {
                push_char(&mut out, '-');
                ((-(*x + 1)) as u64) + 1
            } else {
                *x as u64
            };
            push_decimal(&mut out, m);
            out
        },
        Value::Float(f) => f.text.clone(),
        Value::Bool(b) => if *b {
            "true".to_owned()
        } else {
            "false".to_owned()
        },
    }
}

} // verus!

verus! {

/// The type that a value read from text has.
pub open spec fn type_of(v: ValueView) -> ValueType {
    match v {
        ValueView::Str(_) => ValueType::Str,
        ValueView::Int(_) => ValueType::Int,
        ValueView::Float(_) => ValueType::Float,
        ValueView::Bool(_) => ValueType::Bool,
    }
}

proof fn lemma_decimal_text(n: nat)
    ensures
        decimal_text(n).len() > 0,
        all_digits(decimal_text(n)),
        decimal_value(decimal_text(n)) == n,
    decreases n,
{
    let t = decimal_text(n);
    let last = (n % 10) as nat;
    assert(digit_char(last) as int == last + 48);
    assert(digit_value(digit_char(last)) == last);
    if n < 10 {
        assert(t.drop_last() =~= Seq::<char>::empty());
    } else {
        lemma_decimal_text(n / 10);
        let p = decimal_text(n / 10);
        assert(t.drop_last() =~= p);
        assert forall|i: int| 0 <= i < t.len() implies is_digit(#[trigger] t[i]) by {
            if i < p.len() {
                assert(t[i] == p[i]);
            }
        }
    }
    assert(t.last() == digit_char(last));
    assert(decimal_value(t) == decimal_value(t.drop_last()) * 10 + digit_value(t.last()));
    assert(n == (n / 10) * 10 + n % 10);
}

proof fn lemma_prefix_value_le(d: Seq<char>, k: int)
    requires
        all_digits(d),
        0 <= k <= d.len(),
    ensures
        0 <= decimal_value(d.take(k)) <= decimal_value(d),
    decreases d.len(),
{
    if k == d.len() {
        assert(d.take(k) =~= d);
        if d.len() > 0 {
            lemma_prefix_value_le(d.drop_last(), k - 1);
            assert(d.take(k).drop_last() =~= d.drop_last().take(k - 1));
            assert(d.drop_last().take(k - 1) =~= d.drop_last());
        }
    } else {
        let p = d.drop_last();
        assert(all_digits(p)) by {
            assert forall|i: int| 0 <= i < p.len() implies is_digit(#[trigger] p[i]) by {
                assert(p[i] == d[i]);
            }
        }
        lemma_prefix_value_le(p, k);
        assert(p.take(k) =~= d.take(k));
        lemma_prefix_value_le(p, p.len() as int);
        assert(p.take(p.len() as int) =~= p);
        assert(is_digit(d[d.len() - 1]));
    }
}

proof fn lemma_scan_in_range(negative: bool, d: Seq<char>, k: int, acc: int)
    requires
        all_digits(d),
        0 <= k <= d.len(),
        acc == decimal_value(d.take(k)),
        negative ==> decimal_value(d) <= 0x8000_0000_0000_0000,
        !negative ==> decimal_value(d) <= 0x7fff_ffff_ffff_ffff,
    ensures
        int_scan(negative, d, k, acc) is None,
    decreases d.len() - k,
{
    if k < d.len() {
        let next = d.take(k + 1);
        assert(next.drop_last() =~= d.take(k));
        assert(next.last() == d[k]);
        assert(all_digits(d.take(k + 1))) by {
            assert forall|i: int| 0 <= i < next.len() implies is_digit(#[trigger] next[i]) by {
                assert(next[i] == d[i]);
            }
        }
        lemma_prefix_value_le(d, k + 1);
        lemma_scan_in_range(negative, d, k + 1, acc * 10 + digit_value(d[k]));
    }
}

/// Printing a value and reading the text back as the value's own type gives the value
/// (a floating-point value being held as its literal).
pub proof fn law_print_then_parse(v: ValueView)
    requires
        v matches ValueView::Int(i) ==> i64::MIN <= i <= i64::MAX,
        v matches ValueView::Float(t) ==> is_float_literal(t),
    ensures
        spec_parse_value(value_text(v), type_of(v)) == Ok::<ValueView, Seq<char>>(v),
{
    match v {
        ValueView::Int(i) => {
            let t = int_text(i);
            let m: nat = if i < 0 { (-i) as nat } else { i as nat };
            lemma_decimal_text(m);
            let d = decimal_text(m);
            assert(is_digit(d[0]));
            if i < 0 {
                assert(t[0] == '-');
                assert(t.drop_first() =~= d);
            } else {
                assert(t == d);
            }
            assert(split_sign(t) == (i < 0, d));
            assert(d.take(0) =~= Seq::<char>::empty());
            lemma_scan_in_range(i < 0, d, 0, 0);
        },
        ValueView::Bool(b) => {
            reveal_strlit("true");
            reveal_strlit("false");
            if !b {
                assert("false"@[0] != "true"@[0]);
            }
        },
        _ => {},
    }
}

} // verus!
