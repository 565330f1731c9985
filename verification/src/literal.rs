use vstd::prelude::*;

use crate::text::{chars_of, push_char};

verus! {

/// One parsed attribute: its name and its `key = value` arguments.
#[derive(Debug, Default)]
pub struct Attr {
    pub name: String,
    pub args: Vec<(String, String)>,
}

/// The text that `format!("{:?}", s)` produces for a string `s`: the string in double
/// quotes, with the escapes of Rust's `Debug` formatting.
pub uninterp spec fn debug_str(s: Seq<char>) -> Seq<char>;

/// Whether every character of `s` is printable ASCII (`' '` to `'~'`), a line feed, a
/// carriage return or a tab.
pub open spec fn plain_ascii(s: Seq<char>) -> bool {
    forall|i: int|
        0 <= i < s.len() ==> (' ' <= #[trigger] s[i] && s[i] <= '~') || s[i] == '\n' || s[i]
            == '\r' || s[i] == '\t'
}

/// `format!("{:?}", value)` on a string slice. Besides naming the result, this claims
/// what std documents for such text: it is put between double quotes, a double quote, a
/// backslash, a line feed, a carriage return and a tab are escaped (`\"`, `\\`, `\n`,
/// `\r`, `\t`), and every other printable ASCII character stays as it is. For other
/// characters the escaping follows Unicode tables and is left to the name.
#[verifier::external_body]
fn debug_format_str(value: &str) -> (r: String)
    ensures
        r@ == debug_str(value@),
        plain_ascii(value@) ==> r@ == seq!['"'] + escape(value@) + seq!['"'],
{
    format!("{:?}", value)
}

/// `value` written as a Rust string literal, as `Debug` writes it; for printable ASCII
/// text (with line feeds, carriage returns and tabs) that literal reads back as `value`.
pub fn string_lit(value: &str) -> (r: String)
    ensures
        r@ == debug_str(value@),
        plain_ascii(value@) ==> r@ == seq!['"'] + escape(value@) + seq!['"'],
        plain_ascii(value@) ==> spec_parse_string_literal(r@) == Some(value@),
{
    let r = debug_format_str(value);
    proof {
        law_quoted_text_reads_back(value@);
    }
    r
}

/// The characters that Unicode classifies as `White_Space` (what `char::is_whitespace`
/// and `str::trim` go by).
pub open spec fn is_whitespace(c: char) -> bool {
    ||| ('\u{9}' <= c && c <= '\u{d}')
    ||| c == ' '
    ||| c == '\u{85}'
    ||| c == '\u{a0}'
    ||| c == '\u{1680}'
    ||| ('\u{2000}' <= c && c <= '\u{200a}')
    ||| c == '\u{2028}'
    ||| c == '\u{2029}'
    ||| c == '\u{202f}'
    ||| c == '\u{205f}'
    ||| c == '\u{3000}'
}

fn is_whitespace_exec(c: char) -> (r: bool)
    ensures
        r == is_whitespace(c),
{
    ('\u{9}' <= c && c <= '\u{d}') || c == ' ' || c == '\u{85}' || c == '\u{a0}' || c == '\u{1680}'
        || ('\u{2000}' <= c && c <= '\u{200a}') || c == '\u{2028}' || c == '\u{2029}' || c
        == '\u{202f}' || c == '\u{205f}' || c == '\u{3000}'
}

/// `s` with the white space at both ends removed (`str::trim`): the longest middle
/// part that neither starts nor ends with white space.
pub open spec fn trimmed(s: Seq<char>, start: int, end: int) -> bool {
    &&& 0 <= start <= end <= s.len()
    &&& forall|i: int| 0 <= i < start ==> is_whitespace(#[trigger] s[i])
    &&& forall|i: int| end <= i < s.len() ==> is_whitespace(#[trigger] s[i])
    &&& start < end ==> !is_whitespace(s[start]) && !is_whitespace(s[end - 1])
    &&& start == end ==> start == s.len()
}

/// The text of a string literal's body once its escapes `\"`, `\\`, `\n`, `\r` and `\t`
/// are resolved; any other backslash stays as it is.
pub open spec fn unescape(s: Seq<char>) -> Seq<char>
    decreases s.len(),
{
    if s.len() == 0 {
        Seq::empty()
    } else if s[0] != '\\' {
        seq![s[0]] + unescape(s.drop_first())
    } else if s.len() == 1 {
        seq!['\\']
    } else {
        let c = s[1];
        let head = if c == '"' {
            seq!['"']
        } else if c == '\\' {
            seq!['\\']
        } else if c == 'n' {
            seq!['\n']
        } else if c == 'r' {
            seq!['\r']
        } else if c == 't' {
            seq!['\t']
        } else {
            seq!['\\', c]
        };
        head + unescape(s.subrange(2, s.len() as int))
    }
}

/// What `parse_string_literal` yields for `raw`: once trimmed, a text of at least two
/// characters between double quotes gives its unescaped body; anything else gives nothing.
pub open spec fn spec_parse_string_literal(raw: Seq<char>) -> Option<Seq<char>> {
    let (start, end) = choose|start: int, end: int| trimmed(raw, start, end);
    let t = raw.subrange(start, end);
    if t.len() >= 2 && t[0] == '"' && t[t.len() - 1] == '"' {
        Some(unescape(t.subrange(1, t.len() - 1)))
    } else {
        None
    }
}

proof fn lemma_trimmed_unique(s: Seq<char>, a: int, b: int, c: int, d: int)
    requires
        trimmed(s, a, b),
        trimmed(s, c, d),
    ensures
        a == c && b == d,
{
    if a < c {
        assert(is_whitespace(s[a]));
    }
    if c < a {
        assert(is_whitespace(s[c]));
    }
    if b < d && a < b {
        assert(is_whitespace(s[d - 1]));
    }
    if d < b && c < d {
        assert(is_whitespace(s[b - 1]));
    }
}

/// The bounds of `chars` without its surrounding white space.
fn trim_bounds(chars: &Vec<char>) -> (r: (usize, usize))
    ensures
        trimmed(chars@, r.0 as int, r.1 as int),
{
    let n = chars.len();
    let mut start: usize = 0;
    while start < n && is_whitespace_exec(chars[start])
        invariant
            start <= n == chars.len(),
            forall|i: int| 0 <= i < start ==> is_whitespace(#[trigger] chars@[i]),
        decreases n - start,
    {
        start += 1;
    }
    let mut end: usize = n;
    while end > start && is_whitespace_exec(chars[end - 1])
        invariant
            start <= end <= n == chars.len(),
            forall|i: int| end <= i < n ==> is_whitespace(#[trigger] chars@[i]),
        decreases end - start,
    {
        end -= 1;
    }
    (start, end)
}

/// Whether `raw`, once trimmed, is a single `"`: the text on which slicing out the
/// literal's body would go out of bounds.
pub open spec fn is_lone_quote(raw: Seq<char>) -> bool {
    let (start, end) = choose|start: int, end: int| trimmed(raw, start, end);
    end - start == 1 && raw[start] == '"'
}

/// Reads a double-quoted string literal (surrounding white space allowed) and returns
/// its unescaped body, or `None` when `raw` is not such a literal.
pub fn parse_string_literal(raw: &str) -> (r: Option<String>)
    requires
        !is_lone_quote(raw@),
    ensures
        match r {
            Some(s) => spec_parse_string_literal(raw@) == Some(s@),
            None => spec_parse_string_literal(raw@) is None,
        },
{
    let chars = chars_of(raw);
    let (start, end) = trim_bounds(&chars);
    proof {
        let (s2, e2) = choose|s: int, e: int| trimmed(raw@, s, e);
        lemma_trimmed_unique(raw@, start as int, end as int, s2, e2);
    }
    let ghost t = raw@.subrange(start as int, end as int);
    if !(end - start >= 2 && chars[start] == '"' && chars[end - 1] == '"') {
        proof {
            if t.len() >= 2 {
                assert(t[0] == chars@[start as int]);
                assert(t[t.len() - 1] == chars@[end - 1]);
            }
        }
        return None;
    }
    assert(t[0] == chars@[start as int]);
    assert(t[t.len() - 1] == chars@[end - 1]);
    assert(t.len() >= 2);
    let ghost body = t.subrange(1, t.len() - 1);
    assert(body =~= chars@.subrange(start + 1, end - 1));
    let mut out = String::new();
    let mut i = start + 1;
    let stop = end - 1;
    assert(chars@.subrange(i as int, stop as int) =~= body);
    while i < stop
        invariant
            start + 1 <= i <= stop <= chars.len(),
            stop == end - 1,
            body =~= chars@.subrange(start + 1, stop as int),
            unescape(body) == out@ + unescape(chars@.subrange(i as int, stop as int)),
        decreases stop - i,
    {
        let ghost rest = chars@.subrange(i as int, stop as int);
        let c = chars[i];
        assert(rest[0] == c);
        if c != '\\' {
            assert(rest.drop_first() =~= chars@.subrange(i + 1, stop as int));
            push_char(&mut out, c);
            i += 1;
            assert(unescape(rest) == seq![c] + unescape(rest.drop_first()));
            assert(unescape(body) =~= out@ + unescape(chars@.subrange(i as int, stop as int)));
        } else if i + 1 == stop {
            assert(rest.len() == 1);
            push_char(&mut out, '\\');
            i += 1;
            assert(chars@.subrange(i as int, stop as int).len() == 0);
            assert(unescape(chars@.subrange(i as int, stop as int)) == Seq::<char>::empty());
            assert(unescape(body) =~= out@ + unescape(chars@.subrange(i as int, stop as int)));
        } else {
            let next = chars[i + 1];
            assert(rest[1] == next);
            assert(rest.subrange(2, rest.len() as int) =~= chars@.subrange(i + 2, stop as int));
            if next == '"' {
                push_char(&mut out, '"');
            } else if next == '\\' {
                push_char(&mut out, '\\');
            } else if next == 'n' {
                push_char(&mut out, '\n');
            } else if next == 'r' {
                push_char(&mut out, '\r');
            } else if next == 't' {
                push_char(&mut out, '\t');
            } else {
                push_char(&mut out, '\\');
                push_char(&mut out, next);
            }
            i += 2;
            assert(unescape(body) =~= out@ + unescape(chars@.subrange(i as int, stop as int)));
        }
    }
    assert(chars@.subrange(i as int, stop as int).len() == 0);
    assert(unescape(chars@.subrange(i as int, stop as int)) == Seq::<char>::empty());
    assert(out@ =~= unescape(body));
    Some(out)
}

/// Resolving escapes never lengthens a text.
pub proof fn lemma_unescape_not_longer(s: Seq<char>)
    ensures
        unescape(s).len() <= s.len(),
    decreases s.len(),
{
    if s.len() > 0 {
        if s[0] != '\\' {
            lemma_unescape_not_longer(s.drop_first());
        } else if s.len() > 1 {
            lemma_unescape_not_longer(s.subrange(2, s.len() as int));
        }
    }
}

/// A literal's body is no longer than the trimmed text without its two quotes.
pub proof fn law_literal_body_not_longer(raw: Seq<char>, start: int, end: int)
    requires
        trimmed(raw, start, end),
    ensures
        spec_parse_string_literal(raw) matches Some(body) ==> body.len() <= end - start - 2,
{
    let (s2, e2) = choose|s: int, e: int| trimmed(raw, s, e);
    lemma_trimmed_unique(raw, start, end, s2, e2);
    let t = raw.subrange(start, end);
    if t.len() >= 2 {
        lemma_unescape_not_longer(t.subrange(1, t.len() - 1));
    }
}

/// How a string literal writes `c`: a double quote, a backslash, a line feed, a carriage
/// return and a tab escaped (`\"`, `\\`, `\n`, `\r`, `\t`); anything else as it is.
pub open spec fn escape_char(c: char) -> Seq<char> {
    if c == '"' {
        seq!['\\', '"']
    } else if c == '\\' {
        seq!['\\', '\\']
    } else if c == '\n' {
        seq!['\\', 'n']
    } else if c == '\r' {
        seq!['\\', 'r']
    } else if c == '\t' {
        seq!['\\', 't']
    } else {
        seq![c]
    }
}

/// The body of a string literal for `s`: each character written by [`escape_char`].
pub open spec fn escape(s: Seq<char>) -> Seq<char>
    decreases s.len(),
{
    if s.len() == 0 {
        Seq::empty()
    } else {
        escape_char(s[0]) + escape(s.drop_first())
    }
}

/// Resolving the escapes of an escaped text gives the text back.
pub proof fn lemma_unescape_escape(s: Seq<char>)
    ensures
        unescape(escape(s)) == s,
    decreases s.len(),
{
    if s.len() > 0 {
        let c = s[0];
        let rest = s.drop_first();
        let e = escape(s);
        lemma_unescape_escape(rest);
        let h = escape_char(c);
        assert(e == h + escape(rest));
        if h.len() == 1 {
            assert(e[0] == c);
            assert(e.drop_first() =~= escape(rest));
        } else {
            assert(e[0] == '\\');
            assert(e[1] == h[1]);
            assert(e.subrange(2, e.len() as int) =~= escape(rest));
        }
        assert(s =~= seq![c] + rest);
    }
}

/// Any text written between double quotes, with its quotes, backslashes, line feeds,
/// carriage returns and tabs escaped, reads back as that text.
pub proof fn law_quoted_text_reads_back(s: Seq<char>)
    ensures
        spec_parse_string_literal(seq!['"'] + escape(s) + seq!['"']) == Some(s),
{
    let raw = seq!['"'] + escape(s) + seq!['"'];
    let n = raw.len() as int;
    assert(raw[0] == '"');
    assert(raw[n - 1] == '"');
    assert(trimmed(raw, 0, n));
    let (s2, e2) = choose|a: int, b: int| trimmed(raw, a, b);
    lemma_trimmed_unique(raw, 0, n, s2, e2);
    assert(raw.subrange(0, n) =~= raw);
    assert(raw.subrange(1, n - 1) =~= escape(s));
    lemma_unescape_escape(s);
}

} // verus!
