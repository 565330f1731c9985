use vstd::prelude::*;

use crate::literal::Attr;
use crate::text::{push_char, str_eq};

verus! {

/// How a group of tokens is delimited.
#[derive(Debug, Clone, Copy, PartialEq, Eq, Structural)]
pub enum Delimiter {
    Parenthesis,
    Brace,
    Bracket,
    /// No visible delimiters.
    Invisible,
}

/// A token of a derive macro's input.
#[derive(Debug)]
pub enum TokenTree {
    Ident(String),
    Punct(char),
    /// A literal, as written in the source.
    Literal(String),
    Group(Group),
}

/// A delimited group of tokens.
#[derive(Debug)]
pub struct Group {
    pub delimiter: Delimiter,
    pub stream: Vec<TokenTree>,
    /// The group as the compiler prints it.
    pub text: String,
}

/// The text of a token as the compiler prints it.
pub open spec fn token_text(t: TokenTree) -> Seq<char> {
    match t {
        TokenTree::Ident(s) => s@,
        TokenTree::Punct(c) => seq![c],
        TokenTree::Literal(s) => s@,
        TokenTree::Group(g) => g.text@,
    }
}

/// Whether `t` is the punctuation character `ch`.
pub open spec fn spec_is_punct(t: TokenTree, ch: char) -> bool {
    t matches TokenTree::Punct(c) && c == ch
}

/// Whether `token` is the punctuation character `ch`.
pub fn is_punct(token: &TokenTree, ch: char) -> (r: bool)
    ensures
        r == spec_is_punct(*token, ch),
{
    match token {
        TokenTree::Punct(c) => *c == ch,
        _ => false,
    }
}

/// The text of a token as the compiler prints it.
pub fn token_to_string(t: &TokenTree) -> (r: String)
    ensures
        r@ == token_text(*t),
{
    match t {
        TokenTree::Ident(s) => s.clone(),
        TokenTree::Punct(c) => {
            let mut s = String::new();
            push_char(&mut s, *c);
            assert(s@ =~= seq![*c]);
            s
        },
        TokenTree::Literal(s) => s.clone(),
        TokenTree::Group(g) => g.text.clone(),
    }
}

// ---------------------------------------------------------------------------
// Splitting at top-level commas
// ---------------------------------------------------------------------------

/// The angle-bracket depth after `s`: each `<` opens a level and each `>` closes one,
/// never going below zero.
pub open spec fn angle_depth(s: Seq<TokenTree>) -> nat
    decreases s.len(),
{
    if s.len() == 0 {
        0
    } else {
        let d = angle_depth(s.drop_last());
        if spec_is_punct(s.last(), '<') {
            d + 1
        } else if spec_is_punct(s.last(), '>') {
            if d > 0 {
                (d - 1) as nat
            } else {
                0
            }
        } else {
            d
        }
    }
}

/// Reading `s` segment by segment: the finished segments and the one being read. A comma
/// outside angle brackets ends a segment and belongs to none.
pub open spec fn split_state(s: Seq<TokenTree>) -> (Seq<Seq<TokenTree>>, Seq<TokenTree>)
    decreases s.len(),
{
    if s.len() == 0 {
        (Seq::empty(), Seq::empty())
    } else {
        let (parts, cur) = split_state(s.drop_last());
        if spec_is_punct(s.last(), ',') && angle_depth(s.drop_last()) == 0 {
            (parts.push(cur), Seq::empty())
        } else {
            (parts, cur.push(s.last()))
        }
    }
}

/// The segments of `s` between its commas outside angle brackets (always at least one).
pub open spec fn split_top_level(s: Seq<TokenTree>) -> Seq<Seq<TokenTree>> {
    split_state(s).0.push(split_state(s).1)
}

/// The tokens that a sequence of references points to.
pub open spec fn tokens_of(s: Seq<&TokenTree>) -> Seq<TokenTree> {
    Seq::new(s.len(), |i: int| *s[i])
}

/// The token sequences of a sequence of segments.
pub open spec fn segments_of(s: Seq<Vec<&TokenTree>>) -> Seq<Seq<TokenTree>> {
    Seq::new(s.len(), |i: int| tokens_of(s[i]@))
}

/// Splits `stream` at its commas outside angle brackets.
pub fn split_by_top_level_comma<'a>(stream: &'a [TokenTree]) -> (r: Vec<Vec<&'a TokenTree>>)
    ensures
        segments_of(r@) == split_top_level(stream@),
{
    let mut parts: Vec<Vec<&TokenTree>> = Vec::new();
    let mut current: Vec<&TokenTree> = Vec::new();
    let mut angle: usize = 0;
    let mut i: usize = 0;
    while i < stream.len()
        invariant
            i <= stream@.len(),
            angle == angle_depth(stream@.take(i as int)),
            angle <= i,
            segments_of(parts@) == split_state(stream@.take(i as int)).0,
            tokens_of(current@) == split_state(stream@.take(i as int)).1,
        decreases stream.len() - i,
    {
        let ghost prefix = stream@.take(i as int);
        let ghost next = stream@.take(i + 1);
        assert(next.drop_last() =~= prefix);
        assert(next.last() == stream@[i as int]);
        let token = &stream[i];
        let at_top = angle == 0;
        if is_punct(token, ',') && at_top {
            let ghost before = segments_of(parts@);
            let mut done: Vec<&TokenTree> = Vec::new();
            std::mem::swap(&mut done, &mut current);
            parts.push(done);
            assert(segments_of(parts@) =~= before.push(split_state(prefix).1));
            assert(tokens_of(current@) =~= Seq::<TokenTree>::empty());
        } else {
            if is_punct(token, '<') {
                angle = angle + 1;
            } else if is_punct(token, '>') {
                if angle > 0 {
                    angle = angle - 1;
                }
            }
            let ghost before = tokens_of(current@);
            current.push(token);
            assert(tokens_of(current@) =~= before.push(*token));
        }
        i += 1;
    }
    assert(stream@.take(i as int) =~= stream@);
    let ghost before = segments_of(parts@);
    parts.push(current);
    assert(segments_of(parts@) =~= before.push(split_state(stream@).1));
    parts
}

// ---------------------------------------------------------------------------
// `key = value` arguments
// ---------------------------------------------------------------------------

/// The argument a segment gives: an identifier, `=`, and a token whose text is the value.
pub open spec fn kv_of(seg: Seq<TokenTree>) -> Option<(Seq<char>, Seq<char>)> {
    if seg.len() < 3 {
        None
    } else {
        match seg[0] {
            TokenTree::Ident(k) => if spec_is_punct(seg[1], '=') {
                Some((k@, token_text(seg[2])))
            } else {
                None
            },
            _ => None,
        }
    }
}

/// The arguments of the segments that give one, in order.
pub open spec fn kv_args(segs: Seq<Seq<TokenTree>>) -> Seq<(Seq<char>, Seq<char>)>
    decreases segs.len(),
{
    if segs.len() == 0 {
        Seq::empty()
    } else {
        let rest = kv_args(segs.drop_last());
        match kv_of(segs.last()) {
            Some(p) => rest.push(p),
            None => rest,
        }
    }
}

/// The texts of a sequence of string pairs.
pub open spec fn pairs_view(v: Seq<(String, String)>) -> Seq<(Seq<char>, Seq<char>)> {
    Seq::new(v.len(), |i: int| (v[i].0@, v[i].1@))
}

/// The `key = value` arguments of `stream`, one per comma-separated segment that has that
/// shape; other segments are skipped.
pub fn parse_kv_args(stream: &[TokenTree]) -> (r: Vec<(String, String)>)
    ensures
        pairs_view(r@) == kv_args(split_top_level(stream@)),
{
    let segments = split_by_top_level_comma(stream);
    let ghost segs = segments_of(segments@);
    let mut out: Vec<(String, String)> = Vec::new();
    let mut j: usize = 0;
    while j < segments.len()
        invariant
            j <= segments.len(),
            segs == segments_of(segments@),
            pairs_view(out@) == kv_args(segs.take(j as int)),
        decreases segments.len() - j,
    {
        let ghost next = segs.take(j + 1);
        assert(next.drop_last() =~= segs.take(j as int));
        assert(next.last() == tokens_of(segments@[j as int]@));
        let segment = &segments[j];
        let ghost seg = tokens_of(segment@);
        if segment.len() >= 3 {
            assert(seg[0] == *segment@[0]);
            match segment[0] {
                TokenTree::Ident(key) => {
                    if is_punct(segment[1], '=') {
                        let value = token_to_string(segment[2]);
                        let ghost before = pairs_view(out@);
                        out.push((key.clone(), value));
                        assert(pairs_view(out@) =~= before.push((key@, token_text(seg[2]))));
                    }
                },
                _ => {},
            }
        }
        j += 1;
    }
    assert(segs.take(j as int) =~= segs);
    out
}

// ---------------------------------------------------------------------------
// Attributes
// ---------------------------------------------------------------------------

/// The message for an attribute that does not have the expected shape.
pub open spec fn malformed_attribute() -> Seq<char> {
    "Malformed attribute syntax"@
}

/// The texts of an [`Attr`].
pub struct AttrView {
    pub name: Seq<char>,
    pub args: Seq<(Seq<char>, Seq<char>)>,
}

impl View for Attr {
    type V = AttrView;

    open spec fn view(&self) -> AttrView {
        AttrView { name: self.name@, args: pairs_view(self.args@) }
    }
}

/// The attribute that the contents of `#[...]` give: a name, optionally followed by one
/// parenthesized group of `key = value` arguments.
pub open spec fn spec_parse_attr(g: Group) -> Result<AttrView, Seq<char>> {
    let ts = g.stream@;
    if ts.len() == 0 {
        Err(malformed_attribute())
    } else {
        match ts[0] {
            TokenTree::Ident(name) => if ts.len() == 1 {
                Ok(AttrView { name: name@, args: Seq::empty() })
            } else if ts.len() != 2 {
                Err(malformed_attribute())
            } else {
                match ts[1] {
                    TokenTree::Group(a) => if a.delimiter == Delimiter::Parenthesis {
                        Ok(AttrView { name: name@, args: kv_args(split_top_level(a.stream@)) })
                    } else {
                        Err(malformed_attribute())
                    },
                    _ => Err(malformed_attribute()),
                }
            },
            _ => Err(malformed_attribute()),
        }
    }
}

/// The view of an attribute result.
pub open spec fn attr_result_view(r: Result<Attr, String>) -> Result<AttrView, Seq<char>> {
    match r {
        Ok(a) => Ok(a@),
        Err(e) => Err(e@),
    }
}

/// Reads the contents of `#[...]` as an attribute.
pub fn parse_attr(group: &Group) -> (r: Result<Attr, String>)
    ensures
        attr_result_view(r) == spec_parse_attr(*group),
{
    let tokens = &group.stream;
    if tokens.len() == 0 {
        return Err("Malformed attribute syntax".to_owned());
    }
    let name = match &tokens[0] {
        TokenTree::Ident(ident) => ident.clone(),
        _ => {
            return Err("Malformed attribute syntax".to_owned());
        },
    };
    if tokens.len() == 1 {
        let r = Attr { name, args: Vec::new() };
        assert(r@.args =~= Seq::<(Seq<char>, Seq<char>)>::empty());
        return Ok(r);
    }
    if tokens.len() != 2 {
        return Err("Malformed attribute syntax".to_owned());
    }
    match &tokens[1] {
        TokenTree::Group(g) => {
            if g.delimiter == Delimiter::Parenthesis {
                let args = parse_kv_args(g.stream.as_slice());
                Ok(Attr { name, args })
            } else {
                Err("Malformed attribute syntax".to_owned())
            }
        },
        _ => Err("Malformed attribute syntax".to_owned()),
    }
}

/// Reading attributes from position `i` of `ts`: each `#` followed by a bracketed group is
/// an attribute; the first token that does not start one ends the prefix. The result is
/// the attributes and the position after them, or the first error.
pub open spec fn attr_prefix(ts: Seq<TokenTree>, i: int) -> Result<(Seq<AttrView>, int), Seq<char>>
    decreases ts.len() - i,
{
    if 0 <= i && i + 1 < ts.len() && spec_is_punct(ts[i], '#') {
        match ts[i + 1] {
            TokenTree::Group(g) => if g.delimiter == Delimiter::Bracket {
                match spec_parse_attr(g) {
                    Ok(a) => match attr_prefix(ts, i + 2) {
                        Ok((rest, n)) => Ok((seq![a] + rest, n)),
                        Err(e) => Err(e),
                    },
                    Err(e) => Err(e),
                }
            } else {
                Err(malformed_attribute())
            },
            _ => Err(malformed_attribute()),
        }
    } else {
        Ok((Seq::empty(), i))
    }
}

/// The views of a sequence of attributes.
pub open spec fn attrs_view(v: Seq<Attr>) -> Seq<AttrView> {
    Seq::new(v.len(), |i: int| v[i]@)
}

/// `r` with `head` in front of its attributes.
pub open spec fn prepend_attrs(
    head: Seq<AttrView>,
    r: Result<(Seq<AttrView>, int), Seq<char>>,
) -> Result<(Seq<AttrView>, int), Seq<char>> {
    match r {
        Ok((rest, n)) => Ok((head + rest, n)),
        Err(e) => Err(e),
    }
}

/// The attributes at the start of `tokens` and the position after them.
pub fn parse_attr_prefix(tokens: &[TokenTree]) -> (r: Result<(Vec<Attr>, usize), String>)
    ensures
        match r {
            Ok((attrs, n)) => attr_prefix(tokens@, 0) == Ok::<(Seq<AttrView>, int), Seq<char>>(
                (attrs_view(attrs@), n as int),
            ),
            Err(e) => attr_prefix(tokens@, 0) == Err::<(Seq<AttrView>, int), Seq<char>>(e@),
        },
{
    let mut attrs: Vec<Attr> = Vec::new();
    let mut i: usize = 0;
    while tokens.len() - i > 1
        invariant
            i <= tokens@.len(),
            attr_prefix(tokens@, 0) == prepend_attrs(attrs_view(attrs@), attr_prefix(tokens@, i as int)),
        ensures
            i <= tokens@.len(),
            attr_prefix(tokens@, 0) == prepend_attrs(attrs_view(attrs@), attr_prefix(tokens@, i as int)),
            attr_prefix(tokens@, i as int) == Ok::<(Seq<AttrView>, int), Seq<char>>((Seq::empty(), i as int)),
        decreases tokens.len() - i,
    {
        if !is_punct(&tokens[i], '#') {
            break;
        }
        let group = match &tokens[i + 1] {
            TokenTree::Group(g) => {
                if g.delimiter == Delimiter::Bracket {
                    g
                } else {
                    return Err("Malformed attribute syntax".to_owned());
                }
            },
            _ => {
                return Err("Malformed attribute syntax".to_owned());
            },
        };
        let attr = match parse_attr(group) {
            Ok(a) => a,
            Err(e) => {
                return Err(e);
            },
        };
        let ghost before = attrs_view(attrs@);
        attrs.push(attr);
        proof {
            assert(attrs_view(attrs@) =~= before.push(attr@));
            let tail = attr_prefix(tokens@, i + 2);
            match tail {
                Ok((rest, n)) => {
                    assert(before + (seq![attr@] + rest) =~= before.push(attr@) + rest);
                },
                Err(_) => {},
            }
        }
        i += 2;
    }
    assert(attrs_view(attrs@) + Seq::<AttrView>::empty() =~= attrs_view(attrs@));
    Ok((attrs, i))
}

// ---------------------------------------------------------------------------
// Declarations
// ---------------------------------------------------------------------------

/// The first position of the identifier `keyword` in `ts`, if any.
pub open spec fn first_keyword(ts: Seq<TokenTree>, keyword: Seq<char>) -> Option<int>
    decreases ts.len(),
{
    if ts.len() == 0 {
        None
    } else {
        match first_keyword(ts.drop_last(), keyword) {
            Some(p) => Some(p),
            None => if ts.last() matches TokenTree::Ident(s) && s@ == keyword {
                Some(ts.len() - 1)
            } else {
                None
            },
        }
    }
}

/// Whether `t` is a group in braces.
pub open spec fn is_brace_group(t: TokenTree) -> bool {
    t matches TokenTree::Group(g) && g.delimiter == Delimiter::Brace
}

/// The first position at or after `from` of a group in braces, if any.
pub open spec fn first_brace_group(ts: Seq<TokenTree>, from: int) -> Option<int>
    decreases ts.len() - from,
{
    if from < 0 || from >= ts.len() {
        None
    } else if is_brace_group(ts[from]) {
        Some(from)
    } else {
        first_brace_group(ts, from + 1)
    }
}

/// A declaration introduced by `keyword`: the keyword's first position, the name after
/// it, and the position of the first braced group after the name. `None` for the
/// declaration error (no keyword, or no identifier after it), `Some(None)` when there is
/// no body.
pub open spec fn spec_named_decl(ts: Seq<TokenTree>, keyword: Seq<char>) -> Option<Option<(int, Seq<char>, int)>> {
    match first_keyword(ts, keyword) {
        None => None,
        Some(d) => if d + 1 < ts.len() && ts[d + 1] is Ident {
            match first_brace_group(ts, d + 2) {
                Some(b) => Some(Some((d, ts[d + 1]->Ident_0@, b))),
                None => Some(None),
            }
        } else {
            None
        },
    }
}

/// Finds the declaration introduced by `keyword`: the keyword's position, the declared
/// name and the body in braces; `decl_error` when there is no keyword followed by a name,
/// `body_error` when no braced body follows.
pub fn parse_named_decl<'a>(
    tokens: &'a [TokenTree],
    keyword: &str,
    decl_error: &str,
    body_error: &str,
) -> (r: Result<(usize, String, &'a Group), String>)
    ensures
        match spec_named_decl(tokens@, keyword@) {
            None => r matches Err(e) && e@ == decl_error@,
            Some(None) => r matches Err(e) && e@ == body_error@,
            Some(Some((d, name, b))) => r matches Ok((d2, n2, g)) && d2 == d && n2@ == name && tokens@[b]
                == TokenTree::Group(*g),
        },
{
    let mut d: usize = 0;
    while d < tokens.len()
        invariant
            d <= tokens@.len(),
            first_keyword(tokens@.take(d as int), keyword@) is None,
        ensures
            d <= tokens@.len(),
            first_keyword(tokens@.take(d as int), keyword@) is None,
            d < tokens@.len() ==> (tokens@[d as int] matches TokenTree::Ident(s) && s@ == keyword@),
        decreases tokens.len() - d,
    {
        assert(tokens@.take(d + 1).drop_last() =~= tokens@.take(d as int));
        let found = match &tokens[d] {
            TokenTree::Ident(ident) => str_eq(ident.as_str(), keyword),
            _ => false,
        };
        if found {
            break;
        }
        d += 1;
    }
    proof {
        lemma_first_keyword_prefix(tokens@, keyword@, d as int);
    }
    if d >= tokens.len() {
        assert(tokens@.take(d as int) =~= tokens@);
        return Err(decl_error.to_owned());
    }
    if d + 1 >= tokens.len() {
        return Err(decl_error.to_owned());
    }
    let name = match &tokens[d + 1] {
        TokenTree::Ident(n) => n.clone(),
        _ => {
            return Err(decl_error.to_owned());
        },
    };
    let mut b: usize = d + 2;
    while b < tokens.len()
        invariant
            d + 2 <= b <= tokens@.len(),
            first_keyword(tokens@, keyword@) == Some(d as int),
            tokens@[d + 1] matches TokenTree::Ident(n) && n@ == name@,
            first_brace_group(tokens@, d + 2) == first_brace_group(tokens@, b as int),
        decreases tokens.len() - b,
    {
        match &tokens[b] {
            TokenTree::Group(g) => {
                if g.delimiter == Delimiter::Brace {
                    assert(is_brace_group(tokens@[b as int]));
                    assert(first_brace_group(tokens@, b as int) == Some(b as int));
                    return Ok((d, name, g));
                }
            },
            _ => {},
        }
        b += 1;
    }
    Err(body_error.to_owned())
}

proof fn lemma_first_keyword_prefix(ts: Seq<TokenTree>, keyword: Seq<char>, d: int)
    requires
        0 <= d <= ts.len(),
        first_keyword(ts.take(d), keyword) is None,
        d < ts.len() ==> (ts[d] matches TokenTree::Ident(s) && s@ == keyword),
    ensures
        d < ts.len() ==> first_keyword(ts, keyword) == Some(d),
        d == ts.len() ==> first_keyword(ts, keyword) is None,
{
    if d == ts.len() {
        assert(ts.take(d) =~= ts);
    } else {
        assert(ts.take(d + 1).drop_last() =~= ts.take(d));
        assert(ts.take(d + 1).last() == ts[d]);
        assert(first_keyword(ts.take(d + 1), keyword) == Some(d));
        lemma_first_keyword_extend(ts, keyword, d + 1, d);
    }
}

proof fn lemma_first_keyword_extend(ts: Seq<TokenTree>, keyword: Seq<char>, n: int, p: int)
    requires
        0 < n <= ts.len(),
        first_keyword(ts.take(n), keyword) == Some(p),
    ensures
        first_keyword(ts, keyword) == Some(p),
    decreases ts.len() - n,
{
    if n < ts.len() {
        assert(ts.take(n + 1).drop_last() =~= ts.take(n));
        assert(first_keyword(ts.take(n + 1), keyword) == Some(p));
        lemma_first_keyword_extend(ts, keyword, n + 1, p);
    } else {
        assert(ts.take(n) =~= ts);
    }
}

} // verus!
