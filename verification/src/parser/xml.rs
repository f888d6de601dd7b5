//! Lexing of the report document's markup into a flat token stream.
//!
//! The supported subset is what exported report documents use: an
//! optional leading declaration (`<?xml` … `?>`), elements with
//! double- or single-quoted attributes, self-closing elements, text
//! content, and the five named character references (`&lt;` `&gt;`
//! `&amp;` `&quot;` `&apos;`). Comments, processing instructions past
//! the leading declaration, document type declarations and other
//! references are not markup this lexer accepts.

use crate::text::{starts_with_at, str_at, string_range};
use vstd::prelude::*;

verus! {

/// One attribute of an element tag.
#[derive(Debug, Clone, PartialEq)]
pub struct Attr {
    pub name: String,
    pub value: String,
}

/// Mathematical image of an `Attr`.
pub struct AttrV {
    pub name: Seq<char>,
    pub value: Seq<char>,
}

impl View for Attr {
    type V = AttrV;

    open spec fn view(&self) -> AttrV {
        AttrV { name: self.name@, value: self.value@ }
    }
}

/// One markup token: an opening tag, a closing tag, a self-closing tag,
/// or a run of text with its character references decoded.
#[derive(Debug, Clone, PartialEq)]
pub enum XmlToken {
    Open { name: String, attrs: Vec<Attr> },
    Close { name: String },
    Empty { name: String, attrs: Vec<Attr> },
    Text { value: String },
}

/// Mathematical image of an `XmlToken`.
pub enum TokenV {
    Open { name: Seq<char>, attrs: Seq<AttrV> },
    Close { name: Seq<char> },
    Empty { name: Seq<char>, attrs: Seq<AttrV> },
    Text { value: Seq<char> },
}

impl View for XmlToken {
    type V = TokenV;

    open spec fn view(&self) -> TokenV {
        match *self {
            XmlToken::Open { ref name, ref attrs } => TokenV::Open {
                name: name@,
                attrs: attrs@.map_values(|a: Attr| a@),
            },
            XmlToken::Close { ref name } => TokenV::Close { name: name@ },
            XmlToken::Empty { ref name, ref attrs } => TokenV::Empty {
                name: name@,
                attrs: attrs@.map_values(|a: Attr| a@),
            },
            XmlToken::Text { ref value } => TokenV::Text { value: value@ },
        }
    }
}

/// Markup whitespace.
pub open spec fn is_ws(c: char) -> bool {
    c == ' ' || c == '\t' || c == '\r' || c == '\n'
}

/// A character a tag or attribute name may hold.
pub open spec fn is_name_char(c: char) -> bool {
    ||| 48 <= c as int <= 57
    ||| 65 <= c as int <= 90
    ||| 97 <= c as int <= 122
    ||| c as int == 95  // '_'
    ||| c as int == 45  // '-'
    ||| c as int == 58  // ':'
    ||| c as int == 46  // '.'
}

/// The first position at or after `i` that does not hold whitespace.
pub open spec fn skip_ws(s: Seq<char>, i: int) -> int
    decreases s.len() - i,
{
    if i < 0 || i >= s.len() {
        i
    } else if is_ws(s[i]) {
        skip_ws(s, i + 1)
    } else {
        i
    }
}

/// The first position at or after `i` that does not hold a name
/// character.
pub open spec fn name_end(s: Seq<char>, i: int) -> int
    decreases s.len() - i,
{
    if i < 0 || i >= s.len() {
        i
    } else if is_name_char(s[i]) {
        name_end(s, i + 1)
    } else {
        i
    }
}

/// Clamps a scanned position to keep it from moving backwards.
pub open spec fn at_least(lo: int, e: int) -> int {
    if e < lo {
        lo
    } else {
        e
    }
}

/// Clamps a scanned position into the range past `lo` and at most the
/// end of the text.
pub open spec fn step_to(s: Seq<char>, lo: int, e: int) -> int {
    if lo < e && e <= s.len() {
        e
    } else {
        s.len() as int
    }
}

/// The character a named reference at position `i` denotes, and the
/// position right after it.
pub open spec fn decode_entity(s: Seq<char>, i: int) -> Option<(char, int)> {
    if starts_with_at(s, i, "&lt;"@) {
        Some(('<', i + 4))
    } else if starts_with_at(s, i, "&gt;"@) {
        Some(('>', i + 4))
    } else if starts_with_at(s, i, "&amp;"@) {
        Some(('&', i + 5))
    } else if starts_with_at(s, i, "&quot;"@) {
        Some(('"', i + 6))
    } else if starts_with_at(s, i, "&apos;"@) {
        Some(('\'', i + 6))
    } else {
        None
    }
}

/// The text run from `i` to the next `<` or to the end, with character
/// references decoded, and the position where the run stops; nothing on
/// a reference the lexer does not accept.
pub open spec fn scan_text(s: Seq<char>, i: int) -> Option<(Seq<char>, int)>
    decreases s.len() - i,
{
    if i < 0 || i >= s.len() {
        Some((Seq::empty(), i))
    } else if s[i] == '<' {
        Some((Seq::empty(), i))
    } else if s[i] == '&' {
        match decode_entity(s, i) {
            None => None,
            Some((c, j0)) => match scan_text(s, step_to(s, i, j0)) {
                None => None,
                Some((t, e)) => Some((seq![c] + t, e)),
            },
        }
    } else {
        match scan_text(s, i + 1) {
            None => None,
            Some((t, e)) => Some((seq![s[i]] + t, e)),
        }
    }
}

/// The quoted value from `i` to the closing quote `q`, with character
/// references decoded, and the position right after the quote; nothing
/// on an unterminated value or a reference the lexer does not accept.
pub open spec fn scan_quoted(s: Seq<char>, i: int, q: char) -> Option<(Seq<char>, int)>
    decreases s.len() - i,
{
    if i < 0 || i >= s.len() {
        None
    } else if s[i] == q {
        Some((Seq::empty(), i + 1))
    } else if s[i] == '&' {
        match decode_entity(s, i) {
            None => None,
            Some((c, j0)) => match scan_quoted(s, step_to(s, i, j0), q) {
                None => None,
                Some((t, e)) => Some((seq![c] + t, e)),
            },
        }
    } else {
        match scan_quoted(s, i + 1, q) {
            None => None,
            Some((t, e)) => Some((seq![s[i]] + t, e)),
        }
    }
}

/// The attribute list from `i` on: name, `=`, quoted value, repeated,
/// with whitespace between parts, and the position where the list stops;
/// nothing on malformed attribute syntax.
pub open spec fn scan_attrs(s: Seq<char>, i: int) -> Option<(Seq<AttrV>, int)>
    decreases s.len() - i,
{
    let j = at_least(i, skip_ws(s, i));
    if j >= s.len() {
        Some((Seq::empty(), j))
    } else if is_name_char(s[j]) {
        let ne = at_least(j + 1, name_end(s, j));
        let name = s.subrange(j, ne);
        let k = at_least(ne, skip_ws(s, ne));
        if k < s.len() && s[k] == '=' {
            let v = at_least(k + 1, skip_ws(s, k + 1));
            if v < s.len() && (s[v] == '"' || s[v] == '\'') {
                match scan_quoted(s, v + 1, s[v]) {
                    None => None,
                    Some((value, e0)) => {
                        let e = step_to(s, v + 1, e0);
                        match scan_attrs(s, e) {
                            None => None,
                            Some((rest, end)) => Some(
                                (seq![AttrV { name, value }] + rest, end),
                            ),
                        }
                    },
                }
            } else {
                None
            }
        } else {
            None
        }
    } else {
        Some((Seq::empty(), j))
    }
}

/// The first position at or after `i` where `pat` stands, if any.
pub open spec fn find_seq(s: Seq<char>, i: int, pat: Seq<char>) -> Option<int>
    decreases s.len() - i,
{
    if pat.len() == 0 {
        Some(i)
    } else if i < 0 || i + pat.len() > s.len() {
        None
    } else if starts_with_at(s, i, pat) {
        Some(i)
    } else {
        find_seq(s, i + 1, pat)
    }
}

/// Where the document's content begins: after leading whitespace and an
/// optional `<?xml` … `?>` declaration; nothing when the declaration
/// never ends.
pub open spec fn content_start(s: Seq<char>) -> Option<int> {
    let j = at_least(0, skip_ws(s, 0));
    if starts_with_at(s, j, "<?xml"@) {
        match find_seq(s, j, "?>"@) {
            None => None,
            Some(q) => Some(q + 2),
        }
    } else {
        Some(j)
    }
}

/// The token stream from position `i` to the end of the document;
/// nothing on markup the lexer does not accept.
pub open spec fn tokens_from(s: Seq<char>, i: int) -> Option<Seq<TokenV>>
    decreases s.len() - i,
{
    if i < 0 || i >= s.len() {
        Some(Seq::empty())
    } else if s[i] == '<' {
        if i + 1 < s.len() && s[i + 1] == '/' {
            let j = i + 2;
            if j < s.len() && is_name_char(s[j]) {
                let ne = at_least(j + 1, name_end(s, j));
                let name = s.subrange(j, ne);
                let k = at_least(ne, skip_ws(s, ne));
                if k < s.len() && s[k] == '>' {
                    match tokens_from(s, k + 1) {
                        None => None,
                        Some(rest) => Some(seq![TokenV::Close { name }] + rest),
                    }
                } else {
                    None
                }
            } else {
                None
            }
        } else {
            let j = i + 1;
            if j < s.len() && is_name_char(s[j]) {
                let ne = at_least(j + 1, name_end(s, j));
                let name = s.subrange(j, ne);
                match scan_attrs(s, ne) {
                    None => None,
                    Some((attrs, k0)) => {
                        let k = at_least(ne, k0);
                        if k < s.len() && s[k] == '>' {
                            match tokens_from(s, k + 1) {
                                None => None,
                                Some(rest) => Some(seq![TokenV::Open { name, attrs }] + rest),
                            }
                        } else if k + 1 < s.len() && s[k] == '/' && s[k + 1] == '>' {
                            match tokens_from(s, k + 2) {
                                None => None,
                                Some(rest) => Some(seq![TokenV::Empty { name, attrs }] + rest),
                            }
                        } else {
                            None
                        }
                    },
                }
            } else {
                None
            }
        }
    } else {
        match scan_text(s, i) {
            None => None,
            Some((t, e0)) => {
                let e = step_to(s, i, e0);
                match tokens_from(s, e) {
                    None => None,
                    Some(rest) => Some(seq![TokenV::Text { value: t }] + rest),
                }
            },
        }
    }
}

/// The document's token stream: its content lexed after the optional
/// leading declaration.
pub open spec fn spec_tokens(s: Seq<char>) -> Option<Seq<TokenV>> {
    match content_start(s) {
        None => None,
        Some(p) => tokens_from(s, p),
    }
}

/// The first position at or after `i` not holding whitespace.
pub fn skip_ws_at(cs: &Vec<char>, i: usize) -> (r: usize)
    requires
        i <= cs@.len(),
    ensures
        r == skip_ws(cs@, i as int),
        i <= r <= cs@.len(),
{
    let n = cs.len();
    let mut j: usize = i;
    while j < n
        invariant
            n == cs@.len(),
            i <= j <= n,
            skip_ws(cs@, i as int) == skip_ws(cs@, j as int),
        decreases n - j,
    {
        let c = cs[j];
        if !(c == ' ' || c == '\t' || c == '\r' || c == '\n') {
            return j;
        }
        j = j + 1;
    }
    j
}

/// Whether `c` is a character a name may hold.
fn name_char(c: char) -> (r: bool)
    ensures
        r == is_name_char(c),
{
    let cu = c as u32;
    (48 <= cu && cu <= 57) || (65 <= cu && cu <= 90) || (97 <= cu && cu <= 122) || cu == 95 || cu
        == 45 || cu == 58 || cu == 46
}

/// The first position at or after `i` not holding a name character.
pub fn name_end_at(cs: &Vec<char>, i: usize) -> (r: usize)
    requires
        i <= cs@.len(),
    ensures
        r == name_end(cs@, i as int),
        i <= r <= cs@.len(),
        i < cs@.len() && is_name_char(cs@[i as int]) ==> i < r,
{
    let n = cs.len();
    let mut j: usize = i;
    while j < n
        invariant
            n == cs@.len(),
            i <= j <= n,
            name_end(cs@, i as int) == name_end(cs@, j as int),
        decreases n - j,
    {
        if !name_char(cs[j]) {
            return j;
        }
        j = j + 1;
    }
    j
}

/// The character a named reference at `i` denotes, and the position
/// right after it.
pub fn try_entity(cs: &Vec<char>, i: usize) -> (r: Option<(char, usize)>)
    requires
        i <= cs@.len(),
    ensures
        match r {
            Some((c, j)) => decode_entity(cs@, i as int) == Some((c, j as int)) && i < j
                <= cs@.len(),
            None => decode_entity(cs@, i as int) is None,
        },
{
    let n = cs.len();
    proof {
        reveal_strlit("&lt;");
        reveal_strlit("&gt;");
        reveal_strlit("&amp;");
        reveal_strlit("&quot;");
        reveal_strlit("&apos;");
    }
    if str_at(cs, i, "&lt;") {
        Some(('<', i + 4))
    } else if str_at(cs, i, "&gt;") {
        Some(('>', i + 4))
    } else if str_at(cs, i, "&amp;") {
        Some(('&', i + 5))
    } else if str_at(cs, i, "&quot;") {
        Some(('"', i + 6))
    } else if str_at(cs, i, "&apos;") {
        Some(('\'', i + 6))
    } else {
        None
    }
}

/// The text run from `i` to the next `<` or to the end, with character
/// references decoded; the error carries the position of a reference the
/// lexer does not accept.
pub fn scan_text_at(cs: &Vec<char>, i: usize) -> (r: Result<(String, usize), usize>)
    requires
        i <= cs@.len(),
    ensures
        match r {
            Ok((t, e)) => {
                &&& scan_text(cs@, i as int) == Some((t@, e as int))
                &&& i <= e <= cs@.len()
                &&& (i < cs@.len() && cs@[i as int] != '<' ==> i < e)
            },
            Err(p) => scan_text(cs@, i as int) is None,
        },
{
    let n = cs.len();
    let mut out = String::new();
    let mut cur: usize = i;
    loop
        invariant
            n == cs@.len(),
            i <= cur <= n,
            cur == i ==> out@.len() == 0,
            match scan_text(cs@, cur as int) {
                None => scan_text(cs@, i as int) is None,
                Some((t, e)) => scan_text(cs@, i as int) == Some((out@ + t, e)),
            },
        decreases n - cur,
    {
        if cur == n {
            proof {
                assert(out@ + Seq::<char>::empty() =~= out@);
            }
            return Ok((out, cur));
        }
        let c = cs[cur];
        if c == '<' {
            proof {
                assert(out@ + Seq::<char>::empty() =~= out@);
            }
            return Ok((out, cur));
        }
        if c == '&' {
            match try_entity(cs, cur) {
                None => {
                    return Err(cur);
                },
                Some((d, j)) => {
                    let ghost prev = out@;
                    crate::text::push_char(&mut out, d);
                    proof {
                        assert(step_to(cs@, cur as int, j as int) == j as int);
                        match scan_text(cs@, j as int) {
                            Some((t, e)) => {
                                assert(prev + (seq![d] + t) =~= prev.push(d) + t);
                            },
                            None => {},
                        }
                    }
                    cur = j;
                },
            }
        } else {
            let ghost prev = out@;
            crate::text::push_char(&mut out, c);
            proof {
                match scan_text(cs@, cur + 1) {
                    Some((t, e)) => {
                        assert(prev + (seq![c] + t) =~= prev.push(c) + t);
                    },
                    None => {},
                }
            }
            cur = cur + 1;
        }
    }
}

/// The quoted value from `i` to the closing quote, with character
/// references decoded; the error carries the position of an unterminated
/// value or of a reference the lexer does not accept.
pub fn scan_quoted_at(cs: &Vec<char>, i: usize, q: char) -> (r: Result<(String, usize), usize>)
    requires
        i <= cs@.len(),
    ensures
        match r {
            Ok((t, e)) => {
                &&& scan_quoted(cs@, i as int, q) == Some((t@, e as int))
                &&& i < e <= cs@.len()
            },
            Err(p) => scan_quoted(cs@, i as int, q) is None,
        },
{
    let n = cs.len();
    let mut out = String::new();
    let mut cur: usize = i;
    loop
        invariant
            n == cs@.len(),
            i <= cur <= n,
            match scan_quoted(cs@, cur as int, q) {
                None => scan_quoted(cs@, i as int, q) is None,
                Some((t, e)) => scan_quoted(cs@, i as int, q) == Some((out@ + t, e)),
            },
        decreases n - cur,
    {
        if cur == n {
            return Err(cur);
        }
        let c = cs[cur];
        if c == q {
            proof {
                assert(out@ + Seq::<char>::empty() =~= out@);
            }
            return Ok((out, cur + 1));
        }
        if c == '&' {
            match try_entity(cs, cur) {
                None => {
                    return Err(cur);
                },
                Some((d, j)) => {
                    let ghost prev = out@;
                    crate::text::push_char(&mut out, d);
                    proof {
                        assert(step_to(cs@, cur as int, j as int) == j as int);
                        match scan_quoted(cs@, j as int, q) {
                            Some((t, e)) => {
                                assert(prev + (seq![d] + t) =~= prev.push(d) + t);
                            },
                            None => {},
                        }
                    }
                    cur = j;
                },
            }
        } else {
            let ghost prev = out@;
            crate::text::push_char(&mut out, c);
            proof {
                match scan_quoted(cs@, cur + 1, q) {
                    Some((t, e)) => {
                        assert(prev + (seq![c] + t) =~= prev.push(c) + t);
                    },
                    None => {},
                }
            }
            cur = cur + 1;
        }
    }
}

/// The attribute list from `i` on; the error carries the position where
/// the attribute syntax breaks.
pub fn scan_attrs_at(cs: &Vec<char>, i: usize) -> (r: Result<(Vec<Attr>, usize), usize>)
    requires
        i <= cs@.len(),
    ensures
        match r {
            Ok((attrs, e)) => {
                &&& scan_attrs(cs@, i as int) == Some(
                    (attrs@.map_values(|a: Attr| a@), e as int),
                )
                &&& i <= e <= cs@.len()
            },
            Err(p) => scan_attrs(cs@, i as int) is None,
        },
{
    let n = cs.len();
    let mut out: Vec<Attr> = Vec::new();
    let mut cur: usize = i;
    loop
        invariant
            n == cs@.len(),
            i <= cur <= n,
            match scan_attrs(cs@, cur as int) {
                None => scan_attrs(cs@, i as int) is None,
                Some((rest, e)) => scan_attrs(cs@, i as int) == Some(
                    (out@.map_values(|a: Attr| a@) + rest, e),
                ),
            },
        decreases n - cur,
    {
        let ghost outv = out@.map_values(|a: Attr| a@);
        let j = skip_ws_at(cs, cur);
        proof {
            assert(at_least(cur as int, skip_ws(cs@, cur as int)) == j as int);
        }
        if j >= n {
            proof {
                assert(outv + Seq::<AttrV>::empty() =~= outv);
            }
            return Ok((out, j));
        }
        if !name_char(cs[j]) {
            proof {
                assert(outv + Seq::<AttrV>::empty() =~= outv);
            }
            return Ok((out, j));
        }
        let ne = name_end_at(cs, j);
        proof {
            assert(at_least(j + 1, name_end(cs@, j as int)) == ne as int);
        }
        let k = skip_ws_at(cs, ne);
        proof {
            assert(at_least(ne as int, skip_ws(cs@, ne as int)) == k as int);
        }
        if !(k < n && cs[k] == '=') {
            return Err(k);
        }
        let v = skip_ws_at(cs, k + 1);
        proof {
            assert(at_least(k + 1, skip_ws(cs@, k + 1)) == v as int);
        }
        if !(v < n && (cs[v] == '"' || cs[v] == '\'')) {
            return Err(v);
        }
        let q = cs[v];
        match scan_quoted_at(cs, v + 1, q) {
            Err(p) => {
                return Err(p);
            },
            Ok((value, e)) => {
                proof {
                    assert(step_to(cs@, v + 1, e as int) == e as int);
                }
                let name = string_range(cs, j, ne);
                let attr = Attr { name, value };
                proof {
                    match scan_attrs(cs@, e as int) {
                        Some((rest, end)) => {
                            assert(outv + (seq![attr@] + rest) =~= (outv + seq![attr@]) + rest);
                        },
                        None => {},
                    }
                }
                out.push(attr);
                proof {
                    assert(out@.map_values(|a: Attr| a@) =~= outv + seq![attr@]);
                }
                cur = e;
            },
        }
    }
}

/// The first position at or after `i` where the literal stands.
fn find_at(cs: &Vec<char>, i: usize, pat: &str) -> (r: Option<usize>)
    requires
        i <= cs@.len(),
        pat@.len() >= 1,
    ensures
        match r {
            Some(p) => {
                &&& find_seq(cs@, i as int, pat@) == Some(p as int)
                &&& i <= p
                &&& p + pat@.len() <= cs@.len()
            },
            None => find_seq(cs@, i as int, pat@) is None,
        },
{
    let n = cs.len();
    let m = pat.unicode_len();
    if m > n || i > n - m {
        return None;
    }
    let mut j: usize = i;
    while j <= n - m
        invariant
            n == cs@.len(),
            m == pat@.len(),
            1 <= m <= n,
            i <= j <= n - m + 1,
            find_seq(cs@, i as int, pat@) == find_seq(cs@, j as int, pat@),
        decreases n - j,
    {
        if str_at(cs, j, pat) {
            return Some(j);
        }
        j = j + 1;
    }
    None
}

/// Lexes a whole document into its token stream; the error carries the
/// position where the markup breaks.
#[verifier::rlimit(80)]
pub fn tokenize(cs: &Vec<char>) -> (r: Result<Vec<XmlToken>, usize>)
    ensures
        match r {
            Ok(toks) => spec_tokens(cs@) == Some(toks@.map_values(|t: XmlToken| t@)),
            Err(p) => spec_tokens(cs@) is None,
        },
{
    let n = cs.len();
    proof {
        reveal_strlit("<?xml");
        reveal_strlit("?>");
    }
    let j = skip_ws_at(cs, 0);
    proof {
        assert(at_least(0, skip_ws(cs@, 0)) == j as int);
    }
    let start: usize;
    if str_at(cs, j, "<?xml") {
        match find_at(cs, j, "?>") {
            None => {
                return Err(j);
            },
            Some(q) => {
                start = q + 2;
            },
        }
    } else {
        start = j;
    }
    proof {
        assert(content_start(cs@) == Some(start as int));
    }
    let mut out: Vec<XmlToken> = Vec::new();
    let mut cur: usize = start;
    loop
        invariant
            n == cs@.len(),
            start <= cur <= n,
            content_start(cs@) == Some(start as int),
            match tokens_from(cs@, cur as int) {
                None => tokens_from(cs@, start as int) is None,
                Some(rest) => tokens_from(cs@, start as int) == Some(
                    out@.map_values(|t: XmlToken| t@) + rest,
                ),
            },
        decreases n - cur,
    {
        let ghost outv = out@.map_values(|t: XmlToken| t@);
        if cur == n {
            proof {
                assert(outv + Seq::<TokenV>::empty() =~= outv);
            }
            return Ok(out);
        }
        let c = cs[cur];
        if c == '<' {
            if cur + 1 < n && cs[cur + 1] == '/' {
                let j2 = cur + 2;
                if !(j2 < n && name_char(cs[j2])) {
                    return Err(j2);
                }
                let ne = name_end_at(cs, j2);
                proof {
                    assert(at_least(j2 + 1, name_end(cs@, j2 as int)) == ne as int);
                }
                let k = skip_ws_at(cs, ne);
                proof {
                    assert(at_least(ne as int, skip_ws(cs@, ne as int)) == k as int);
                }
                if !(k < n && cs[k] == '>') {
                    return Err(k);
                }
                let name = string_range(cs, j2, ne);
                let tok = XmlToken::Close { name };
                proof {
                    match tokens_from(cs@, k + 1) {
                        Some(rest) => {
                            assert(outv + (seq![tok@] + rest) =~= (outv + seq![tok@]) + rest);
                        },
                        None => {},
                    }
                }
                out.push(tok);
                proof {
                    assert(out@.map_values(|t: XmlToken| t@) =~= outv + seq![
                        TokenV::Close { name: cs@.subrange(j2 as int, ne as int) },
                    ]);
                }
                cur = k + 1;
            } else {
                let j2 = cur + 1;
                if !(j2 < n && name_char(cs[j2])) {
                    return Err(j2);
                }
                let ne = name_end_at(cs, j2);
                proof {
                    assert(at_least(j2 + 1, name_end(cs@, j2 as int)) == ne as int);
                }
                match scan_attrs_at(cs, ne) {
                    Err(p) => {
                        return Err(p);
                    },
                    Ok((attrs, k)) => {
                        proof {
                            assert(at_least(ne as int, k as int) == k as int);
                        }
                        let name = string_range(cs, j2, ne);
                        if k < n && cs[k] == '>' {
                            let tok = XmlToken::Open { name, attrs };
                            proof {
                                match tokens_from(cs@, k + 1) {
                                    Some(rest) => {
                                        assert(outv + (seq![tok@] + rest) =~= (outv + seq![tok@])
                                            + rest);
                                    },
                                    None => {},
                                }
                            }
                            out.push(tok);
                            proof {
                                assert(out@.map_values(|t: XmlToken| t@) =~= outv + seq![
                                    out@.last()@,
                                ]);
                            }
                            cur = k + 1;
                        } else if k < n && cs[k] == '/' && k + 1 < n && cs[k + 1] == '>' {
                            let tok = XmlToken::Empty { name, attrs };
                            proof {
                                match tokens_from(cs@, k + 2) {
                                    Some(rest) => {
                                        assert(outv + (seq![tok@] + rest) =~= (outv + seq![tok@])
                                            + rest);
                                    },
                                    None => {},
                                }
                            }
                            out.push(tok);
                            proof {
                                assert(out@.map_values(|t: XmlToken| t@) =~= outv + seq![
                                    out@.last()@,
                                ]);
                            }
                            cur = k + 2;
                        } else {
                            return Err(k);
                        }
                    },
                }
            }
        } else {
            match scan_text_at(cs, cur) {
                Err(p) => {
                    return Err(p);
                },
                Ok((t, e)) => {
                    proof {
                        assert(step_to(cs@, cur as int, e as int) == e as int);
                    }
                    let tok = XmlToken::Text { value: t };
                    proof {
                        match tokens_from(cs@, e as int) {
                            Some(rest) => {
                                assert(outv + (seq![tok@] + rest) =~= (outv + seq![tok@]) + rest);
                            },
                            None => {},
                        }
                    }
                    out.push(tok);
                    proof {
                        assert(out@.map_values(|t: XmlToken| t@) =~= outv + seq![out@.last()@]);
                    }
                    cur = e;
                },
            }
        }
    }
}

} // verus!
