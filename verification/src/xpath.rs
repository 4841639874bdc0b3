//! XPath 1.0 subset text utilities.
//!
//! These are pure, schema-agnostic string functions over the restricted
//! XPath 1.0 grammar used by NETCONF/YANG-Push filters: plain location paths
//! with implicit `child`-axis steps and simple predicates.

use crate::text;
use crate::text::{chars_of, contains_string, push_unique, string_of};
use vstd::prelude::*;

verus! {

/// An ASCII letter or `_`.
pub open spec fn name_start(c: char) -> bool {
    ('a' <= c && c <= 'z') || ('A' <= c && c <= 'Z') || c == '_'
}

/// An ASCII letter or digit, `_`, `-` or `.`.
pub open spec fn name_char(c: char) -> bool {
    name_start(c) || ('0' <= c && c <= '9') || c == '-' || c == '.'
}

/// A YANG/XML NCName.
pub open spec fn ncname(s: Seq<char>) -> bool {
    &&& s.len() > 0
    &&& name_start(s[0])
    &&& forall|i: int| 0 < i < s.len() ==> name_char(#[trigger] s[i])
}

/// The characters with the Unicode `White_Space` property.
pub open spec fn white_space(c: char) -> bool {
    ||| '\u{9}' <= c && c <= '\u{d}'
    ||| c == ' '
    ||| c == '\u{85}'
    ||| c == '\u{a0}'
    ||| c == '\u{1680}'
    ||| '\u{2000}' <= c && c <= '\u{200a}'
    ||| c == '\u{2028}'
    ||| c == '\u{2029}'
    ||| c == '\u{202f}'
    ||| c == '\u{205f}'
    ||| c == '\u{3000}'
}

/// `s` without its leading white space.
pub open spec fn trim_start(s: Seq<char>) -> Seq<char>
    decreases s.len(),
{
    if s.len() > 0 && white_space(s[0]) {
        trim_start(s.drop_first())
    } else {
        s
    }
}

/// `s` without its trailing white space.
pub open spec fn trim_end(s: Seq<char>) -> Seq<char>
    decreases s.len(),
{
    if s.len() > 0 && white_space(s.last()) {
        trim_end(s.drop_last())
    } else {
        s
    }
}

/// The first index at or after `from` that holds `c`; the length if there is
/// none.
pub open spec fn find_char(s: Seq<char>, from: int, c: char) -> int
    decreases s.len() - from,
{
    if from >= s.len() {
        s.len() as int
    } else if s[from] == c {
        from
    } else {
        find_char(s, from + 1, c)
    }
}

/// `(prefix ':')? (NCName | '*')`, surrounded by white space, as
/// `(prefix, local)`.
pub open spec fn node_test(head: Seq<char>) -> Option<(Option<Seq<char>>, Seq<char>)> {
    let h = trim_end(trim_start(head));
    let colon = find_char(h, 0, ':');
    if colon < h.len() {
        let prefix = h.take(colon);
        let local = h.skip(colon + 1);
        if ncname(prefix) && (local == seq!['*'] || ncname(local)) {
            Some((Some(prefix), local))
        } else {
            None
        }
    } else if h == seq!['*'] || ncname(h) {
        Some((None, h))
    } else {
        None
    }
}

fn is_name_start(c: char) -> (r: bool)
    ensures
        r == name_start(c),
{
    ('a' <= c && c <= 'z') || ('A' <= c && c <= 'Z') || c == '_'
}

fn is_name_char(c: char) -> (r: bool)
    ensures
        r == name_char(c),
{
    is_name_start(c) || ('0' <= c && c <= '9') || c == '-' || c == '.'
}

fn is_white_space(c: char) -> (r: bool)
    ensures
        r == white_space(c),
{
    ('\u{9}' <= c && c <= '\u{d}') || c == ' ' || c == '\u{85}' || c == '\u{a0}' || c == '\u{1680}'
        || ('\u{2000}' <= c && c <= '\u{200a}') || c == '\u{2028}' || c == '\u{2029}' || c
        == '\u{202f}' || c == '\u{205f}' || c == '\u{3000}'
}

/// Whether `chars[from..to]` is an NCName.
fn is_ncname_range(chars: &Vec<char>, from: usize, to: usize) -> (r: bool)
    requires
        from <= to <= chars@.len(),
    ensures
        r == ncname(chars@.subrange(from as int, to as int)),
{
    let ghost s = chars@.subrange(from as int, to as int);
    if from == to || !is_name_start(chars[from]) {
        return false;
    }
    let mut i: usize = from + 1;
    while i < to
        invariant
            from < i <= to <= chars@.len(),
            s == chars@.subrange(from as int, to as int),
            forall|k: int| 0 < k < i - from ==> name_char(#[trigger] s[k]),
        decreases to - i,
    {
        if !is_name_char(chars[i]) {
            assert(s[i - from] == chars@[i as int]);
            return false;
        }
        i += 1;
    }
    true
}

/// Whether `s` is a YANG/XML NCName: a leading letter or `_`, followed by
/// letters, digits, `_`, `-`, or `.`.
pub fn is_ncname(s: &str) -> (r: bool)
    ensures
        r == ncname(s@),
{
    let chars = chars_of(s);
    assert(chars@.subrange(0, chars@.len() as int) == s@);
    is_ncname_range(&chars, 0, chars.len())
}

/// The bounds of `chars[from..to]` without the white space around it.
fn trim_range(chars: &Vec<char>, from: usize, to: usize) -> (r: (usize, usize))
    requires
        from <= to <= chars@.len(),
    ensures
        from <= r.0 <= r.1 <= to,
        chars@.subrange(r.0 as int, r.1 as int) == trim_end(
            trim_start(chars@.subrange(from as int, to as int)),
        ),
{
    let ghost whole = chars@.subrange(from as int, to as int);
    let mut i: usize = from;
    while i < to && is_white_space(chars[i])
        invariant
            from <= i <= to <= chars@.len(),
            trim_start(chars@.subrange(i as int, to as int)) == trim_start(whole),
        decreases to - i,
    {
        assert(chars@.subrange(i as int, to as int).drop_first() == chars@.subrange(
            i + 1,
            to as int,
        ));
        i += 1;
    }
    let ghost started = chars@.subrange(i as int, to as int);
    let mut j: usize = to;
    while j > i && is_white_space(chars[j - 1])
        invariant
            from <= i <= j <= to <= chars@.len(),
            trim_end(chars@.subrange(i as int, j as int)) == trim_end(started),
        decreases j,
    {
        assert(chars@.subrange(i as int, j as int).drop_last() == chars@.subrange(
            i as int,
            j - 1,
        ));
        j -= 1;
    }
    (i, j)
}

/// The first index in `from..to` that holds `c`; `to` if there is none.
fn find_in_range(chars: &Vec<char>, from: usize, to: usize, c: char) -> (r: usize)
    requires
        from <= to <= chars@.len(),
    ensures
        from <= r <= to,
        r < to ==> chars@[r as int] == c,
        forall|k: int| from <= k < r ==> chars@[k] != c,
{
    let mut i: usize = from;
    while i < to
        invariant
            from <= i <= to <= chars@.len(),
            forall|k: int| from <= k < i ==> chars@[k] != c,
        decreases to - i,
    {
        if chars[i] == c {
            return i;
        }
        i += 1;
    }
    to
}

/// `find_char` is the first index at which `c` occurs.
proof fn lemma_find_char(s: Seq<char>, from: int, c: char, at: int)
    requires
        0 <= from <= at <= s.len(),
        at < s.len() ==> s[at] == c,
        forall|k: int| from <= k < at ==> s[k] != c,
    ensures
        find_char(s, from, c) == at,
    decreases s.len() - from,
{
    if from < at {
        lemma_find_char(s, from + 1, c, at);
    }
}

/// Parse a node test held by `chars[from..to]`, giving the bounds of the
/// prefix and of the local part.
fn parse_node_test_range(chars: &Vec<char>, from: usize, to: usize) -> (r: Option<
    (Option<(usize, usize)>, (usize, usize)),
>)
    requires
        from <= to <= chars@.len(),
    ensures
        match (r, node_test(chars@.subrange(from as int, to as int))) {
            (None, None) => true,
            (Some((None, l)), Some((None, local))) => from <= l.0 <= l.1 <= to && chars@.subrange(
                l.0 as int,
                l.1 as int,
            ) == local,
            (Some((Some(p), l)), Some((Some(prefix), local))) => from <= p.0 <= p.1 <= to && from
                <= l.0 <= l.1 <= to && chars@.subrange(p.0 as int, p.1 as int) == prefix
                && chars@.subrange(l.0 as int, l.1 as int) == local,
            _ => false,
        },
{
    let (a, b) = trim_range(chars, from, to);
    let ghost h = chars@.subrange(a as int, b as int);
    if a == b {
        assert(find_char(h, 0, ':') == 0);
        return None;
    }
    let colon = find_in_range(chars, a, b, ':');
    proof {
        lemma_find_char(h, 0, ':', colon - a);
    }
    if colon < b {
        assert(h.take(colon - a) == chars@.subrange(a as int, colon as int));
        assert(h.skip(colon - a + 1) == chars@.subrange(colon + 1, b as int));
        let ghost local = chars@.subrange(colon + 1, b as int);
        if !is_ncname_range(chars, a, colon) {
            return None;
        }
        let star = b - (colon + 1) == 1 && chars[colon + 1] == '*';
        assert(star == (local == seq!['*'])) by {
            if star {
                assert(local =~= seq!['*']);
            } else if local == seq!['*'] {
                assert(local[0] == chars@[colon + 1]);
            }
        }
        if !star && !is_ncname_range(chars, colon + 1, b) {
            return None;
        }
        Some((Some((a, colon)), (colon + 1, b)))
    } else {
        let star = b - a == 1 && chars[a] == '*';
        assert(star == (h == seq!['*'])) by {
            if star {
                assert(h =~= seq!['*']);
            } else if h == seq!['*'] {
                assert(h[0] == chars@[a as int]);
            }
        }
        if !star && !is_ncname_range(chars, a, b) {
            return None;
        }
        Some((None, (a, b)))
    }
}

/// Parse a node test of the form `(prefix ':')? (NCName | '*')`, returning
/// `(prefix, local)`. Returns `None` for anything else (functions, axes, `@`,
/// `.`/`..`, embedded whitespace), which signals an unsupported path.
pub fn parse_node_test<'a>(head: &'a str) -> (r: Option<(Option<&'a str>, &'a str)>)
    ensures
        match (r, node_test(head@)) {
            (None, None) => true,
            (Some((None, l)), Some((None, local))) => l@ == local,
            (Some((Some(p), l)), Some((Some(prefix), local))) => p@ == prefix && l@ == local,
            _ => false,
        },
{
    let chars = chars_of(head);
    assert(chars@.subrange(0, chars@.len() as int) == head@);
    match parse_node_test_range(&chars, 0, chars.len()) {
        None => None,
        Some((None, (l0, l1))) => Some((None, head.substring_char(l0, l1))),
        Some((Some((p0, p1)), (l0, l1))) => Some(
            (Some(head.substring_char(p0, p1)), head.substring_char(l0, l1)),
        ),
    }
}

/// Prefixes found in an XPath expression, split by how they were referenced.
/// Neither list holds a prefix twice; each is in order of first occurrence.
#[derive(Debug, Default, Clone, PartialEq, Eq)]
pub struct XpathPrefixes {
    /// Used as an actual node/attribute-name reference (`prefix:name` outside a
    /// string literal). Always required, whether resolved via a declared
    /// `xmlns` binding or, if undeclared, as the module name itself (RFC 8641
    /// base XPath context).
    pub structural: Vec<String>,
    /// Seen only inside a string literal shaped like one whole QName (e.g.
    /// `hw-hwt` in `'hw-hwt:ethernetCsmacd-xcvr-link'`). Only meaningful with a
    /// declared `xmlns` binding (RFC 7950 section 9.10.3); undeclared entries
    /// are likely incidental text and should be dropped, not resolved.
    pub literal_only: Vec<String>,
}

/// The prefixes of an expression, as sequences of characters.
pub struct PrefixSeqs {
    pub structural: Seq<Seq<char>>,
    pub literal_only: Seq<Seq<char>>,
}

impl View for XpathPrefixes {
    type V = PrefixSeqs;

    open spec fn view(&self) -> PrefixSeqs {
        PrefixSeqs {
            structural: text::views(self.structural@),
            literal_only: text::views(self.literal_only@),
        }
    }
}

impl XpathPrefixes {
    /// Whether `prefix` was referenced anywhere, regardless of category.
    pub fn contains(&self, prefix: &str) -> (r: bool)
        ensures
            r == (self@.structural.contains(prefix@) || self@.literal_only.contains(prefix@)),
    {
        let p = prefix.to_owned();
        contains_string(&self.structural, &p) || contains_string(&self.literal_only, &p)
    }
}

/// The first index at or after `from` that cannot continue a name.
pub open spec fn name_end(s: Seq<char>, from: int) -> int
    decreases s.len() - from,
{
    if 0 <= from < s.len() && name_char(s[from]) {
        name_end(s, from + 1)
    } else {
        from
    }
}

/// `name_end` lies at or after its start, and within the sequence.
pub proof fn lemma_name_end(s: Seq<char>, from: int)
    requires
        0 <= from <= s.len(),
    ensures
        from <= name_end(s, from) <= s.len(),
        forall|k: int| from <= k < name_end(s, from) ==> name_char(#[trigger] s[k]),
        name_end(s, from) < s.len() ==> !name_char(s[name_end(s, from)]),
    decreases s.len() - from,
{
    if from < s.len() && name_char(s[from]) {
        lemma_name_end(s, from + 1);
    }
}

/// `find_char` lies at or after its start, and within the sequence.
pub proof fn lemma_find_char_bounds(s: Seq<char>, from: int, c: char)
    requires
        0 <= from <= s.len(),
    ensures
        from <= find_char(s, from, c) <= s.len(),
        find_char(s, from, c) < s.len() ==> s[find_char(s, from, c)] == c,
        forall|k: int| from <= k < find_char(s, from, c) ==> s[k] != c,
    decreases s.len() - from,
{
    if from < s.len() && s[from] != c {
        lemma_find_char_bounds(s, from + 1, c);
    }
}

/// Whether the name that ends at `end` is a prefix: exactly one `:` follows
/// (two colons make an axis specifier such as `child::`).
pub open spec fn is_prefix_end(x: Seq<char>, end: int) -> bool {
    &&& end < x.len()
    &&& x[end] == ':'
    &&& !(end + 1 < x.len() && x[end + 1] == ':')
}

/// The prefix of a string literal that is one whole QName (RFC 7950 section
/// 9.10.3), with nothing around it.
pub open spec fn literal_prefix(literal: Seq<char>) -> Option<Seq<char>> {
    let colon = find_char(literal, 0, ':');
    if colon < literal.len() && ncname(literal.take(colon)) && ncname(literal.skip(colon + 1)) {
        Some(literal.take(colon))
    } else {
        None
    }
}

/// `literals` with the prefix of the string literal `literal` added, if it is
/// one whole QName.
pub open spec fn add_literal(literals: Seq<Seq<char>>, literal: Seq<char>) -> Seq<Seq<char>> {
    match literal_prefix(literal) {
        Some(prefix) => text::add_unique(literals, prefix),
        None => literals,
    }
}

/// What is in `a` and not in `b`.
pub open spec fn without(a: Seq<Seq<char>>, b: Seq<Seq<char>>) -> Seq<Seq<char>>
    decreases a.len(),
{
    if a.len() == 0 {
        Seq::empty()
    } else if b.contains(a.last()) {
        without(a.drop_last(), b)
    } else {
        without(a.drop_last(), b).push(a.last())
    }
}

/// The prefixes of `found` and those that `x` references from `i` on. A string
/// literal is one token, and so is a name; an unterminated literal ends the
/// expression.
pub open spec fn prefixes_from(x: Seq<char>, i: int, found: PrefixSeqs) -> PrefixSeqs
    decreases x.len() - i,
{
    if i < 0 || i >= x.len() {
        found
    } else if x[i] == '\'' || x[i] == '"' {
        let close = find_char(x, i + 1, x[i]);
        proof {
            lemma_find_char_bounds(x, i + 1, x[i]);
        }
        if close >= x.len() {
            found
        } else {
            prefixes_from(
                x,
                close + 1,
                PrefixSeqs {
                    literal_only: add_literal(found.literal_only, x.subrange(i + 1, close)),
                    ..found
                },
            )
        }
    } else if name_start(x[i]) {
        let end = name_end(x, i + 1);
        proof {
            lemma_name_end(x, i + 1);
        }
        if is_prefix_end(x, end) {
            prefixes_from(
                x,
                end + 1,
                PrefixSeqs {
                    structural: text::add_unique(found.structural, x.subrange(i, end)),
                    ..found
                },
            )
        } else {
            prefixes_from(x, end, found)
        }
    } else {
        prefixes_from(x, i + 1, found)
    }
}

/// No prefix at all.
pub open spec fn no_prefixes() -> PrefixSeqs {
    PrefixSeqs { structural: Seq::empty(), literal_only: Seq::empty() }
}

/// The prefixes that the expression `x` references. One that qualifies a name
/// is structural, even where a literal has it too.
pub open spec fn prefixes_of(x: Seq<char>) -> PrefixSeqs {
    let found = prefixes_from(x, 0, no_prefixes());
    PrefixSeqs {
        structural: found.structural,
        literal_only: without(found.literal_only, found.structural),
    }
}

/// Where the colon stands, if `chars[from..to]` is one whole QName.
fn qname_colon(chars: &Vec<char>, from: usize, to: usize) -> (r: Option<usize>)
    requires
        from <= to <= chars@.len(),
    ensures
        match r {
            Some(colon) => from <= colon < to && literal_prefix(
                chars@.subrange(from as int, to as int),
            ) == Some(chars@.subrange(from as int, colon as int)),
            None => literal_prefix(chars@.subrange(from as int, to as int)) is None,
        },
{
    let ghost literal = chars@.subrange(from as int, to as int);
    let colon = find_in_range(chars, from, to, ':');
    proof {
        lemma_find_char(literal, 0, ':', colon - from);
    }
    if colon == to {
        return None;
    }
    assert(literal.take(colon - from) =~= chars@.subrange(from as int, colon as int));
    assert(literal.skip(colon - from + 1) =~= chars@.subrange(colon + 1, to as int));
    if is_ncname_range(chars, from, colon) && is_ncname_range(chars, colon + 1, to) {
        Some(colon)
    } else {
        None
    }
}

/// A copy of `a` without what is in `b`.
fn difference(a: &Vec<String>, b: &Vec<String>) -> (r: Vec<String>)
    ensures
        text::views(r@) == without(text::views(a@), text::views(b@)),
{
    let ghost views = text::views(a@);
    let mut r: Vec<String> = Vec::new();
    assert(text::views(r@) =~= Seq::<Seq<char>>::empty());
    let mut i: usize = 0;
    while i < a.len()
        invariant
            i <= a@.len(),
            views == text::views(a@),
            text::views(r@) == without(views.take(i as int), text::views(b@)),
        decreases a@.len() - i,
    {
        assert(views.take(i + 1).drop_last() =~= views.take(i as int));
        assert(views.take(i + 1).last() == a@[i as int]@);
        if !contains_string(b, &a[i]) {
            let ghost before = r@;
            r.push(a[i].clone());
            assert(text::views(r@) =~= text::views(before).push(a@[i as int]@));
        }
        i += 1;
    }
    assert(views.take(views.len() as int) =~= views);
    r
}

/// Find the prefixes used within an XPath expression (e.g. the `if` in
/// `/if:interfaces/if:interface`), split into [`XpathPrefixes::structural`]
/// (node/attribute-name references) and [`XpathPrefixes::literal_only`]
/// (whole-string QName-shaped literal values, e.g. `ianaift` in
/// `'ianaift:ethernetCsmacd'`). Axis specifiers (`child::`) are never treated
/// as prefixes. A literal that isn't shaped like a whole QName is opaque data
/// and contributes nothing.
pub fn find_xpath_prefixes(xpath: &str) -> (r: XpathPrefixes)
    ensures
        r@ == prefixes_of(xpath@),
{
    let x = chars_of(xpath);
    let n = x.len();
    let mut r = XpathPrefixes { structural: Vec::new(), literal_only: Vec::new() };
    assert(r@.structural =~= Seq::empty());
    assert(r@.literal_only =~= Seq::empty());
    let ghost all = prefixes_from(x@, 0, no_prefixes());
    let mut i: usize = 0;
    while i < n
        invariant
            i <= n == x@.len(),
            prefixes_from(x@, i as int, r@) == all,
        decreases n - i,
    {
        let c = x[i];
        if c == '\'' || c == '"' {
            let close = find_in_range(&x, i + 1, n, c);
            proof {
                lemma_find_char(x@, i + 1, c, close as int);
            }
            if close == n {
                // An unterminated literal ends the expression.
                assert(r@ == all);
                i = n;
            } else {
                if let Some(colon) = qname_colon(&x, i + 1, close) {
                    push_unique(&mut r.literal_only, string_of(&x, i + 1, colon));
                }
                i = close + 1;
            }
        } else if is_name_start(c) {
            let mut end: usize = i + 1;
            while end < n && is_name_char(x[end])
                invariant
                    i < end <= n == x@.len(),
                    name_end(x@, end as int) == name_end(x@, i + 1),
                decreases n - end,
            {
                end += 1;
            }
            if end < n && x[end] == ':' && !(end + 1 < n && x[end + 1] == ':') {
                push_unique(&mut r.structural, string_of(&x, i, end));
                i = end + 1;
            } else {
                i = end;
            }
        } else {
            i += 1;
        }
    }
    let literal_only = difference(&r.literal_only, &r.structural);
    XpathPrefixes { structural: r.structural, literal_only }
}

/// Where a position of a path lies: how many predicate brackets are open
/// around it, and inside which quote, if any.
pub struct Nesting {
    pub depth: int,
    pub quote: Option<char>,
}

/// Outside all brackets and quotes.
pub open spec fn top_level() -> Nesting {
    Nesting { depth: 0, quote: None }
}

/// The nesting after `c`, where it was `s` before. Brackets inside a quote, and
/// the other kind of quote, are ordinary characters.
pub open spec fn nest(s: Nesting, c: char) -> Nesting {
    match s.quote {
        Some(q) => if c == q {
            Nesting { quote: None, ..s }
        } else {
            s
        },
        None => if c == '\'' || c == '"' {
            Nesting { quote: Some(c), ..s }
        } else if c == '[' {
            Nesting { depth: s.depth + 1, ..s }
        } else if c == ']' {
            Nesting { depth: s.depth - 1, ..s }
        } else {
            s
        },
    }
}

/// The nesting before the character at `n`.
pub open spec fn nesting_at(path: Seq<char>, n: int) -> Nesting
    decreases n,
{
    if n <= 0 {
        top_level()
    } else {
        nest(nesting_at(path, n - 1), path[n - 1])
    }
}

/// Every bracket and every quote is closed, and none is closed before it is
/// opened.
pub open spec fn balanced(path: Seq<char>) -> bool {
    &&& nesting_at(path, path.len() as int) == top_level()
    &&& forall|n: int| 0 <= n <= path.len() ==> (#[trigger] nesting_at(path, n)).depth >= 0
}

/// Whether a `/` outside all brackets and quotes stands at `i`.
pub open spec fn is_separator(path: Seq<char>, i: int) -> bool {
    path[i] == '/' && nesting_at(path, i) == top_level()
}

/// The segments of `path` from `start` on, where no separator stands in
/// `start..i`.
pub open spec fn segments_from(path: Seq<char>, start: int, i: int) -> Seq<Seq<char>>
    decreases path.len() - i,
{
    if i >= path.len() {
        seq![path.subrange(start, path.len() as int)]
    } else if is_separator(path, i) {
        seq![path.subrange(start, i)] + segments_from(path, i + 1, i + 1)
    } else {
        segments_from(path, start, i + 1)
    }
}

/// The parts of `path` between its separators.
pub open spec fn segments(path: Seq<char>) -> Seq<Seq<char>> {
    segments_from(path, 0, 0)
}

/// The characters that string slices hold.
pub open spec fn str_views(v: Seq<&str>) -> Seq<Seq<char>> {
    v.map_values(|s: &str| s@)
}

/// Split an xpath location path on `/` at bracket depth 0 and outside string
/// literals. Returns `None` if quotes or brackets are unbalanced.
pub fn split_location_path<'a>(path: &'a str) -> (r: Option<Vec<&'a str>>)
    ensures
        r is Some <==> balanced(path@),
        r matches Some(v) ==> str_views(v@) == segments(path@),
{
    let x = chars_of(path);
    let n = x.len();
    let mut out: Vec<&'a str> = Vec::new();
    let mut depth: usize = 0;
    let mut in_single = false;
    let mut in_double = false;
    let mut start: usize = 0;
    let mut i: usize = 0;
    assert(str_views(out@) + segments_from(path@, 0, 0) =~= segments(path@));
    while i < n
        invariant
            start <= i <= n == x@.len(),
            x@ == path@,
            depth <= i,
            nesting_at(x@, i as int).depth == depth,
            quote_is(nesting_at(x@, i as int).quote, in_single, in_double),
            forall|k: int| 0 <= k <= i ==> (#[trigger] nesting_at(x@, k)).depth >= 0,
            str_views(out@) + segments_from(x@, start as int, i as int) == segments(x@),
        decreases n - i,
    {
        let c = x[i];
        let ghost before = nesting_at(x@, i as int);
        assert(nesting_at(x@, i + 1) == nest(before, c));
        if c == '\'' && !in_double {
            in_single = !in_single;
        } else if c == '"' && !in_single {
            in_double = !in_double;
        } else if c == '[' && !in_single && !in_double {
            depth += 1;
        } else if c == ']' && !in_single && !in_double {
            if depth == 0 {
                assert(nesting_at(x@, i + 1).depth < 0);
                return None;
            }
            depth -= 1;
        } else if c == '/' && depth == 0 && !in_single && !in_double {
            let ghost prev = out@;
            out.push(path.substring_char(start, i));
            assert(str_views(out@) =~= str_views(prev).push(x@.subrange(start as int, i as int)));
            assert(str_views(out@) + segments_from(x@, i + 1, i + 1) =~= str_views(prev)
                + segments_from(x@, start as int, i as int));
            start = i + 1;
        }
        i += 1;
    }
    if depth != 0 || in_single || in_double {
        return None;
    }
    let ghost prev = out@;
    out.push(path.substring_char(start, n));
    assert(str_views(out@) =~= str_views(prev) + segments_from(x@, start as int, n as int));
    Some(out)
}

/// The two flags say which quote is open.
spec fn quote_is(q: Option<char>, in_single: bool, in_double: bool) -> bool {
    &&& in_single == (q == Some('\''))
    &&& in_double == (q == Some('"'))
    &&& q is Some ==> in_single || in_double
}

/// The nesting after `c` as predicates see it: outside them only `[` has a
/// meaning.
pub open spec fn nest_predicate(s: Nesting, c: char) -> Nesting {
    if s.depth != 0 {
        nest(s, c)
    } else if c == '[' {
        Nesting { depth: 1, ..s }
    } else {
        s
    }
}

/// The nesting before the character at `n`, as predicates see it.
pub open spec fn predicate_nesting_at(path: Seq<char>, n: int) -> Nesting
    decreases n,
{
    if n <= 0 {
        top_level()
    } else {
        nest_predicate(predicate_nesting_at(path, n - 1), path[n - 1])
    }
}

/// The characters of `path[..n]` that stand outside predicates.
pub open spec fn outside_predicates(path: Seq<char>, n: int) -> Seq<char>
    decreases n,
{
    if n <= 0 {
        Seq::empty()
    } else if predicate_nesting_at(path, n - 1).depth == 0 && path[n - 1] != '[' {
        outside_predicates(path, n - 1).push(path[n - 1])
    } else {
        outside_predicates(path, n - 1)
    }
}

/// Whether every bracket and every quote of `path` is closed, in the path as a
/// whole and as predicates see it.
pub open spec fn strippable(path: Seq<char>) -> bool {
    balanced(path) && predicate_nesting_at(path, path.len() as int) == top_level()
}

/// `path` without its predicates; `path` itself if a bracket or a quote is not
/// closed.
pub open spec fn stripped(path: Seq<char>) -> Seq<char> {
    if strippable(path) {
        outside_predicates(path, path.len() as int)
    } else {
        path
    }
}

/// Remove XPath predicate groups (`[...]`) from a location path, honoring
/// quoted strings and nested brackets so predicate contents (including a
/// `]` inside a string literal) are not miscounted. A path with unbalanced
/// brackets or quotes comes back as it is.
pub fn strip_xpath_predicates(path: &str) -> (r: String)
    ensures
        r@ == stripped(path@),
{
    let x = chars_of(path);
    let n = x.len();
    let mut out = String::new();
    let mut depth: usize = 0;
    let mut in_single = false;
    let mut in_double = false;
    let mut i: usize = 0;
    while i < n
        invariant
            i <= n == x@.len(),
            x@ == path@,
            depth <= i,
            predicate_nesting_at(x@, i as int).depth == depth,
            quote_is(predicate_nesting_at(x@, i as int).quote, in_single, in_double),
            out@ == outside_predicates(x@, i as int),
        decreases n - i,
    {
        let c = x[i];
        if depth == 0 {
            if c == '[' {
                depth = 1;
            } else {
                out.push(c);
            }
        } else if c == '\'' && !in_double {
            in_single = !in_single;
        } else if c == '"' && !in_single {
            in_double = !in_double;
        } else if c == '[' && !in_single && !in_double {
            depth += 1;
        } else if c == ']' && !in_single && !in_double {
            depth -= 1;
        }
        i += 1;
    }
    if depth != 0 || in_single || in_double || split_location_path(path).is_none() {
        return path.to_owned();
    }
    out
}

/// How many characters `a` and `b` have in common at their start.
pub open spec fn common_prefix(a: Seq<char>, b: Seq<char>) -> nat
    decreases a.len(),
{
    if a.len() > 0 && b.len() > 0 && a[0] == b[0] {
        1 + common_prefix(a.drop_first(), b.drop_first())
    } else {
        0
    }
}

/// How many characters `a` and `b` have in common at their end.
pub open spec fn common_suffix(a: Seq<char>, b: Seq<char>) -> nat
    decreases a.len(),
{
    if a.len() > 0 && b.len() > 0 && a.last() == b.last() {
        1 + common_suffix(a.drop_last(), b.drop_last())
    } else {
        0
    }
}

/// What `a` and `b` have in common is where all characters agree and none more.
pub proof fn lemma_common_prefix(a: Seq<char>, b: Seq<char>, n: nat)
    requires
        n <= a.len(),
        n <= b.len(),
        forall|k: int| 0 <= k < n ==> a[k] == b[k],
        n < a.len() && n < b.len() ==> a[n as int] != b[n as int],
    ensures
        common_prefix(a, b) == n,
    decreases n,
{
    if n > 0 {
        assert forall|k: int| 0 <= k < n - 1 implies a.drop_first()[k] == b.drop_first()[k] by {
            assert(a[k + 1] == b[k + 1]);
        }
        lemma_common_prefix(a.drop_first(), b.drop_first(), (n - 1) as nat);
    }
}

/// What `a` and `b` have in common at the end is where all characters agree and
/// none more.
pub proof fn lemma_common_suffix(a: Seq<char>, b: Seq<char>, n: nat)
    requires
        n <= a.len(),
        n <= b.len(),
        forall|i: int|
            a.len() - n <= i < a.len() ==> #[trigger] a[i] == b[i + b.len() - a.len()],
        n < a.len() && n < b.len() ==> a[a.len() - n - 1] != b[b.len() - n - 1],
    ensures
        common_suffix(a, b) == n,
    decreases n,
{
    if n > 0 {
        let (c, d) = (a.drop_last(), b.drop_last());
        assert(a[a.len() - 1] == b[b.len() - 1]);
        assert forall|i: int| c.len() - (n - 1) <= i < c.len() implies #[trigger] c[i] == d[i
            + d.len() - c.len()] by {
            assert(a[i] == b[i + b.len() - a.len()]);
        }
        lemma_common_suffix(c, d, (n - 1) as nat);
    }
}

/// Reduce `provided` vs `canonical` to the char index where they first
/// diverge, plus the substrings unique to each side (with the common
/// prefix/suffix stripped off), so small differences (e.g. a missing
/// leading slash) are obvious without scanning both full paths.
pub fn xpath_diff(provided: &str, canonical: &str) -> (r: (usize, String, String))
    ensures
        r.0 == common_prefix(provided@, canonical@),
        r.1@ == unique_part(provided@, canonical@),
        r.2@ == unique_part(canonical@, provided@),
{
    let a = chars_of(provided);
    let b = chars_of(canonical);
    let shorter = if a.len() <= b.len() {
        a.len()
    } else {
        b.len()
    };
    let mut p: usize = 0;
    while p < shorter && a[p] == b[p]
        invariant
            p <= shorter,
            shorter <= a@.len(),
            shorter <= b@.len(),
            shorter == a@.len() || shorter == b@.len(),
            forall|k: int| 0 <= k < p ==> a@[k] == b@[k],
        decreases shorter - p,
    {
        p += 1;
    }
    let (la, lb) = (a.len(), b.len());
    let mut s: usize = 0;
    while s < shorter - p && a[la - s - 1] == b[lb - s - 1]
        invariant
            la == a@.len(),
            lb == b@.len(),
            p <= shorter,
            shorter <= la,
            shorter <= lb,
            s <= shorter - p,
            forall|i: int| la - s <= i < la ==> #[trigger] a@[i] == b@[i + lb - la],
        decreases shorter - s,
    {
        s += 1;
    }
    proof {
        lemma_common_prefix(a@, b@, p as nat);
        lemma_common_prefix(b@, a@, p as nat);
        let (c, d) = (a@.skip(p as int), b@.skip(p as int));
        assert forall|i: int| c.len() - s <= i < c.len() implies #[trigger] c[i] == d[i + d.len()
            - c.len()] by {
            assert(a@[i + p] == b@[i + p + lb - la]);
        }
        assert forall|i: int| d.len() - s <= i < d.len() implies #[trigger] d[i] == c[i + c.len()
            - d.len()] by {
            assert(a@[i + p + la - lb] == b@[i + p]);
        }
        lemma_common_suffix(c, d, s as nat);
        lemma_common_suffix(d, c, s as nat);
    }
    (p, string_of(&a, p, la - s), string_of(&b, p, lb - s))
}

/// The part of `a` between what it has in common with `b` at its start, and
/// what the rest has in common with the rest of `b` at its end.
pub open spec fn unique_part(a: Seq<char>, b: Seq<char>) -> Seq<char> {
    let p = common_prefix(a, b) as int;
    let s = common_suffix(a.skip(p), b.skip(p));
    a.subrange(p, a.len() - s)
}

} // verus!
