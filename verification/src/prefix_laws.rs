//! Which prefixes an XPath expression references: exactly those that stand in
//! it.

use crate::text;
use crate::xpath;
use vstd::prelude::*;

verus! {

/// The quote inside which the character at `n` stands, if it stands inside one.
/// A quote ends where the same character comes again.
pub open spec fn open_quote(x: Seq<char>, n: int) -> Option<char>
    decreases n,
{
    if n <= 0 {
        None
    } else {
        match open_quote(x, n - 1) {
            Some(q) => if x[n - 1] == q {
                None
            } else {
                Some(q)
            },
            None => if x[n - 1] == '\'' || x[n - 1] == '"' {
                Some(x[n - 1])
            } else {
                None
            },
        }
    }
}

/// Whether a name stands at `i..e`, outside all quotes and as long as it can be,
/// and has one colon behind it, and not two.
pub open spec fn is_qualifier(x: Seq<char>, i: int, e: int) -> bool {
    &&& 0 <= i < e < x.len()
    &&& open_quote(x, i) is None
    &&& xpath::ncname(x.subrange(i, e))
    &&& forall|j: int| 0 <= j < i ==> !xpath::ncname(#[trigger] x.subrange(j, e))
    &&& x[e] == ':'
    &&& e + 1 < x.len() ==> x[e + 1] != ':'
}

/// Whether the name `p` begins at `i` and qualifies what is behind it.
pub open spec fn qualifies(x: Seq<char>, i: int, p: Seq<char>) -> bool {
    exists|e: int| #[trigger] is_qualifier(x, i, e) && x.subrange(i, e) == p
}

/// Whether a string literal begins at `i` and ends at `e` that is one whole
/// qualified name: `p`, a colon and `local`.
pub open spec fn is_quoted_name(
    x: Seq<char>,
    i: int,
    e: int,
    p: Seq<char>,
    local: Seq<char>,
) -> bool {
    &&& 0 <= i < e < x.len()
    &&& open_quote(x, i) is None
    &&& x[i] == '\'' || x[i] == '"'
    &&& x[e] == x[i]
    &&& forall|k: int| i < k < e ==> x[k] != x[i]
    &&& xpath::ncname(p)
    &&& xpath::ncname(local)
    &&& x.subrange(i + 1, e) == p + seq![':'] + local
}

/// Whether a string literal begins at `i` that is one whole qualified name with
/// the prefix `p`.
pub open spec fn quotes(x: Seq<char>, i: int, p: Seq<char>) -> bool {
    exists|e: int, local: Seq<char>| #[trigger] is_quoted_name(x, i, e, p, local)
}

/// Whether the name qualifies something before `n`.
pub open spec fn qualifies_before(x: Seq<char>, p: Seq<char>, n: int) -> bool {
    exists|i: int| 0 <= i < n && #[trigger] qualifies(x, i, p)
}

/// Whether a string literal before `n` is one whole qualified name with the
/// prefix.
pub open spec fn quotes_before(x: Seq<char>, p: Seq<char>, n: int) -> bool {
    exists|i: int| 0 <= i < n && #[trigger] quotes(x, i, p)
}

/// Where prefixes stand.
pub type Places = spec_fn(int, Seq<char>) -> bool;

/// Whether the list holds what stands before `n`, each once and in the order in
/// which it first comes.
pub open spec fn lists(list: Seq<Seq<char>>, places: Places, n: int) -> bool {
    &&& list.no_duplicates()
    &&& forall|k: int, p: Seq<char>|
        0 <= k < n && #[trigger] places(k, p) ==> list.contains(p)
    &&& forall|a: int| 0 <= a < list.len() ==> comes_before(places, #[trigger] list[a], n)
    &&& forall|a: int, b: int, j: int|
        0 <= a < b < list.len() && #[trigger] places(j, list[b]) && 0 <= j ==> comes_before(
            places,
            #[trigger] list[a],
            j,
        )
}

/// Whether the prefix stands somewhere before `n`.
pub open spec fn comes_before(places: Places, p: Seq<char>, n: int) -> bool {
    exists|k: int| 0 <= k < n && #[trigger] places(k, p)
}

proof fn lemma_skip(list: Seq<Seq<char>>, places: Places, n: int, m: int)
    requires
        lists(list, places, n),
        n <= m,
        forall|k: int, p: Seq<char>| n <= k < m ==> !#[trigger] places(k, p),
    ensures
        lists(list, places, m),
{
    assert forall|a: int| 0 <= a < list.len() implies comes_before(
        places,
        #[trigger] list[a],
        m,
    ) by {
        assert(comes_before(places, list[a], n));
        let k = choose|k: int| 0 <= k < n && #[trigger] places(k, list[a]);
        assert(places(k, list[a]));
    }
}

proof fn lemma_add(list: Seq<Seq<char>>, places: Places, n: int, m: int, p: Seq<char>)
    requires
        lists(list, places, n),
        0 <= n < m,
        places(n, p),
        forall|k: int, q: Seq<char>| n <= k < m && #[trigger] places(k, q) ==> k == n && q == p,
    ensures
        lists(text::add_unique(list, p), places, m),
{
    let after = text::add_unique(list, p);
    assert(after.contains(p)) by {
        if !list.contains(p) {
            assert(after[list.len() as int] == p);
        }
    }
    assert forall|k: int, q: Seq<char>| 0 <= k < m && #[trigger] places(k, q) implies after.contains(
        q,
    ) by {
        if k < n {
            let a = choose|a: int| 0 <= a < list.len() && list[a] == q;
            assert(after[a] == q);
        }
    }
    assert forall|a: int| 0 <= a < after.len() implies comes_before(
        places,
        #[trigger] after[a],
        m,
    ) by {
        if a < list.len() {
            assert(comes_before(places, list[a], n));
            let k = choose|k: int| 0 <= k < n && #[trigger] places(k, list[a]);
            assert(places(k, after[a]));
        } else {
            assert(places(n, after[a]));
        }
    }
    assert forall|a: int, b: int, j: int|
        0 <= a < b < after.len() && #[trigger] places(j, after[b]) && 0 <= j implies comes_before(
        places,
        #[trigger] after[a],
        j,
    ) by {
        assert(after[a] == list[a]);
        if b < list.len() {
            assert(places(j, list[b]));
        } else {
            assert(after[b] == p);
            if j < n {
                assert(list.contains(p));
            }
            assert(comes_before(places, list[a], n));
            let k = choose|k: int| 0 <= k < n && #[trigger] places(k, list[a]);
            assert(places(k, list[a]));
        }
    }
}

/// Where names qualify.
pub open spec fn qualifying(x: Seq<char>) -> Places {
    |k: int, p: Seq<char>| qualifies(x, k, p)
}

/// Where string literals are whole qualified names.
pub open spec fn quoting(x: Seq<char>) -> Places {
    |k: int, p: Seq<char>| quotes(x, k, p)
}

/// Whether no token goes on at `i`: neither a string literal nor a name.
spec fn between_tokens(x: Seq<char>, i: int) -> bool {
    &&& 0 <= i <= x.len()
    &&& open_quote(x, i) is None
    &&& i < x.len() && xpath::name_char(x[i]) ==> no_name_before(x, i)
}

spec fn no_name_before(x: Seq<char>, i: int) -> bool {
    forall|j: int| 0 <= j < i ==> !xpath::ncname(#[trigger] x.subrange(j, i))
}

proof fn lemma_no_name_before(x: Seq<char>, i: int)
    requires
        0 < i <= x.len(),
        !xpath::name_char(x[i - 1]),
    ensures
        no_name_before(x, i),
{
    assert forall|j: int| 0 <= j < i implies !xpath::ncname(#[trigger] x.subrange(j, i)) by {
        let s = x.subrange(j, i);
        assert(s[i - 1 - j] == x[i - 1]);
    }
}

/// Inside a string literal, and behind one.
proof fn lemma_quote(x: Seq<char>, i: int, close: int, n: int)
    requires
        0 <= i < n <= close + 1,
        i < close <= x.len(),
        open_quote(x, i) is None,
        x[i] == '\'' || x[i] == '"',
        close < x.len() ==> x[close] == x[i],
        forall|k: int| i < k < close ==> x[k] != x[i],
        n <= x.len(),
    ensures
        n <= close ==> open_quote(x, n) == Some(x[i]),
        n == close + 1 ==> open_quote(x, n) is None,
    decreases n - i,
{
    if n > i + 1 {
        lemma_quote(x, i, close, n - 1);
    }
}

/// Outside all quotes nothing changes where there is no quote.
proof fn lemma_unquoted(x: Seq<char>, i: int, n: int)
    requires
        0 <= i <= n <= x.len(),
        open_quote(x, i) is None,
        forall|k: int| i <= k < n ==> x[k] != '\'' && x[k] != '"',
    ensures
        open_quote(x, n) is None,
    decreases n - i,
{
    if n > i {
        lemma_unquoted(x, i, n - 1);
    }
}

/// Where a name can qualify: it starts there.
proof fn lemma_qualifier_starts(x: Seq<char>, k: int, p: Seq<char>)
    requires
        qualifies(x, k, p),
    ensures
        0 <= k < x.len(),
        xpath::name_start(x[k]),
        open_quote(x, k) is None,
{
    let e = choose|e: int| #[trigger] is_qualifier(x, k, e) && x.subrange(k, e) == p;
    assert(x.subrange(k, e)[0] == x[k]);
}

/// The part of a name that stands at `i..end`, as long as it can be.
proof fn lemma_within_name(x: Seq<char>, i: int, end: int, k: int, e: int)
    requires
        0 <= i <= k < end <= x.len(),
        xpath::name_start(x[i]),
        forall|j: int| i <= j < end ==> xpath::name_char(#[trigger] x[j]),
        end < x.len() ==> !xpath::name_char(x[end]),
        is_qualifier(x, k, e),
    ensures
        k == i,
        e == end,
{
    let s = x.subrange(k, e);
    if e > end {
        assert(s[end - k] == x[end]);
    }
    if e < end {
        assert(xpath::name_char(x[e]));
    }
    if k > i {
        let whole = x.subrange(i, e);
        assert(xpath::ncname(whole)) by {
            assert(whole[0] == x[i]);
            assert forall|j: int| 0 < j < whole.len() implies xpath::name_char(
                #[trigger] whole[j],
            ) by {
                assert(whole[j] == x[i + j]);
            }
        }
    }
}

proof fn lemma_literal_prefix(literal: Seq<char>)
    ensures
        match xpath::literal_prefix(literal) {
            Some(p) => xpath::ncname(p) && xpath::ncname(literal.skip(p.len() as int + 1))
                && literal == p + seq![':'] + literal.skip(p.len() as int + 1),
            None => forall|p: Seq<char>, l: Seq<char>|
                xpath::ncname(p) && xpath::ncname(l) ==> literal != #[trigger] (p + seq![':'] + l),
        },
        forall|p: Seq<char>, l: Seq<char>|
            xpath::ncname(p) && xpath::ncname(l) && literal == #[trigger] (p + seq![':'] + l)
                ==> xpath::literal_prefix(literal) == Some(p),
{
    xpath::lemma_find_char_bounds(literal, 0, ':');
    let colon = xpath::find_char(literal, 0, ':');
    if let Some(p) = xpath::literal_prefix(literal) {
        assert(literal =~= p + seq![':'] + literal.skip(p.len() as int + 1));
    }
    assert forall|p: Seq<char>, l: Seq<char>|
        xpath::ncname(p) && xpath::ncname(l) && literal == #[trigger] (p + seq![':']
            + l) implies xpath::literal_prefix(literal) == Some(p) by {
        assert forall|i: int| 0 <= i < p.len() implies #[trigger] p[i] != ':' by {
            if i > 0 {
                assert(xpath::name_char(p[i]));
            }
        }
        crate::name_laws::lemma_colon(p, l);
        assert(literal.take(p.len() as int) =~= p);
        assert(literal.skip(p.len() as int + 1) =~= l);
    }
}

proof fn lemma_prefixes(x: Seq<char>, i: int, found: xpath::PrefixSeqs)
    requires
        between_tokens(x, i),
        lists(found.structural, qualifying(x), i),
        lists(found.literal_only, quoting(x), i),
    ensures
        lists(xpath::prefixes_from(x, i, found).structural, qualifying(x), x.len() as int),
        lists(xpath::prefixes_from(x, i, found).literal_only, quoting(x), x.len() as int),
    decreases x.len() - i,
{
    if i >= x.len() {
    } else if x[i] == '\'' || x[i] == '"' {
        xpath::lemma_find_char_bounds(x, i + 1, x[i]);
        let close = xpath::find_char(x, i + 1, x[i]);
        let next = if close < x.len() {
            close + 1
        } else {
            x.len() as int
        };
        assert forall|k: int| i < k < next implies open_quote(x, k) is Some by {
            lemma_quote(x, i, close, k);
        }
        assert forall|k: int, p: Seq<char>| i <= k < next implies !#[trigger] qualifying(x)(
            k,
            p,
        ) by {
            if qualifies(x, k, p) {
                lemma_qualifier_starts(x, k, p);
            }
        }
        lemma_skip(found.structural, qualifying(x), i, next);
        let literal = x.subrange(i + 1, close);
        lemma_literal_prefix(literal);
        assert forall|k: int, p: Seq<char>| i <= k < next && #[trigger] quoting(x)(k, p) implies k
            == i && close < x.len() && xpath::literal_prefix(literal) == Some(p) by {
            let (e, local) = choose|e: int, local: Seq<char>| #[trigger]
                is_quoted_name(x, k, e, p, local);
            assert(k == i);
            if e < close {
                assert(x[e] != x[i]);
            }
            assert(e == close);
        }
        if close < x.len() {
            lemma_quote(x, i, close, close + 1);
            lemma_no_name_before(x, close + 1);
            match xpath::literal_prefix(literal) {
                Some(p) => {
                    let local = literal.skip(p.len() as int + 1);
                    assert(is_quoted_name(x, i, close, p, local));
                    assert(quoting(x)(i, p));
                    lemma_add(found.literal_only, quoting(x), i, next, p);
                },
                None => {
                    lemma_skip(found.literal_only, quoting(x), i, next);
                },
            }
            lemma_prefixes(
                x,
                close + 1,
                xpath::PrefixSeqs {
                    literal_only: xpath::add_literal(found.literal_only, literal),
                    ..found
                },
            );
        } else {
            lemma_skip(found.literal_only, quoting(x), i, next);
        }
    } else if xpath::name_start(x[i]) {
        xpath::lemma_name_end(x, i + 1);
        let end = xpath::name_end(x, i + 1);
        let qualified = xpath::is_prefix_end(x, end);
        let next = if qualified {
            end + 1
        } else {
            end
        };
        let p = x.subrange(i, end);
        lemma_unquoted(x, i, next);
        assert forall|k: int, q: Seq<char>| i <= k < next implies !#[trigger] quoting(x)(k, q) by {
            if quotes(x, k, q) {
                let (e, local) = choose|e: int, local: Seq<char>| #[trigger]
                    is_quoted_name(x, k, e, q, local);
                assert(k < end ==> xpath::name_char(x[k]));
            }
        }
        lemma_skip(found.literal_only, quoting(x), i, next);
        assert forall|k: int, q: Seq<char>| i <= k < next && #[trigger] qualifying(x)(
            k,
            q,
        ) implies k == i && q == p && qualified by {
            lemma_qualifier_starts(x, k, q);
            let e = choose|e: int| #[trigger] is_qualifier(x, k, e) && x.subrange(k, e) == q;
            lemma_within_name(x, i, end, k, e);
        }
        if qualified {
            assert(is_qualifier(x, i, end)) by {
                assert(xpath::ncname(p)) by {
                    assert(p[0] == x[i]);
                    assert forall|j: int| 0 < j < p.len() implies xpath::name_char(
                        #[trigger] p[j],
                    ) by {
                        assert(p[j] == x[i + j]);
                    }
                }
                assert forall|j: int| 0 <= j < i implies !xpath::ncname(
                    #[trigger] x.subrange(j, end),
                ) by {
                    let longer = x.subrange(j, end);
                    let shorter = x.subrange(j, i);
                    if xpath::ncname(longer) {
                        assert(shorter[0] == longer[0]);
                        assert forall|n: int| 0 < n < shorter.len() implies xpath::name_char(
                            #[trigger] shorter[n],
                        ) by {
                            assert(shorter[n] == longer[n]);
                        }
                        assert(xpath::ncname(shorter));
                    }
                }
            }
            assert(qualifying(x)(i, p));
            lemma_add(found.structural, qualifying(x), i, next, p);
            lemma_no_name_before(x, next);
            lemma_prefixes(
                x,
                next,
                xpath::PrefixSeqs {
                    structural: text::add_unique(found.structural, p),
                    ..found
                },
            );
        } else {
            lemma_skip(found.structural, qualifying(x), i, next);
            lemma_prefixes(x, next, found);
        }
    } else {
        assert forall|k: int, q: Seq<char>| i <= k < i + 1 implies !#[trigger] quoting(x)(k, q) by {
            if quotes(x, k, q) {
                let (e, local) = choose|e: int, local: Seq<char>| #[trigger]
                    is_quoted_name(x, k, e, q, local);
            }
        }
        assert forall|k: int, q: Seq<char>| i <= k < i + 1 implies !#[trigger] qualifying(x)(
            k,
            q,
        ) by {
            if qualifies(x, k, q) {
                lemma_qualifier_starts(x, k, q);
            }
        }
        lemma_skip(found.structural, qualifying(x), i, i + 1);
        lemma_skip(found.literal_only, quoting(x), i, i + 1);
        if !xpath::name_char(x[i]) {
            lemma_no_name_before(x, i + 1);
        } else {
            assert forall|j: int| 0 <= j < i + 1 implies !xpath::ncname(
                #[trigger] x.subrange(j, i + 1),
            ) by {
                let longer = x.subrange(j, i + 1);
                let shorter = x.subrange(j, i);
                assert(longer[0] == x[j]);
                if j < i && xpath::ncname(longer) {
                    assert(shorter[0] == longer[0]);
                    assert forall|n: int| 0 < n < shorter.len() implies xpath::name_char(
                        #[trigger] shorter[n],
                    ) by {
                        assert(shorter[n] == longer[n]);
                    }
                    assert(xpath::ncname(shorter));
                }
            }
        }
        lemma_prefixes(x, i + 1, found);
    }
}

proof fn lemma_all(x: Seq<char>)
    ensures
        lists(
            xpath::prefixes_from(x, 0, xpath::no_prefixes()).structural,
            qualifying(x),
            x.len() as int,
        ),
        lists(
            xpath::prefixes_from(x, 0, xpath::no_prefixes()).literal_only,
            quoting(x),
            x.len() as int,
        ),
{
    lemma_prefixes(x, 0, xpath::no_prefixes());
}

/// The structural prefixes are exactly the names that stand in the expression
/// outside string literals, as long as they can be, with one colon behind them.
/// Each is told once, in the order in which they first come.
pub proof fn law_structural_prefixes(x: Seq<char>)
    ensures
        ({
            let found = xpath::prefixes_of(x).structural;
            &&& found.no_duplicates()
            &&& forall|i: int, e: int| #[trigger]
                is_qualifier(x, i, e) ==> found.contains(x.subrange(i, e))
            &&& forall|a: int|
                0 <= a < found.len() ==> qualifies_before(x, #[trigger] found[a], x.len() as int)
            &&& forall|a: int, b: int, j: int|
                0 <= a < b < found.len() && #[trigger] qualifies(x, j, found[b])
                    ==> qualifies_before(x, #[trigger] found[a], j)
        }),
{
    lemma_all(x);
    let found = xpath::prefixes_of(x).structural;
    assert forall|i: int, e: int| #[trigger] is_qualifier(x, i, e) implies found.contains(
        x.subrange(i, e),
    ) by {
        assert(qualifies(x, i, x.subrange(i, e)));
        assert(qualifying(x)(i, x.subrange(i, e)));
    }
    assert forall|a: int| 0 <= a < found.len() implies qualifies_before(
        x,
        #[trigger] found[a],
        x.len() as int,
    ) by {
        assert(comes_before(qualifying(x), found[a], x.len() as int));
        let k = choose|k: int| 0 <= k < x.len() && #[trigger] qualifying(x)(k, found[a]);
        assert(qualifies(x, k, found[a]));
    }
    assert forall|a: int, b: int, j: int|
        0 <= a < b < found.len() && #[trigger] qualifies(
            x,
            j,
            found[b],
        ) implies qualifies_before(x, #[trigger] found[a], j) by {
        lemma_qualifier_starts(x, j, found[b]);
        assert(qualifying(x)(j, found[b]));
        assert(comes_before(qualifying(x), found[a], j));
        let k = choose|k: int| 0 <= k < j && #[trigger] qualifying(x)(k, found[a]);
        assert(qualifies(x, k, found[a]));
    }
}

proof fn lemma_without_keeps(a: Seq<Seq<char>>, b: Seq<Seq<char>>)
    ensures
        forall|p: Seq<char>|
            a.contains(p) && !b.contains(p) ==> #[trigger] xpath::without(a, b).contains(p),
        forall|k: int|
            0 <= k < xpath::without(a, b).len() ==> a.contains(#[trigger] xpath::without(a, b)[k])
                && !b.contains(xpath::without(a, b)[k]),
        forall|i: int, j: int|
            0 <= i < j < xpath::without(a, b).len() ==> in_this_order(
                a,
                #[trigger] xpath::without(a, b)[i],
                #[trigger] xpath::without(a, b)[j],
            ),
    decreases a.len(),
{
    if a.len() > 0 {
        let front = a.drop_last();
        let last = a.last();
        lemma_without_keeps(front, b);
        let kept = xpath::without(front, b);
        let all = xpath::without(a, b);
        assert(a[a.len() - 1] == last);
        assert forall|p: Seq<char>| a.contains(p) && !b.contains(p) implies #[trigger] all.contains(
            p,
        ) by {
            let n = choose|n: int| 0 <= n < a.len() && a[n] == p;
            if n < front.len() {
                assert(front[n] == p);
                assert(kept.contains(p));
                let m = choose|m: int| 0 <= m < kept.len() && kept[m] == p;
                assert(all[m] == p);
            } else {
                assert(all[kept.len() as int] == p);
            }
        }
        assert forall|k: int| 0 <= k < all.len() implies a.contains(#[trigger] all[k])
            && !b.contains(all[k]) by {
            if k < kept.len() {
                assert(all[k] == kept[k]);
                let n = choose|n: int| 0 <= n < front.len() && front[n] == kept[k];
                assert(a[n] == all[k]);
            }
        }
        assert forall|i: int, j: int| 0 <= i < j < all.len() implies in_this_order(
            a,
            #[trigger] all[i],
            #[trigger] all[j],
        ) by {
            assert(all[i] == kept[i]);
            if j < kept.len() {
                assert(all[j] == kept[j]);
                assert(in_this_order(front, kept[i], kept[j]));
                let (m, n) = choose|m: int, n: int|
                    0 <= m < n < front.len() && #[trigger] front[m] == kept[i] && #[trigger] front[n]
                        == kept[j];
                assert(a[m] == all[i] && a[n] == all[j]);
            } else {
                let m = choose|m: int| 0 <= m < front.len() && front[m] == kept[i];
                assert(a[m] == all[i] && a[a.len() - 1] == all[j]);
            }
        }
    }
}

spec fn in_this_order(list: Seq<Seq<char>>, p: Seq<char>, q: Seq<char>) -> bool {
    exists|m: int, n: int|
        0 <= m < n < list.len() && #[trigger] list[m] == p && #[trigger] list[n] == q
}

/// The prefixes of the string literals that are one whole qualified name are
/// told, each once: among the literal ones in the order in which they first
/// come, unless they are structural. Nothing else is among the literal ones.
pub proof fn law_literal_prefixes(x: Seq<char>)
    ensures
        ({
            let structural = xpath::prefixes_of(x).structural;
            let found = xpath::prefixes_of(x).literal_only;
            &&& found.no_duplicates()
            &&& forall|i: int, e: int, p: Seq<char>, local: Seq<char>| #[trigger]
                is_quoted_name(x, i, e, p, local) ==> structural.contains(p) || found.contains(p)
            &&& forall|a: int|
                0 <= a < found.len() ==> !structural.contains(#[trigger] found[a]) && quotes_before(
                    x,
                    found[a],
                    x.len() as int,
                )
            &&& forall|a: int, b: int, j: int|
                0 <= a < b < found.len() && #[trigger] quotes(x, j, found[b]) ==> quotes_before(
                    x,
                    #[trigger] found[a],
                    j,
                )
        }),
{
    lemma_all(x);
    crate::xpath_laws::law_prefixes_are_sound(x);
    let all = xpath::prefixes_from(x, 0, xpath::no_prefixes()).literal_only;
    let structural = xpath::prefixes_of(x).structural;
    let found = xpath::prefixes_of(x).literal_only;
    lemma_without_keeps(all, structural);
    assert forall|i: int, e: int, p: Seq<char>, local: Seq<char>| #[trigger]
        is_quoted_name(x, i, e, p, local) implies structural.contains(p) || found.contains(p) by {
        assert(quotes(x, i, p));
        assert(quoting(x)(i, p));
        assert(all.contains(p));
    }
    assert forall|a: int| 0 <= a < found.len() implies !structural.contains(#[trigger] found[a])
        && quotes_before(x, found[a], x.len() as int) by {
        assert(all.contains(found[a]));
        let n = choose|n: int| 0 <= n < all.len() && all[n] == found[a];
        assert(comes_before(quoting(x), all[n], x.len() as int));
        let k = choose|k: int| 0 <= k < x.len() && #[trigger] quoting(x)(k, all[n]);
        assert(quotes(x, k, found[a]));
    }
    assert forall|a: int, b: int, j: int|
        0 <= a < b < found.len() && #[trigger] quotes(x, j, found[b]) implies quotes_before(
        x,
        #[trigger] found[a],
        j,
    ) by {
        assert(in_this_order(all, found[a], found[b]));
        let (m, n) = choose|m: int, n: int|
            0 <= m < n < all.len() && #[trigger] all[m] == found[a] && #[trigger] all[n] == found[b];
        let (e, local) = choose|e: int, local: Seq<char>| #[trigger]
            is_quoted_name(x, j, e, found[b], local);
        assert(quoting(x)(j, all[n]));
        assert(comes_before(quoting(x), all[m], j));
        let k = choose|k: int| 0 <= k < j && #[trigger] quoting(x)(k, all[m]);
        assert(quotes(x, k, found[a]));
    }
}

} // verus!
