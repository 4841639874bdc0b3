//! What holds of the XPath utilities on every input.

use crate::xpath;
use vstd::prelude::*;

verus! {

/// `parts` with a `/` between each two.
pub open spec fn join(parts: Seq<Seq<char>>) -> Seq<char>
    decreases parts.len(),
{
    if parts.len() == 0 {
        Seq::empty()
    } else if parts.len() == 1 {
        parts[0]
    } else {
        parts[0] + seq!['/'] + join(parts.drop_first())
    }
}

proof fn lemma_segments_join(path: Seq<char>, start: int, i: int)
    requires
        0 <= start <= i <= path.len(),
    ensures
        xpath::segments_from(path, start, i).len() > 0,
        join(xpath::segments_from(path, start, i)) == path.subrange(start, path.len() as int),
    decreases path.len() - i,
{
    let all = xpath::segments_from(path, start, i);
    if i >= path.len() {
    } else if xpath::is_separator(path, i) {
        lemma_segments_join(path, i + 1, i + 1);
        let rest = xpath::segments_from(path, i + 1, i + 1);
        assert(all.drop_first() =~= rest);
        assert(path.subrange(start, path.len() as int) =~= path.subrange(start, i) + seq!['/']
            + path.subrange(i + 1, path.len() as int));
    } else {
        lemma_segments_join(path, start, i + 1);
    }
}

/// Splitting a location path loses nothing: its segments, joined by `/`, are
/// the path.
pub proof fn law_segments_rejoin(path: Seq<char>)
    ensures
        join(xpath::segments(path)) == path,
{
    lemma_segments_join(path, 0, 0);
    assert(path.subrange(0, path.len() as int) =~= path);
}

proof fn lemma_no_bracket(path: Seq<char>, n: int)
    requires
        0 <= n <= path.len(),
        forall|k: int| 0 <= k < n ==> path[k] != '[',
    ensures
        xpath::predicate_nesting_at(path, n) == xpath::top_level(),
        xpath::outside_predicates(path, n) == path.take(n),
    decreases n,
{
    if n > 0 {
        lemma_no_bracket(path, n - 1);
        assert(path.take(n) =~= path.take(n - 1).push(path[n - 1]));
    } else {
        assert(path.take(0) =~= Seq::empty());
    }
}

proof fn lemma_outside_has_no_bracket(path: Seq<char>, n: int)
    requires
        0 <= n <= path.len(),
    ensures
        !xpath::outside_predicates(path, n).contains('['),
    decreases n,
{
    if n > 0 {
        lemma_outside_has_no_bracket(path, n - 1);
        let before = xpath::outside_predicates(path, n - 1);
        let after = xpath::outside_predicates(path, n);
        assert forall|k: int| 0 <= k < after.len() implies after[k] != '[' by {
            if k < before.len() {
                assert(before.contains(before[k]));
            }
        }
    }
}

/// A path without a `[` has no predicate to strip.
pub proof fn law_strip_without_predicates(path: Seq<char>)
    requires
        !path.contains('['),
    ensures
        xpath::stripped(path) == path,
{
    assert forall|k: int| 0 <= k < path.len() implies path[k] != '[' by {
        assert(path.contains(path[k]));
    }
    lemma_no_bracket(path, path.len() as int);
    assert(path.take(path.len() as int) =~= path);
}

/// A stripped path holds no `[`; but a path with unbalanced brackets or quotes
/// comes back whole.
pub proof fn law_strip_leaves_no_predicate(path: Seq<char>)
    ensures
        !xpath::balanced(path) ==> xpath::stripped(path) == path,
        if xpath::strippable(path) {
            !xpath::stripped(path).contains('[')
        } else {
            xpath::stripped(path) == path
        },
{
    lemma_outside_has_no_bracket(path, path.len() as int);
}

/// Stripping a second time changes nothing.
pub proof fn law_strip_is_idempotent(path: Seq<char>)
    ensures
        xpath::stripped(xpath::stripped(path)) == xpath::stripped(path),
{
    law_strip_leaves_no_predicate(path);
    if xpath::strippable(path) {
        law_strip_without_predicates(xpath::stripped(path));
    }
}

proof fn lemma_prefix_agrees(a: Seq<char>, b: Seq<char>)
    ensures
        xpath::common_prefix(a, b) <= a.len(),
        xpath::common_prefix(a, b) <= b.len(),
        xpath::common_prefix(a, b) == xpath::common_prefix(b, a),
        a.take(xpath::common_prefix(a, b) as int) == b.take(xpath::common_prefix(a, b) as int),
        xpath::common_prefix(a, b) < a.len() && xpath::common_prefix(a, b) < b.len()
            ==> a[xpath::common_prefix(a, b) as int] != b[xpath::common_prefix(a, b) as int],
    decreases a.len(),
{
    let n = xpath::common_prefix(a, b) as int;
    if a.len() > 0 && b.len() > 0 && a[0] == b[0] {
        let (c, d) = (a.drop_first(), b.drop_first());
        lemma_prefix_agrees(c, d);
        assert forall|k: int| 0 <= k < n implies a[k] == b[k] by {
            if k > 0 {
                assert(c.take(n - 1)[k - 1] == d.take(n - 1)[k - 1]);
            }
        }
        assert(a.take(n) =~= b.take(n));
        if n < a.len() && n < b.len() {
            assert(c[n - 1] != d[n - 1]);
        }
    } else {
        assert(a.take(0) =~= b.take(0));
    }
}

proof fn lemma_suffix_agrees(a: Seq<char>, b: Seq<char>)
    ensures
        xpath::common_suffix(a, b) <= a.len(),
        xpath::common_suffix(a, b) <= b.len(),
        xpath::common_suffix(a, b) == xpath::common_suffix(b, a),
        a.skip(a.len() - xpath::common_suffix(a, b)) == b.skip(
            b.len() - xpath::common_suffix(a, b),
        ),
    decreases a.len(),
{
    let n = xpath::common_suffix(a, b) as int;
    if a.len() > 0 && b.len() > 0 && a.last() == b.last() {
        let (c, d) = (a.drop_last(), b.drop_last());
        lemma_suffix_agrees(c, d);
        let (s, t) = (a.skip(a.len() - n), b.skip(b.len() - n));
        assert forall|k: int| 0 <= k < n implies s[k] == t[k] by {
            if k < n - 1 {
                assert(c.skip(c.len() - (n - 1))[k] == d.skip(d.len() - (n - 1))[k]);
            }
        }
        assert(s =~= t);
    } else {
        assert(a.skip(a.len() as int) =~= b.skip(b.len() as int));
    }
}

/// The two sides of a difference differ only in their unique parts: one common
/// start and one common end, put around them, give both paths back. Where both
/// unique parts go on, they go on differently.
pub proof fn law_diff_reassembles(a: Seq<char>, b: Seq<char>) -> (end: Seq<char>)
    ensures
        xpath::common_prefix(a, b) <= a.len(),
        a == a.take(xpath::common_prefix(a, b) as int) + xpath::unique_part(a, b) + end,
        b == a.take(xpath::common_prefix(a, b) as int) + xpath::unique_part(b, a) + end,
        xpath::unique_part(a, b).len() > 0 && xpath::unique_part(b, a).len() > 0
            ==> xpath::unique_part(a, b)[0] != xpath::unique_part(b, a)[0],
{
    lemma_prefix_agrees(a, b);
    let p = xpath::common_prefix(a, b) as int;
    let (c, d) = (a.skip(p), b.skip(p));
    lemma_suffix_agrees(c, d);
    let s = xpath::common_suffix(c, d);
    let end = c.skip(c.len() - s);
    assert(a =~= a.take(p) + xpath::unique_part(a, b) + end);
    assert(end == d.skip(d.len() - s));
    assert(b =~= b.take(p) + xpath::unique_part(b, a) + end);
    end
}

/// Two paths are equal exactly when neither side has a unique part.
pub proof fn law_diff_empty_iff_equal(a: Seq<char>, b: Seq<char>)
    ensures
        a == b <==> xpath::unique_part(a, b).len() == 0 && xpath::unique_part(b, a).len() == 0,
        a == b ==> xpath::common_prefix(a, b) == a.len(),
{
    let end = law_diff_reassembles(a, b);
    if a == b {
        lemma_prefix_agrees(a, b);
        assert(xpath::common_prefix(a, a) == a.len());
    }
    if xpath::unique_part(a, b).len() == 0 && xpath::unique_part(b, a).len() == 0 {
        assert(xpath::unique_part(a, b) =~= xpath::unique_part(b, a));
    }
}

/// A node test is what stands between the white space around it.
pub proof fn law_node_test_recomposes(head: Seq<char>)
    ensures
        match xpath::node_test(head) {
            Some((Some(prefix), local)) => {
                &&& xpath::ncname(prefix)
                &&& local == seq!['*'] || xpath::ncname(local)
                &&& xpath::trim_end(xpath::trim_start(head)) == prefix + seq![':'] + local
            },
            Some((None, local)) => {
                &&& local == seq!['*'] || xpath::ncname(local)
                &&& xpath::trim_end(xpath::trim_start(head)) == local
            },
            None => true,
        },
{
    let h = xpath::trim_end(xpath::trim_start(head));
    xpath::lemma_find_char_bounds(h, 0, ':');
    if let Some((Some(prefix), local)) = xpath::node_test(head) {
        assert(h =~= prefix + seq![':'] + local);
    }
}

/// Whether `prefix` stands somewhere in `x` with exactly one `:` behind it.
pub open spec fn precedes_single_colon(x: Seq<char>, prefix: Seq<char>) -> bool {
    exists|start: int, end: int|
        0 <= start <= end && #[trigger] x.subrange(start, end) == prefix && xpath::is_prefix_end(
            x,
            end,
        )
}

/// Whether a string literal that is a whole QName with the prefix `prefix`
/// stands at `start..end`, between its quotes.
pub open spec fn is_qname_literal(x: Seq<char>, start: int, end: int, prefix: Seq<char>) -> bool {
    &&& 0 < start <= end < x.len()
    &&& x[start - 1] == '\'' || x[start - 1] == '"'
    &&& x[end] == x[start - 1]
    &&& xpath::literal_prefix(x.subrange(start, end)) == Some(prefix)
}

/// Whether a string literal of `x` is a whole QName with the prefix `prefix`.
pub open spec fn is_literal_prefix(x: Seq<char>, prefix: Seq<char>) -> bool {
    exists|start: int, end: int| #[trigger] is_qname_literal(x, start, end, prefix)
}

/// What every prefix found so far is.
pub open spec fn sound(x: Seq<char>, found: xpath::PrefixSeqs) -> bool {
    &&& found.structural.no_duplicates()
    &&& found.literal_only.no_duplicates()
    &&& forall|k: int|
        0 <= k < found.structural.len() ==> xpath::ncname(#[trigger] found.structural[k])
            && precedes_single_colon(x, found.structural[k])
    &&& forall|k: int|
        0 <= k < found.literal_only.len() ==> xpath::ncname(#[trigger] found.literal_only[k])
            && is_literal_prefix(x, found.literal_only[k])
}

proof fn lemma_prefixes_sound(x: Seq<char>, i: int, found: xpath::PrefixSeqs)
    requires
        0 <= i <= x.len(),
        sound(x, found),
    ensures
        sound(x, xpath::prefixes_from(x, i, found)),
    decreases x.len() - i,
{
    if i >= x.len() {
    } else if x[i] == '\'' || x[i] == '"' {
        xpath::lemma_find_char_bounds(x, i + 1, x[i]);
        let close = xpath::find_char(x, i + 1, x[i]);
        if close < x.len() {
            let literal = x.subrange(i + 1, close);
            let next = xpath::PrefixSeqs {
                literal_only: xpath::add_literal(found.literal_only, literal),
                ..found
            };
            assert(sound(x, next)) by {
                if let Some(p) = xpath::literal_prefix(literal) {
                    assert(is_qname_literal(x, i + 1, close, p));
                }
            }
            lemma_prefixes_sound(x, close + 1, next);
        }
    } else if xpath::name_start(x[i]) {
        xpath::lemma_name_end(x, i + 1);
        let end = xpath::name_end(x, i + 1);
        if xpath::is_prefix_end(x, end) {
            let p = x.subrange(i, end);
            assert(xpath::ncname(p)) by {
                assert forall|k: int| 0 < k < p.len() implies xpath::name_char(#[trigger] p[k]) by {
                    assert(p[k] == x[i + k]);
                }
            }
            assert(precedes_single_colon(x, p));
            let next = xpath::PrefixSeqs {
                structural: crate::text::add_unique(found.structural, p),
                ..found
            };
            assert(sound(x, next));
            lemma_prefixes_sound(x, end + 1, next);
        } else {
            lemma_prefixes_sound(x, end, found);
        }
    } else {
        lemma_prefixes_sound(x, i + 1, found);
    }
}

/// Every prefix found is an NCName and is reported once. A structural prefix
/// stands in the expression with exactly one `:` behind it, so an axis
/// (`child::`) is never reported; a literal prefix is that of a string literal
/// that is one whole QName, and no name is qualified by it.
pub proof fn law_prefixes_are_sound(x: Seq<char>)
    ensures
        sound(x, xpath::prefixes_of(x)),
        forall|k: int|
            0 <= k < xpath::prefixes_of(x).literal_only.len()
                ==> !xpath::prefixes_of(x).structural.contains(
                #[trigger] xpath::prefixes_of(x).literal_only[k],
            ),
{
    lemma_prefixes_sound(x, 0, xpath::no_prefixes());
    let found = xpath::prefixes_from(x, 0, xpath::no_prefixes());
    lemma_without(found.literal_only, found.structural);
    let kept = xpath::without(found.literal_only, found.structural);
    assert forall|k: int| 0 <= k < kept.len() implies xpath::ncname(#[trigger] kept[k])
        && is_literal_prefix(x, kept[k]) by {
        assert(found.literal_only.contains(kept[k]));
    }
}

proof fn lemma_without(a: Seq<Seq<char>>, b: Seq<Seq<char>>)
    ensures
        forall|k: int|
            0 <= k < xpath::without(a, b).len() ==> a.contains(#[trigger] xpath::without(a, b)[k])
                && !b.contains(xpath::without(a, b)[k]),
        a.no_duplicates() ==> xpath::without(a, b).no_duplicates(),
    decreases a.len(),
{
    if a.len() > 0 {
        let front = a.drop_last();
        lemma_without(front, b);
        let kept = xpath::without(front, b);
        let all = xpath::without(a, b);
        assert forall|k: int| 0 <= k < all.len() implies a.contains(#[trigger] all[k])
            && !b.contains(all[k]) by {
            if k < kept.len() {
                assert(front.contains(kept[k]));
                let j = choose|j: int| 0 <= j < front.len() && front[j] == kept[k];
                assert(a[j] == all[k]);
            } else {
                assert(a[a.len() - 1] == all[k]);
            }
        }
        if a.no_duplicates() && !b.contains(a.last()) {
            assert forall|i: int, j: int| 0 <= i < all.len() && 0 <= j < all.len() && i
                != j implies all[i] != all[j] by {
                if i == kept.len() {
                    assert(front.contains(kept[j]));
                } else if j == kept.len() {
                    assert(front.contains(kept[i]));
                }
            }
        }
    }
}

/// An expression without a `:` references no prefix.
pub proof fn law_no_colon_no_prefix(x: Seq<char>)
    requires
        !x.contains(':'),
    ensures
        xpath::prefixes_of(x).structural.len() == 0,
        xpath::prefixes_of(x).literal_only.len() == 0,
{
    law_prefixes_are_sound(x);
    let found = xpath::prefixes_of(x);
    if found.structural.len() > 0 {
        let p = found.structural[0];
        let (start, end) = choose|start: int, end: int|
            0 <= start <= end && #[trigger] x.subrange(start, end) == p && xpath::is_prefix_end(
                x,
                end,
            );
        assert(x.contains(x[end]));
    }
    if found.literal_only.len() > 0 {
        let p = found.literal_only[0];
        let (start, end) = choose|start: int, end: int| #[trigger]
            is_qname_literal(x, start, end, p);
        let literal = x.subrange(start, end);
        xpath::lemma_find_char_bounds(literal, 0, ':');
        let k = xpath::find_char(literal, 0, ':');
        assert(x.contains(x[start + k]));
    }
}

} // verus!
