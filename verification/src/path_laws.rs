//! What holds of location paths: which are balanced, how they are split, and
//! what is left of them without their predicates.

use crate::xpath;
use crate::xpath::Nesting;
use vstd::prelude::*;

verus! {

/// Whether the character is a quote of either kind.
pub open spec fn quote(c: char) -> bool {
    c == '\'' || c == '"'
}

/// Whether the character is neither a quote nor a bracket.
pub open spec fn plain(c: char) -> bool {
    !quote(c) && c != '[' && c != ']'
}

proof fn lemma_shift(a: Seq<char>, b: Seq<char>, m: int)
    requires
        xpath::nesting_at(a, a.len() as int).quote is None,
        0 <= m <= b.len(),
    ensures
        xpath::nesting_at(a + b, a.len() + m) == (Nesting {
            depth: xpath::nesting_at(a, a.len() as int).depth + xpath::nesting_at(b, m).depth,
            quote: xpath::nesting_at(b, m).quote,
        }),
    decreases m,
{
    if m > 0 {
        lemma_shift(a, b, m - 1);
        assert((a + b)[a.len() + m - 1] == b[m - 1]);
    } else {
        lemma_start(a, b, a.len() as int);
    }
}

proof fn lemma_start(a: Seq<char>, b: Seq<char>, n: int)
    requires
        0 <= n <= a.len(),
    ensures
        xpath::nesting_at(a + b, n) == xpath::nesting_at(a, n),
    decreases n,
{
    if n > 0 {
        lemma_start(a, b, n - 1);
        assert((a + b)[n - 1] == a[n - 1]);
    }
}

proof fn lemma_join(a: Seq<char>, b: Seq<char>)
    requires
        xpath::balanced(a),
    ensures
        xpath::balanced(a + b) == xpath::balanced(b),
{
    let ab = a + b;
    lemma_shift(a, b, b.len() as int);
    if xpath::balanced(b) {
        assert forall|n: int| 0 <= n <= ab.len() implies (#[trigger] xpath::nesting_at(ab, n)).depth
            >= 0 by {
            if n <= a.len() {
                lemma_start(a, b, n);
                assert(xpath::nesting_at(a, n).depth >= 0);
            } else {
                lemma_shift(a, b, n - a.len());
                assert(xpath::nesting_at(b, n - a.len()).depth >= 0);
            }
        }
    }
    if xpath::balanced(ab) {
        assert forall|m: int| 0 <= m <= b.len() implies (#[trigger] xpath::nesting_at(b, m)).depth
            >= 0 by {
            lemma_shift(a, b, m);
            assert(xpath::nesting_at(ab, a.len() + m).depth >= 0);
        }
    }
}

proof fn lemma_one(c: char)
    ensures
        xpath::nesting_at(seq![c], 1) == xpath::nest(xpath::top_level(), c),
        xpath::nesting_at(seq![c], 0) == xpath::top_level(),
{
    reveal_with_fuel(xpath::nesting_at, 2);
}

proof fn lemma_group(b: Seq<char>, m: int)
    requires
        xpath::balanced(b),
        0 <= m <= b.len(),
    ensures
        xpath::nesting_at(seq!['['] + b + seq![']'], 1 + m) == (Nesting {
            depth: 1 + xpath::nesting_at(b, m).depth,
            quote: xpath::nesting_at(b, m).quote,
        }),
        xpath::nesting_at(seq!['['] + b + seq![']'], b.len() as int + 2) == xpath::top_level(),
{
    lemma_one('[');
    lemma_shift(seq!['['], b, m);
    lemma_shift(seq!['['], b, b.len() as int);
    let front = seq!['['] + b;
    lemma_start(front, seq![']'], 1 + m);
    lemma_start(front, seq![']'], 1 + b.len() as int);
    let all = front + seq![']'];
    assert(all[b.len() as int + 1] == ']');
}

proof fn lemma_quoted(q: char, s: Seq<char>, n: int)
    requires
        quote(q),
        !s.contains(q),
        1 <= n <= s.len() + 1,
    ensures
        xpath::nesting_at(seq![q] + s + seq![q], n) == (Nesting { depth: 0, quote: Some(q) }),
        n == s.len() + 1 ==> xpath::nesting_at(seq![q] + s + seq![q], n + 1) == xpath::top_level(),
    decreases n,
{
    let all = seq![q] + s + seq![q];
    if n > 1 {
        lemma_quoted(q, s, n - 1);
        assert(all[n - 1] == s[n - 2]);
        assert(s.contains(s[n - 2]));
    } else {
        assert(xpath::nesting_at(all, 0) == xpath::top_level());
        assert(all[0] == q);
    }
    if n == s.len() + 1 {
        assert(all[n] == q);
    }
}

/// What is balanced: nothing, any character but quotes and brackets, a balanced
/// text in brackets, a text in quotes that does not hold that quote, and one
/// balanced text behind another.
pub proof fn law_balanced_texts(a: Seq<char>, b: Seq<char>, c: char, q: char, s: Seq<char>)
    ensures
        xpath::balanced(Seq::<char>::empty()),
        plain(c) ==> xpath::balanced(seq![c]),
        xpath::balanced(b) ==> xpath::balanced(seq!['['] + b + seq![']']),
        quote(q) && !s.contains(q) ==> xpath::balanced(seq![q] + s + seq![q]),
        xpath::balanced(a) ==> xpath::balanced(a + b) == xpath::balanced(b),
{
    lemma_one(c);
    if plain(c) {
        assert forall|n: int| 0 <= n <= 1 implies (#[trigger] xpath::nesting_at(
            seq![c],
            n,
        )).depth >= 0 by {}
    }
    if xpath::balanced(b) {
        let all = seq!['['] + b + seq![']'];
        lemma_group(b, 0);
        assert forall|n: int| 0 <= n <= all.len() implies (#[trigger] xpath::nesting_at(
            all,
            n,
        )).depth >= 0 by {
            if 1 <= n <= b.len() + 1 {
                lemma_group(b, n - 1);
                assert(xpath::nesting_at(b, n - 1).depth >= 0);
            }
        }
    }
    if quote(q) && !s.contains(q) {
        let all = seq![q] + s + seq![q];
        lemma_quoted(q, s, s.len() as int + 1);
        assert forall|n: int| 0 <= n <= all.len() implies (#[trigger] xpath::nesting_at(
            all,
            n,
        )).depth >= 0 by {
            if 1 <= n <= s.len() + 1 {
                lemma_quoted(q, s, n);
            }
        }
    }
    if xpath::balanced(a) {
        lemma_join(a, b);
    }
}

/// A text that begins with a closing bracket is not balanced.
pub proof fn law_nothing_closes_unopened(rest: Seq<char>)
    ensures
        !xpath::balanced(seq![']'] + rest),
{
    let all = seq![']'] + rest;
    lemma_one(']');
    lemma_start(seq![']'], rest, 1);
    assert(xpath::nesting_at(all, 1).depth == -1);
}

spec fn is_top(x: Seq<char>, n: int) -> bool {
    xpath::nesting_at(x, n) == xpath::top_level()
}

proof fn lemma_first_top(x: Seq<char>, from: int) -> (n: int)
    requires
        0 <= from <= x.len(),
        is_top(x, x.len() as int),
    ensures
        from <= n <= x.len(),
        is_top(x, n),
        forall|k: int| from <= k < n ==> !is_top(x, k),
    decreases x.len() - from,
{
    if is_top(x, from) {
        from
    } else {
        lemma_first_top(x, from + 1)
    }
}

proof fn lemma_deep(x: Seq<char>, n: int, k: int)
    requires
        xpath::balanced(x),
        x.len() > 0,
        x[0] == '[',
        1 <= k < n <= x.len(),
        forall|j: int| 1 <= j < n ==> !is_top(x, j),
    ensures
        xpath::nesting_at(x, k).depth >= 1,
    decreases k,
{
    assert(xpath::nesting_at(x, 0) == xpath::top_level());
    if k > 1 {
        lemma_deep(x, n, k - 1);
        assert(!is_top(x, k));
        assert(xpath::nesting_at(x, k).depth >= 0);
    }
}

/// A bracket that a balanced text begins with is closed, with balanced text
/// inside and behind.
pub proof fn law_brackets_close(rest: Seq<char>) -> (parts: (Seq<char>, Seq<char>))
    requires
        xpath::balanced(seq!['['] + rest),
    ensures
        seq!['['] + rest == seq!['['] + parts.0 + seq![']'] + parts.1,
        xpath::balanced(parts.0),
        xpath::balanced(parts.1),
{
    let x = seq!['['] + rest;
    lemma_one('[');
    lemma_start(seq!['['], rest, 1);
    let n = lemma_first_top(x, 1);
    assert(n > 1);
    lemma_deep(x, n, n - 1);
    let before = xpath::nesting_at(x, n - 1);
    assert(xpath::nesting_at(x, n) == xpath::nest(before, x[n - 1]));
    assert(x[n - 1] == ']' && before.quote is None && before.depth == 1);
    let inside = x.subrange(1, n - 1);
    let behind = x.skip(n);
    assert(x =~= seq!['['] + inside + seq![']'] + behind);
    assert forall|m: int| 0 <= m <= inside.len() implies xpath::nesting_at(x, 1 + m) == (Nesting {
        depth: 1 + (#[trigger] xpath::nesting_at(inside, m)).depth,
        quote: xpath::nesting_at(inside, m).quote,
    }) by {
        lemma_shift(seq!['['], inside, m);
        lemma_start(seq!['['] + inside, seq![']'] + behind, 1 + m);
        assert((seq!['['] + inside) + (seq![']'] + behind) =~= x);
    }
    assert forall|m: int| 0 <= m <= inside.len() implies (#[trigger] xpath::nesting_at(
        inside,
        m,
    )).depth >= 0 by {
        if 1 + m < n {
            lemma_deep(x, n, 1 + m);
        }
    }
    assert(xpath::nesting_at(inside, inside.len() as int) == xpath::top_level());
    law_balanced_texts(Seq::empty(), inside, 'a', '"', Seq::empty());
    lemma_join(seq!['['] + inside + seq![']'], behind);
    (inside, behind)
}

proof fn lemma_still_quoted(x: Seq<char>, k: int)
    requires
        1 <= k <= x.len(),
        quote(x[0]),
        forall|j: int| 1 <= j < k ==> #[trigger] x[j] != x[0],
    ensures
        xpath::nesting_at(x, k) == (Nesting { depth: 0, quote: Some(x[0]) }),
    decreases k,
{
    assert(xpath::nesting_at(x, 0) == xpath::top_level());
    if k > 1 {
        lemma_still_quoted(x, k - 1);
        assert(x[k - 1] != x[0]);
    }
}

/// A quote that a balanced text begins with is closed by the next of its kind,
/// with balanced text behind.
pub proof fn law_quotes_close(q: char, rest: Seq<char>) -> (parts: (Seq<char>, Seq<char>))
    requires
        quote(q),
        xpath::balanced(seq![q] + rest),
    ensures
        seq![q] + rest == seq![q] + parts.0 + seq![q] + parts.1,
        !parts.0.contains(q),
        xpath::balanced(parts.1),
{
    let x = seq![q] + rest;
    xpath::lemma_find_char_bounds(x, 1, q);
    let close = xpath::find_char(x, 1, q);
    assert(x[0] == q);
    if close >= x.len() {
        lemma_still_quoted(x, x.len() as int);
    }
    let inside = x.subrange(1, close);
    let behind = x.skip(close + 1);
    assert(x =~= seq![q] + inside + seq![q] + behind);
    assert(!inside.contains(q)) by {
        if inside.contains(q) {
            let k = choose|k: int| 0 <= k < inside.len() && inside[k] == q;
            assert(x[k + 1] == q);
        }
    }
    law_balanced_texts(Seq::empty(), Seq::empty(), 'a', q, inside);
    lemma_join(seq![q] + inside + seq![q], behind);
    (inside, behind)
}

proof fn lemma_undivided(path: Seq<char>, start: int, i: int)
    requires
        0 <= start <= i <= path.len(),
        forall|k: int| i <= k < path.len() ==> !#[trigger] xpath::is_separator(path, k),
    ensures
        xpath::segments_from(path, start, i) == seq![path.subrange(start, path.len() as int)],
    decreases path.len() - i,
{
    if i < path.len() {
        lemma_undivided(path, start, i + 1);
    }
}

/// A slash divides a path; what has no slash is one segment, and so is what
/// stands in brackets or in quotes, slashes in it or not.
pub proof fn law_what_divides_a_path(s: Seq<char>, b: Seq<char>, q: char, t: Seq<char>)
    ensures
        xpath::segments(seq!['/']) == seq![Seq::<char>::empty(), Seq::<char>::empty()],
        !s.contains('/') ==> xpath::segments(s) == seq![s],
        xpath::balanced(b) ==> xpath::segments(seq!['['] + b + seq![']']) == seq![
            seq!['['] + b + seq![']'],
        ],
        quote(q) && !t.contains(q) ==> xpath::segments(seq![q] + t + seq![q]) == seq![
            seq![q] + t + seq![q],
        ],
{
    let slash = seq!['/'];
    assert(xpath::nesting_at(slash, 0) == xpath::top_level());
    assert(xpath::is_separator(slash, 0));
    reveal_with_fuel(xpath::segments_from, 3);
    assert(slash.subrange(0, 0) =~= Seq::<char>::empty());
    assert(slash.subrange(1, 1) =~= Seq::<char>::empty());
    assert(xpath::segments(slash) =~= seq![Seq::<char>::empty(), Seq::<char>::empty()]);
    if !s.contains('/') {
        assert forall|k: int| 0 <= k < s.len() implies !#[trigger] xpath::is_separator(s, k) by {
            assert(s.contains(s[k]));
        }
        lemma_undivided(s, 0, 0);
        assert(s.subrange(0, s.len() as int) =~= s);
    }
    if xpath::balanced(b) {
        let all = seq!['['] + b + seq![']'];
        assert forall|k: int| 0 <= k < all.len() implies !#[trigger] xpath::is_separator(all, k) by {
            if k > 0 {
                lemma_group(b, k - 1);
                assert(xpath::nesting_at(b, k - 1).depth >= 0);
            }
        }
        lemma_undivided(all, 0, 0);
        assert(all.subrange(0, all.len() as int) =~= all);
    }
    if quote(q) && !t.contains(q) {
        let all = seq![q] + t + seq![q];
        assert forall|k: int| 0 <= k < all.len() implies !#[trigger] xpath::is_separator(all, k) by {
            if k > 0 {
                lemma_quoted(q, t, k);
            }
        }
        lemma_undivided(all, 0, 0);
        assert(all.subrange(0, all.len() as int) =~= all);
    }
}

/// The two lists with the last of the one and the first of the other put
/// together.
pub open spec fn spliced(a: Seq<Seq<char>>, b: Seq<Seq<char>>) -> Seq<Seq<char>> {
    a.drop_last() + seq![a.last() + b[0]] + b.drop_first()
}

proof fn lemma_separators_shift(a: Seq<char>, b: Seq<char>, m: int)
    requires
        xpath::nesting_at(a, a.len() as int) == xpath::top_level(),
        0 <= m < b.len(),
    ensures
        xpath::is_separator(a + b, a.len() + m) == xpath::is_separator(b, m),
{
    lemma_shift(a, b, m);
    assert((a + b)[a.len() + m] == b[m]);
}

proof fn lemma_segments_shift(a: Seq<char>, b: Seq<char>, start: int, m: int)
    requires
        xpath::nesting_at(a, a.len() as int) == xpath::top_level(),
        0 <= start <= m <= b.len(),
    ensures
        xpath::segments_from(a + b, a.len() + start, a.len() + m) == xpath::segments_from(
            b,
            start,
            m,
        ),
    decreases b.len() - m,
{
    let ab = a + b;
    if m >= b.len() {
        assert(ab.subrange(a.len() + start, ab.len() as int) =~= b.subrange(start, b.len() as int));
    } else {
        lemma_separators_shift(a, b, m);
        if xpath::is_separator(b, m) {
            lemma_segments_shift(a, b, m + 1, m + 1);
            assert(ab.subrange(a.len() + start, a.len() + m) =~= b.subrange(start, m));
        } else {
            lemma_segments_shift(a, b, start, m + 1);
        }
    }
}

proof fn lemma_segments_seam(a: Seq<char>, b: Seq<char>, start: int, m: int)
    requires
        xpath::nesting_at(a, a.len() as int) == xpath::top_level(),
        0 <= start <= a.len(),
        0 <= m <= b.len(),
    ensures
        xpath::segments_from(b, 0, m).len() > 0,
        xpath::segments_from(a + b, start, a.len() + m) == seq![
            a.subrange(start, a.len() as int) + xpath::segments_from(b, 0, m)[0],
        ] + xpath::segments_from(b, 0, m).drop_first(),
    decreases b.len() - m,
{
    let ab = a + b;
    let tail = a.subrange(start, a.len() as int);
    let segments = xpath::segments_from(b, 0, m);
    if m >= b.len() {
        assert(ab.subrange(start, ab.len() as int) =~= tail + b.subrange(0, b.len() as int));
        assert(seq![tail + segments[0]] + segments.drop_first() =~= seq![
            ab.subrange(start, ab.len() as int),
        ]);
    } else {
        lemma_separators_shift(a, b, m);
        if xpath::is_separator(b, m) {
            lemma_segments_shift(a, b, m + 1, m + 1);
            assert(ab.subrange(start, a.len() + m) =~= tail + b.subrange(0, m));
            assert(segments.drop_first() =~= xpath::segments_from(b, m + 1, m + 1));
        } else {
            lemma_segments_seam(a, b, start, m + 1);
        }
    }
}

proof fn lemma_segments_splice(a: Seq<char>, b: Seq<char>, start: int, i: int)
    requires
        xpath::nesting_at(a, a.len() as int) == xpath::top_level(),
        0 <= start <= i <= a.len(),
    ensures
        xpath::segments_from(a, start, i).len() > 0,
        xpath::segments(b).len() > 0,
        xpath::segments_from(a + b, start, i) == spliced(
            xpath::segments_from(a, start, i),
            xpath::segments(b),
        ),
    decreases a.len() - i,
{
    let ab = a + b;
    let first = xpath::segments_from(a, start, i);
    let second = xpath::segments(b);
    lemma_segments_seam(a, b, start, 0);
    if i >= a.len() {
        assert(spliced(first, second) =~= seq![
            a.subrange(start, a.len() as int) + second[0],
        ] + second.drop_first());
    } else {
        lemma_start(a, b, i);
        assert(ab[i] == a[i]);
        if xpath::is_separator(a, i) {
            lemma_segments_splice(a, b, i + 1, i + 1);
            let rest = xpath::segments_from(a, i + 1, i + 1);
            assert(ab.subrange(start, i) =~= a.subrange(start, i));
            assert(first =~= seq![a.subrange(start, i)] + rest);
            assert(first.drop_last() =~= seq![a.subrange(start, i)] + rest.drop_last());
            assert(first.last() == rest.last());
            assert(spliced(first, second) =~= seq![a.subrange(start, i)] + spliced(rest, second));
        } else {
            lemma_segments_splice(a, b, start, i + 1);
        }
    }
}

/// A path is split part by part: the segments of a balanced path and of one put
/// behind it are those of the two, the last of the one and the first of the
/// other being one segment.
pub proof fn law_paths_are_split_part_by_part(a: Seq<char>, b: Seq<char>)
    requires
        xpath::balanced(a),
    ensures
        xpath::segments(a + b) == spliced(xpath::segments(a), xpath::segments(b)),
{
    lemma_segments_splice(a, b, 0, 0);
}

/// Whether the text is balanced and has no predicate in it.
pub open spec fn bare(s: Seq<char>) -> bool {
    xpath::balanced(s) && !s.contains('[')
}

/// Texts with a predicate behind each, one after the other, and `tail` behind
/// them.
pub open spec fn with_predicates(parts: Seq<(Seq<char>, Seq<char>)>, tail: Seq<char>) -> Seq<char>
    decreases parts.len(),
{
    if parts.len() == 0 {
        tail
    } else {
        parts[0].0 + (seq!['['] + parts[0].1 + seq![']']) + with_predicates(
            parts.drop_first(),
            tail,
        )
    }
}

/// The same texts without the predicates.
pub open spec fn without_predicates(
    parts: Seq<(Seq<char>, Seq<char>)>,
    tail: Seq<char>,
) -> Seq<char>
    decreases parts.len(),
{
    if parts.len() == 0 {
        tail
    } else {
        parts[0].0 + without_predicates(parts.drop_first(), tail)
    }
}

proof fn lemma_bare(a: Seq<char>, b: Seq<char>, n: int)
    requires
        !a.contains('['),
        0 <= n <= a.len(),
    ensures
        xpath::predicate_nesting_at(a + b, n) == xpath::top_level(),
        xpath::outside_predicates(a + b, n) == a.take(n),
    decreases n,
{
    if n > 0 {
        lemma_bare(a, b, n - 1);
        assert((a + b)[n - 1] == a[n - 1]);
        assert(a.contains(a[n - 1]));
        assert(a.take(n) =~= a.take(n - 1).push(a[n - 1]));
    } else {
        assert(a.take(0) =~= Seq::<char>::empty());
    }
}

proof fn lemma_predicate(a: Seq<char>, b: Seq<char>, rest: Seq<char>, m: int)
    requires
        !a.contains('['),
        xpath::balanced(b),
        0 <= m <= b.len(),
    ensures
        ({
            let x = a + (seq!['['] + b + seq![']']) + rest;
            &&& xpath::predicate_nesting_at(x, a.len() + 1 + m) == (Nesting {
                depth: 1 + xpath::nesting_at(b, m).depth,
                quote: xpath::nesting_at(b, m).quote,
            })
            &&& xpath::outside_predicates(x, a.len() + 1 + m) == a
        }),
    decreases m,
{
    let x = a + (seq!['['] + b + seq![']']) + rest;
    let tail = seq!['['] + b + seq![']'] + rest;
    assert(x =~= a + tail);
    if m > 0 {
        lemma_predicate(a, b, rest, m - 1);
        assert(x[a.len() + m] == b[m - 1]);
        assert(xpath::nesting_at(b, m - 1).depth >= 0);
    } else {
        lemma_bare(a, tail, a.len() as int);
        assert(x[a.len() as int] == '[');
        assert(a.take(a.len() as int) =~= a);
    }
}

proof fn lemma_predicates_shift(p: Seq<char>, rest: Seq<char>, m: int)
    requires
        xpath::predicate_nesting_at(p + rest, p.len() as int) == xpath::top_level(),
        0 <= m <= rest.len(),
    ensures
        xpath::predicate_nesting_at(p + rest, p.len() + m) == xpath::predicate_nesting_at(rest, m),
        xpath::outside_predicates(p + rest, p.len() + m) == xpath::outside_predicates(
            p + rest,
            p.len() as int,
        ) + xpath::outside_predicates(rest, m),
    decreases m,
{
    let x = p + rest;
    if m > 0 {
        lemma_predicates_shift(p, rest, m - 1);
        assert(x[p.len() + m - 1] == rest[m - 1]);
        assert(xpath::outside_predicates(x, p.len() + m) =~= xpath::outside_predicates(
            x,
            p.len() as int,
        ) + xpath::outside_predicates(rest, m));
    } else {
        assert(xpath::outside_predicates(x, p.len() as int) + Seq::<char>::empty()
            =~= xpath::outside_predicates(x, p.len() as int));
    }
}

proof fn lemma_strip(parts: Seq<(Seq<char>, Seq<char>)>, tail: Seq<char>)
    requires
        bare(tail),
        forall|i: int| 0 <= i < parts.len() ==> bare((#[trigger] parts[i]).0) && xpath::balanced(
            parts[i].1,
        ),
    ensures
        xpath::strippable(with_predicates(parts, tail)),
        xpath::outside_predicates(
            with_predicates(parts, tail),
            with_predicates(parts, tail).len() as int,
        ) == without_predicates(parts, tail),
    decreases parts.len(),
{
    let x = with_predicates(parts, tail);
    if parts.len() == 0 {
        lemma_bare(tail, Seq::empty(), tail.len() as int);
        assert(tail + Seq::<char>::empty() =~= tail);
        assert(tail.take(tail.len() as int) =~= tail);
    } else {
        let less = parts.drop_first();
        assert forall|i: int| 0 <= i < less.len() implies bare((#[trigger] less[i]).0)
            && xpath::balanced(less[i].1) by {
            assert(less[i] == parts[i + 1]);
        }
        lemma_strip(less, tail);
        let rest = with_predicates(less, tail);
        let (a, b) = parts[0];
        assert(bare(parts[0].0));
        let group = seq!['['] + b + seq![']'];
        let p = a + group;
        assert(x == p + rest);
        law_balanced_texts(a, b, 'a', '"', Seq::empty());
        lemma_join(a, group);
        lemma_join(p, rest);
        lemma_predicate(a, b, rest, b.len() as int);
        assert(x[p.len() - 1] == ']');
        assert(xpath::predicate_nesting_at(x, p.len() as int) == xpath::top_level());
        assert(xpath::outside_predicates(x, p.len() as int) == a);
        lemma_predicates_shift(p, rest, rest.len() as int);
        assert(x.len() == p.len() + rest.len());
    }
}

/// Stripping a path takes its predicates away, with whatever stands in them,
/// and leaves the rest as it is.
pub proof fn law_strip_takes_the_predicates(parts: Seq<(Seq<char>, Seq<char>)>, tail: Seq<char>)
    requires
        bare(tail),
        forall|i: int| 0 <= i < parts.len() ==> bare((#[trigger] parts[i]).0) && xpath::balanced(
            parts[i].1,
        ),
    ensures
        xpath::stripped(with_predicates(parts, tail)) == without_predicates(parts, tail),
{
    lemma_strip(parts, tail);
}

proof fn lemma_suffix_longest(a: Seq<char>, b: Seq<char>)
    ensures
        ({
            let n = xpath::common_suffix(a, b);
            &&& n <= a.len() && n <= b.len()
            &&& n < a.len() && n < b.len() ==> a[a.len() - n - 1] != b[b.len() - n - 1]
            &&& n == xpath::common_suffix(b, a)
        }),
    decreases a.len(),
{
    if a.len() > 0 && b.len() > 0 && a.last() == b.last() {
        lemma_suffix_longest(a.drop_last(), b.drop_last());
    }
}

proof fn lemma_prefix_longest(a: Seq<char>, b: Seq<char>)
    ensures
        ({
            let n = xpath::common_prefix(a, b) as int;
            &&& n <= a.len() && n <= b.len()
            &&& n < a.len() && n < b.len() ==> a[n] != b[n]
            &&& n == xpath::common_prefix(b, a)
            &&& forall|k: int| 0 <= k < n ==> a[k] == b[k]
        }),
    decreases a.len(),
{
    if a.len() > 0 && b.len() > 0 && a[0] == b[0] {
        let (c, d) = (a.drop_first(), b.drop_first());
        lemma_prefix_longest(c, d);
        let n = xpath::common_prefix(a, b) as int;
        assert forall|k: int| 0 <= k < n implies a[k] == b[k] by {
            if k > 0 {
                assert(c[k - 1] == d[k - 1]);
            }
        }
        if n < a.len() && n < b.len() {
            assert(c[n - 1] != d[n - 1]);
        }
    }
}

/// Two paths diverge at the first place where they differ or one of them ends.
/// What is told of each side is no longer than it has to be: where both sides
/// have something of their own, these begin differently and end differently.
pub proof fn law_diff_is_tight(a: Seq<char>, b: Seq<char>)
    ensures
        ({
            let p = xpath::common_prefix(a, b) as int;
            let (own, other) = (xpath::unique_part(a, b), xpath::unique_part(b, a));
            &&& 0 <= p <= a.len() && p <= b.len()
            &&& forall|k: int| 0 <= k < p ==> a[k] == b[k]
            &&& p == a.len() || p == b.len() || a[p] != b[p]
            &&& a.len() - own.len() == b.len() - other.len()
            &&& own.len() > 0 && other.len() > 0 ==> own[0] != other[0] && own.last()
                != other.last()
        }),
{
    let p = xpath::common_prefix(a, b) as int;
    lemma_prefix_longest(a, b);
    let (c, d) = (a.skip(p), b.skip(p));
    lemma_suffix_longest(c, d);
    let s = xpath::common_suffix(c, d);
    if s < c.len() && s < d.len() {
        assert(c[c.len() - s - 1] == a[a.len() - s - 1]);
        assert(d[d.len() - s - 1] == b[b.len() - s - 1]);
    }
}

} // verus!
