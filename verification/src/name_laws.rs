//! What holds of names, of white space and of node tests on every input.

use crate::xpath;
use vstd::prelude::*;

verus! {

/// Whether the code point lies between the two, both included.
pub open spec fn within(c: char, low: int, high: int) -> bool {
    low <= c as int <= high
}

/// An ASCII letter, in either case.
pub open spec fn letter(c: char) -> bool {
    within(c, 0x41, 0x5a) || within(c, 0x61, 0x7a)
}

/// An ASCII digit.
pub open spec fn digit(c: char) -> bool {
    within(c, 0x30, 0x39)
}

/// A character continues a name if and only if it is a letter, a digit, an
/// underscore, a hyphen or a full stop. Of these the letters and the underscore
/// can begin one, and no other character can.
pub proof fn law_name_characters(c: char)
    ensures
        xpath::name_start(c) <==> letter(c) || c as int == 0x5f,
        xpath::name_char(c) <==> letter(c) || digit(c) || c as int == 0x5f || c as int == 0x2d
            || c as int == 0x2e,
{
}

/// White space is what Unicode says it is: the controls from tab to carriage
/// return, next line, and the separators.
pub proof fn law_white_space(c: char)
    ensures
        xpath::white_space(c) <==> {
            ||| within(c, 0x09, 0x0d)
            ||| within(c, 0x20, 0x20)
            ||| within(c, 0x85, 0x85)
            ||| within(c, 0xa0, 0xa0)
            ||| within(c, 0x1680, 0x1680)
            ||| within(c, 0x2000, 0x200a)
            ||| within(c, 0x2028, 0x2029)
            ||| within(c, 0x202f, 0x202f)
            ||| within(c, 0x205f, 0x205f)
            ||| within(c, 0x3000, 0x3000)
        },
{
}

/// A name is built from its first character on: a letter or an underscore is
/// one, and a name is one still when a letter, a digit, an underscore, a hyphen
/// or a full stop is put behind it, and when nothing else is.
pub proof fn law_names_grow(name: Seq<char>, c: char)
    ensures
        !xpath::ncname(Seq::<char>::empty()),
        xpath::ncname(seq![c]) <==> letter(c) || c as int == 0x5f,
        name.len() > 0 ==> (xpath::ncname(name.push(c)) <==> xpath::ncname(name) && (letter(c)
            || digit(c) || c as int == 0x5f || c as int == 0x2d || c as int == 0x2e)),
{
    if name.len() > 0 {
        let grown = name.push(c);
        if xpath::ncname(name) && xpath::name_char(c) {
            assert forall|i: int| 0 < i < grown.len() implies xpath::name_char(
                #[trigger] grown[i],
            ) by {
                if i < name.len() {
                    assert(grown[i] == name[i]);
                }
            }
        }
        if xpath::ncname(grown) {
            assert(grown[name.len() as int] == c);
            assert(grown[0] == name[0]);
            assert forall|i: int| 0 < i < name.len() implies xpath::name_char(
                #[trigger] name[i],
            ) by {
                assert(grown[i] == name[i]);
            }
        }
    }
}

/// Whether every character is white space.
pub open spec fn blank(s: Seq<char>) -> bool {
    forall|i: int| 0 <= i < s.len() ==> xpath::white_space(#[trigger] s[i])
}

/// Whether the text has no white space at its start or its end.
pub open spec fn tight(s: Seq<char>) -> bool {
    s.len() > 0 ==> !xpath::white_space(s[0]) && !xpath::white_space(s.last())
}

proof fn lemma_trim_start(before: Seq<char>, rest: Seq<char>)
    requires
        blank(before),
        rest.len() > 0 ==> !xpath::white_space(rest[0]),
    ensures
        xpath::trim_start(before + rest) == rest,
    decreases before.len(),
{
    let all = before + rest;
    if before.len() > 0 {
        assert(all[0] == before[0]);
        let less = before.drop_first();
        assert forall|i: int| 0 <= i < less.len() implies xpath::white_space(#[trigger] less[i]) by {
            assert(less[i] == before[i + 1]);
        }
        assert(all.drop_first() =~= less + rest);
        lemma_trim_start(less, rest);
    } else {
        assert(all =~= rest);
    }
}

proof fn lemma_trim_end(rest: Seq<char>, after: Seq<char>)
    requires
        blank(after),
        rest.len() > 0 ==> !xpath::white_space(rest.last()),
    ensures
        xpath::trim_end(rest + after) == rest,
    decreases after.len(),
{
    let all = rest + after;
    if after.len() > 0 {
        assert(all.last() == after.last());
        assert(xpath::white_space(after[after.len() - 1]));
        let less = after.drop_last();
        assert forall|i: int| 0 <= i < less.len() implies xpath::white_space(#[trigger] less[i]) by {
            assert(less[i] == after[i]);
        }
        assert(all.drop_last() =~= rest + less);
        lemma_trim_end(rest, less);
    } else {
        assert(all =~= rest);
    }
}

proof fn lemma_trim_blank(s: Seq<char>)
    requires
        blank(s),
    ensures
        xpath::trim_start(s) == Seq::<char>::empty(),
{
    lemma_trim_start(s, Seq::empty());
    assert(s + Seq::<char>::empty() =~= s);
}

/// Trimming takes the white space off around a text, all of it and nothing
/// else.
pub proof fn law_trim(before: Seq<char>, text: Seq<char>, after: Seq<char>)
    requires
        blank(before),
        tight(text),
        blank(after),
    ensures
        xpath::trim_end(xpath::trim_start(before + text + after)) == text,
{
    if text.len() > 0 {
        assert(before + text + after =~= before + (text + after));
        assert((text + after)[0] == text[0]);
        lemma_trim_start(before, text + after);
        lemma_trim_end(text, after);
    } else {
        let all = before + text + after;
        assert forall|i: int| 0 <= i < all.len() implies xpath::white_space(#[trigger] all[i]) by {
            if i < before.len() {
                assert(all[i] == before[i]);
            } else {
                assert(all[i] == after[i - before.len()]);
            }
        }
        lemma_trim_blank(all);
        assert(text =~= Seq::<char>::empty());
    }
}

/// Every text is white space, then a text that none surrounds, then white
/// space.
pub proof fn law_trim_recomposes(s: Seq<char>) -> (around: (Seq<char>, Seq<char>))
    ensures
        blank(around.0),
        blank(around.1),
        tight(xpath::trim_end(xpath::trim_start(s))),
        s == around.0 + xpath::trim_end(xpath::trim_start(s)) + around.1,
{
    let before = lemma_start_recomposes(s);
    let rest = xpath::trim_start(s);
    let after = lemma_end_recomposes(rest);
    let text = xpath::trim_end(rest);
    assert(s =~= before + text + after);
    if text.len() > 0 {
        assert(rest[0] == text[0]);
    }
    (before, after)
}

proof fn lemma_start_recomposes(s: Seq<char>) -> (before: Seq<char>)
    ensures
        blank(before),
        s == before + xpath::trim_start(s),
        xpath::trim_start(s).len() > 0 ==> !xpath::white_space(xpath::trim_start(s)[0]),
    decreases s.len(),
{
    if s.len() > 0 && xpath::white_space(s[0]) {
        let less = lemma_start_recomposes(s.drop_first());
        let before = seq![s[0]] + less;
        assert forall|i: int| 0 <= i < before.len() implies xpath::white_space(
            #[trigger] before[i],
        ) by {
            if i > 0 {
                assert(before[i] == less[i - 1]);
            }
        }
        assert(s =~= seq![s[0]] + s.drop_first());
        assert(s =~= before + xpath::trim_start(s));
        before
    } else {
        assert(s =~= Seq::<char>::empty() + s);
        Seq::empty()
    }
}

proof fn lemma_end_recomposes(s: Seq<char>) -> (after: Seq<char>)
    ensures
        blank(after),
        s == xpath::trim_end(s) + after,
        xpath::trim_end(s).len() > 0 ==> !xpath::white_space(xpath::trim_end(s).last()),
    decreases s.len(),
{
    if s.len() > 0 && xpath::white_space(s.last()) {
        let less = lemma_end_recomposes(s.drop_last());
        let after = less.push(s.last());
        assert forall|i: int| 0 <= i < after.len() implies xpath::white_space(
            #[trigger] after[i],
        ) by {
            if i < less.len() {
                assert(after[i] == less[i]);
            }
        }
        assert(s =~= s.drop_last().push(s.last()));
        assert(s =~= xpath::trim_end(s) + after);
        after
    } else {
        assert(s =~= s + Seq::<char>::empty());
        Seq::empty()
    }
}

proof fn lemma_name_is_tight(name: Seq<char>)
    requires
        xpath::ncname(name),
    ensures
        tight(name),
        forall|i: int| 0 <= i < name.len() ==> #[trigger] name[i] != ':',
        name != seq!['*'],
{
    assert(xpath::name_start(name[0]));
    if name.len() > 1 {
        assert(xpath::name_char(name[name.len() - 1]));
    }
    assert(seq!['*'][0] == '*');
}

/// A name, or the wildcard, is a node test, with white space around it or
/// without.
pub proof fn law_node_test_takes_names(before: Seq<char>, local: Seq<char>, after: Seq<char>)
    requires
        blank(before),
        blank(after),
        xpath::ncname(local) || local == seq!['*'],
    ensures
        xpath::node_test(before + local + after) == Some((None::<Seq<char>>, local)),
{
    if xpath::ncname(local) {
        lemma_name_is_tight(local);
    }
    law_trim(before, local, after);
    lemma_no_colon(local);
}

proof fn lemma_no_colon(s: Seq<char>)
    requires
        forall|i: int| 0 <= i < s.len() ==> #[trigger] s[i] != ':',
    ensures
        xpath::find_char(s, 0, ':') == s.len(),
{
    xpath::lemma_find_char_bounds(s, 0, ':');
}

/// A name, a colon, and a name or the wildcard make a node test with a prefix,
/// with white space around it or without.
pub proof fn law_node_test_takes_prefixed_names(
    before: Seq<char>,
    prefix: Seq<char>,
    local: Seq<char>,
    after: Seq<char>,
)
    requires
        blank(before),
        blank(after),
        xpath::ncname(prefix),
        xpath::ncname(local) || local == seq!['*'],
    ensures
        xpath::node_test(before + (prefix + seq![':'] + local) + after) == Some(
            (Some(prefix), local),
        ),
{
    let test = prefix + seq![':'] + local;
    lemma_name_is_tight(prefix);
    if xpath::ncname(local) {
        lemma_name_is_tight(local);
    }
    assert(test[0] == prefix[0]);
    assert(test.last() == local.last());
    law_trim(before, test, after);
    lemma_colon(prefix, local);
    assert(test.take(prefix.len() as int) =~= prefix);
    assert(test.skip(prefix.len() as int + 1) =~= local);
}

/// The first colon of a text is the one behind what has none.
pub proof fn lemma_colon(prefix: Seq<char>, local: Seq<char>)
    requires
        forall|i: int| 0 <= i < prefix.len() ==> #[trigger] prefix[i] != ':',
    ensures
        xpath::find_char(prefix + seq![':'] + local, 0, ':') == prefix.len(),
{
    let all = prefix + seq![':'] + local;
    xpath::lemma_find_char_bounds(all, 0, ':');
    let at = xpath::find_char(all, 0, ':');
    assert(all[prefix.len() as int] == ':');
    if at < prefix.len() {
        assert(all[at] == prefix[at]);
    }
}

/// Nothing but a name or the wildcard, with or without a prefix, is a node
/// test: what is one is put together from its parts and white space.
pub proof fn law_node_test_takes_nothing_else(head: Seq<char>) -> (around: (Seq<char>, Seq<char>))
    ensures
        blank(around.0),
        blank(around.1),
        match xpath::node_test(head) {
            Some((Some(prefix), local)) => {
                &&& xpath::ncname(prefix)
                &&& xpath::ncname(local) || local == seq!['*']
                &&& head == around.0 + (prefix + seq![':'] + local) + around.1
            },
            Some((None, local)) => {
                &&& xpath::ncname(local) || local == seq!['*']
                &&& head == around.0 + local + around.1
            },
            None => true,
        },
{
    let around = law_trim_recomposes(head);
    let h = xpath::trim_end(xpath::trim_start(head));
    xpath::lemma_find_char_bounds(h, 0, ':');
    if let Some((Some(prefix), local)) = xpath::node_test(head) {
        assert(h =~= prefix + seq![':'] + local);
    }
    around
}

} // verus!
