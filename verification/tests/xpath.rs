use std::collections::HashSet;
use yang_push::xpath::{
    find_xpath_prefixes, is_ncname, parse_node_test, split_location_path, strip_xpath_predicates,
    xpath_diff,
};

#[test]
fn test_split_location_path_splits_on_slash_outside_brackets_and_quotes() {
    assert_eq!(
        split_location_path("/a/b[c='/']/d"),
        Some(vec!["", "a", "b[c='/']", "d"])
    );
}

#[test]
fn test_split_location_path_rejects_unbalanced_brackets_or_quotes() {
    assert_eq!(split_location_path("/a[b"), None);
    assert_eq!(split_location_path("/a]"), None);
    assert_eq!(split_location_path("/a[b='c]"), None);
}

#[test]
fn test_parse_node_test_accepts_prefixed_names_and_wildcards() {
    assert_eq!(
        parse_node_test("if:interface"),
        Some((Some("if"), "interface"))
    );
    assert_eq!(parse_node_test("*"), Some((None, "*")));
    assert_eq!(parse_node_test("if:*"), Some((Some("if"), "*")));
}

#[test]
fn test_parse_node_test_rejects_functions_axes_and_special_steps() {
    for head in ["current()", "node()", "@id", ".", "..", "if : interface"] {
        assert_eq!(parse_node_test(head), None, "should reject `{head}`");
    }
}

#[test]
fn test_is_ncname_accepts_valid_and_rejects_invalid_names() {
    for valid in ["if", "_ns", "oc-if", "a.b", "a1"] {
        assert!(is_ncname(valid), "should accept `{valid}`");
    }
    for invalid in ["", "1if", "-if", ".if", "if:name", "if name"] {
        assert!(!is_ncname(invalid), "should reject `{invalid}`");
    }
}

fn set<const N: usize>(items: [&str; N]) -> HashSet<String> {
    items.iter().map(|s| s.to_string()).collect()
}

fn as_set(items: Vec<String>) -> HashSet<String> {
    let n = items.len();
    let set: HashSet<String> = items.into_iter().collect();
    assert_eq!(set.len(), n, "a prefix is listed twice");
    set
}

fn assert_prefixes(expr: &str, expected: HashSet<String>) {
    let found = find_xpath_prefixes(expr);
    let all: HashSet<String> = found
        .structural
        .into_iter()
        .chain(found.literal_only)
        .collect();
    assert_eq!(all, expected, "unexpected prefix set for: {expr}");
}

#[test]
fn test_find_xpath_prefixes_yields_empty_when_no_qnames_present() {
    // Empty/whitespace input, unprefixed paths, pure numeric/operator
    // expressions, the `current()` function, and bare node tests all
    // contain no QNames — so nothing should be reported.
    for expr in [
        "",
        "   \n\t",
        "/interfaces/interface/name",
        "1 + 2.5 - 3 <= 4 and 5 != 6",
        "current()",
        "node() | text() | comment() | processing-instruction()",
    ] {
        assert_prefixes(expr, HashSet::new());
    }
}

#[test]
fn test_find_xpath_prefixes_test_extracts_prefixes_from_simple_location_paths() {
    // Motivating Huawei debug case, RFC 8641 Figure 12 (`/ex:foo`),
    // the subscribed-notifications `/int:interfaces` example,
    // prefix deduplication, and multi-prefix paths.
    let cases: &[(&str, HashSet<String>)] = &[
        (
            "/debug:debug/debug:board-resouce-states/debug:board-resouce-state",
            set(["debug"]),
        ),
        ("/ex:foo", set(["ex"])),
        ("/int:interfaces", set(["int"])),
        ("/if:interfaces/if:interface/if:name", set(["if"])),
        ("/a:x/b:y/c:z", set(["a", "b", "c"])),
    ];
    for (expr, expected) in cases {
        assert_prefixes(expr, expected.clone());
    }
}

#[test]
fn test_find_xpath_prefixes_recognizes_full_ncname_charset_in_prefixes() {
    // NCName permits letters, digits, `_`, `-`, `.`
    // (the last three may not start the name).
    let cases: &[(&str, HashSet<String>)] = &[
        // Hyphenated — common in OpenConfig.
        (
            "/oc-if:interfaces/oc-if:interface[oc-if:name='eth0']",
            set(["oc-if"]),
        ),
        // Dot in the middle (legal NCName, rare in practice).
        ("/a.b:c", set(["a.b"])),
        // Underscore-leading.
        ("/_ns:leaf", set(["_ns"])),
    ];
    for (expr, expected) in cases {
        assert_prefixes(expr, expected.clone());
    }
}

#[test]
fn test_find_xpath_prefixes_handles_prefixed_wildcards_and_attributes() {
    let cases: &[(&str, HashSet<String>)] = &[
        ("/ex:*", set(["ex"])),
        ("//@ex:id", set(["ex"])),
        ("/if:interface[@nc:operation='delete']", set(["if", "nc"])),
    ];
    for (expr, expected) in cases {
        assert_prefixes(expr, expected.clone());
    }
}

#[test]
fn test_find_xpath_prefixes_xpath_axes_are_never_reported_as_prefixes() {
    // Every XPath 1.0 axis name followed by `::` must be skipped,
    // since the `::` is an axis separator rather than a prefix colon.
    const AXES: &[&str] = &[
        "ancestor",
        "ancestor-or-self",
        "attribute",
        "child",
        "descendant",
        "descendant-or-self",
        "following",
        "following-sibling",
        "namespace",
        "parent",
        "preceding",
        "preceding-sibling",
        "self",
    ];
    for axis in AXES {
        assert_prefixes(&format!("{axis}::node()"), HashSet::new());
    }
    // Axes can still coexist with real prefixes in the same expression.
    assert_prefixes("descendant::if:interface/child::if:name", set(["if"]));
}

#[test]
fn test_find_xpath_prefixes_only_whole_qname_literals_are_reported() {
    // A colon inside a literal is only a prefix reference when the
    // *entire* literal is shaped like one QName (RFC 7950 §9.10
    // identityref lexical form) - a colon buried in a larger string, or
    // one with surrounding whitespace/extra separators, is just data.
    let cases: &[(&str, HashSet<String>)] = &[
        // Whole-literal QNames: reported, same as any other reference.
        ("../crypto = 'mc:aes'", set(["mc"])),
        ("name() = \"ns:bogus\"", set(["ns"])),
        ("@a:x = 'p:q' or @b:y = \"r:s\"", set(["a", "b", "p", "r"])),
        // Not a whole QName: colon is part of a larger string, skipped.
        ("@a:x = 'http://example.com:8080'", set(["a"])),
        ("contains(., 'note: value')", HashSet::new()),
        ("@a:x = 'a:b:c'", set(["a"])),
    ];
    for (expr, expected) in cases {
        assert_prefixes(expr, expected.clone());
    }
}

#[test]
fn test_find_xpath_prefixes_reproduces_whole_qname_literal_subscriptions() {
    // `hw-hwt` appears only inside the literal value, never as a
    // node-name reference, but its module must still be fetched to
    // validate the comparison.
    assert_prefixes(
        "/hw:hardware/hw:component[hw-hw:sub-class='hw-hwt:ethernetCsmacd-xcvr-link']/bbf-hw-xcvr:transceiver-link",
        set(["hw", "hw-hw", "hw-hwt", "bbf-hw-xcvr"]),
    );

    // Two predicates in the same path, one with a whole-QName literal
    // (`ianahw`) and one with a plain literal (`'rpm'`, no colon) that
    // contributes nothing.
    assert_prefixes(
        "/hw:hardware/hw:component[hw:class='ianahw:sensor']/hw:sensor-data[hw:value-type='rpm']",
        set(["hw", "ianahw"]),
    );

    // The whole-QName literal predicate is the last step in the path,
    // with nothing after the closing `]`.
    assert_prefixes(
        "/if:interfaces/if:interface[if:type='ianaift:gpon']",
        set(["if", "ianaift"]),
    );
}

/// A prefix used as a node name lands in `structural`, a prefix seen
/// only inside a whole-QName-shaped literal lands in `literal_only`.
/// Whether the latter also has a declared binding is not this
/// function's concern — it has no visibility into declared bindings —
/// that gate lives with callers (e.g. `DatastoreXPathFilter::path_prefixes`).
#[test]
fn test_find_xpath_prefixes_splits_structural_from_literal_only() {
    let found = find_xpath_prefixes(
        "/hw:hardware/hw:component[hw-hw:sub-class='hw-hwt:ethernetCsmacd-xcvr-link']",
    );
    assert_eq!(as_set(found.structural), set(["hw", "hw-hw"]));
    assert_eq!(as_set(found.literal_only), set(["hw-hwt"]));
}

#[test]
fn test_find_xpath_prefixes_handles_compound_expressions() {
    // Function calls, leafref-style predicates with current(),
    // unions, boolean ops across modules, and nested predicates.
    let cases: &[(&str, HashSet<String>)] = &[
        ("ex:size(@id)", set(["ex"])),
        (
            "/if:interfaces/if:interface[if:name = current()/../if:name]",
            set(["if"]),
        ),
        ("/a:foo | /b:bar", set(["a", "b"])),
        (
            "(/if:interfaces/if:interface/if:enabled = 'true') \
             and count(/rt:routing/rt:routes) > 0",
            set(["if", "rt"]),
        ),
        ("/a:x[a:y[b:z = '1']/a:w = c:fn()]", set(["a", "b", "c"])),
    ];
    for (expr, expected) in cases {
        assert_prefixes(expr, expected.clone());
    }
}

#[test]
fn test_find_xpath_prefixes_real_world_yang_expressions() {
    // ietf-interfaces-style `must`: `if:` is a live prefix, and the
    // `ianaift:*` tokens are whole-literal identityref QNames, so their
    // prefix is reported too (its module must be resolvable to validate
    // the comparison).
    let must_expr = "(/if:interfaces/if:interface[if:name=current()]/if:type \
                     = 'ianaift:ethernetCsmacd') \
                     or \
                     (/if:interfaces/if:interface[if:name=current()]/if:type \
                     = 'ianaift:ieee8023adLag')";
    assert_prefixes(must_expr, set(["if", "ianaift"]));

    // Multi-module subscriber filter for yp:datastore-xpath-filter.
    let filter_expr = "/if:interfaces/if:interface[if:name='eth0'] \
                       | /rt:routing/rt:ribs/rt:rib[rt:name=current()/ref:rib]";
    assert_prefixes(filter_expr, set(["if", "rt", "ref"]));
}

#[test]
fn test_find_xpath_prefixes_whitespace_between_ncname_and_colon_breaks_qname() {
    // In XPath 1.0 a QName is lexically `NCName ':' NCName` with no
    // whitespace. `if : interfaces` is three tokens, so `if` must not
    // be reported as a prefix. This behavior is intentional.
    assert_prefixes("  /  if : interfaces  ", HashSet::new());
}

#[test]
fn test_strip_xpath_predicates_removes_single_and_multiple_predicates() {
    assert_eq!(
        strip_xpath_predicates("/if:interfaces/if:interface[if:name='eth0']/if:oper-status"),
        "/if:interfaces/if:interface/if:oper-status"
    );
    assert_eq!(
        strip_xpath_predicates("/a:x[1]/a:y[a:z='w'][@id='2']"),
        "/a:x/a:y"
    );
}

#[test]
fn test_strip_xpath_predicates_ignores_brackets_inside_string_literals() {
    // A `]` inside a quoted predicate value must not be mistaken for the
    // end of the predicate.
    assert_eq!(
        strip_xpath_predicates(r#"/a:x[a:y='[literal]']/a:z"#),
        "/a:x/a:z"
    );
}

#[test]
fn test_strip_xpath_predicates_noop_without_predicates() {
    assert_eq!(
        strip_xpath_predicates("/if:interfaces/if:interface"),
        "/if:interfaces/if:interface"
    );
}

/// Unbalanced brackets/quotes must return the original path, not a
/// silently truncated one.
#[test]
fn test_strip_xpath_predicates_unbalanced_input_returns_original() {
    for path in [
        "/if:interfaces/if:interface[if:name='eth0'",
        "/if:interfaces/if:interface[if:name='eth0]",
        "/a:x[a:y=\"unterminated]/a:z",
    ] {
        assert_eq!(strip_xpath_predicates(path), path);
    }
}

#[test]
fn test_xpath_diff_reports_common_prefix_and_unique_suffixes() {
    let (diverges_at, provided_unique, canonical_unique) =
        xpath_diff("if:interfaces/interface", "/if:interfaces/interface");
    assert_eq!(diverges_at, 0);
    assert_eq!(provided_unique, "");
    assert_eq!(canonical_unique, "/");
}

#[test]
fn test_xpath_diff_isolates_a_single_differing_segment() {
    let (diverges_at, provided_unique, canonical_unique) = xpath_diff(
        "/if:interfaces/if:interface/oper-status",
        "/if:interfaces/interface/oper-status",
    );
    assert_eq!(diverges_at, "/if:interfaces/i".chars().count());
    assert_eq!(provided_unique, "f:i");
    assert_eq!(canonical_unique, "");
}

#[test]
fn test_xpath_diff_identical_paths_yield_no_unique_substrings() {
    let (diverges_at, provided_unique, canonical_unique) =
        xpath_diff("/if:interfaces/interface", "/if:interfaces/interface");
    assert_eq!(diverges_at, "/if:interfaces/interface".chars().count());
    assert!(provided_unique.is_empty());
    assert!(canonical_unique.is_empty());
}


#[test]
fn split_path_segments_rejoin_to_the_path() {
    for path in ["", "/", "a", "/a/b[c='/']/d", "//a", "/é/ü[x='/']"] {
        let segments = split_location_path(path).unwrap();
        assert_eq!(segments.join("/"), path);
    }
}

#[test]
fn node_test_takes_the_text_around_white_space() {
    assert_eq!(parse_node_test("  if:interface "), Some((Some("if"), "interface")));
    assert_eq!(parse_node_test(""), None);
    assert_eq!(parse_node_test(":a"), None);
    assert_eq!(parse_node_test("a:"), None);
}

#[test]
fn prefixes_are_listed_in_order_of_first_use() {
    let found = find_xpath_prefixes("/b:x/a:y[c:z='e:f']/b:w[d:v='e:g']");
    assert_eq!(found.structural, vec!["b", "a", "c", "d"]);
    assert_eq!(found.literal_only, vec!["e"]);
    assert!(found.contains("e") && found.contains("a") && !found.contains("f"));
}

#[test]
fn literal_with_anything_around_the_qname_is_data() {
    for expr in ["x = ' mc:aes'", "x = 'mc:aes '", "x = 'mc:*'", "x = 'mc: aes'"] {
        assert_prefixes(expr, HashSet::new());
    }
}

#[test]
fn prefix_that_qualifies_a_name_is_not_literal_only() {
    for expr in ["/if:a[b='if:c']", "b = 'if:c' and if:a"] {
        let found = find_xpath_prefixes(expr);
        assert_eq!(found.structural, vec!["if"]);
        assert!(found.literal_only.is_empty());
    }
}

#[test]
fn strip_leaves_an_unbalanced_path_alone() {
    for path in ["/a[b]]", "/a'[b]", "/a]", "/a[b][c"] {
        assert_eq!(strip_xpath_predicates(path), path);
    }
}

#[test]
fn strip_is_idempotent() {
    for path in ["/a[b]/c", "/a[b='[']/c[1]", "/a", "/a[b"] {
        let once = strip_xpath_predicates(path);
        assert_eq!(strip_xpath_predicates(&once), once);
    }
}

#[test]
fn diff_reassembles_to_both_paths() {
    for (a, b) in [("/a/b", "/a/c/b"), ("", "x"), ("aa", "aaa"), ("é/x", "é/y")] {
        let (at, ours, theirs) = xpath_diff(a, b);
        let prefix: String = a.chars().take(at).collect();
        assert!(a.starts_with(&prefix) && b.starts_with(&prefix));
        let tail_a: String = a.chars().skip(at + ours.chars().count()).collect();
        let tail_b: String = b.chars().skip(at + theirs.chars().count()).collect();
        assert_eq!(tail_a, tail_b);
        assert_eq!(format!("{prefix}{ours}{tail_a}"), a);
        assert_eq!(format!("{prefix}{theirs}{tail_b}"), b);
    }
}
