use dsh_desktop::dsh::MIN_DSH_VERSION;
use dsh_desktop::version::{compare_versions, range_check, range_satisfied, version_at_least, version_cmp, Order};
use std::cmp::Ordering;

#[test]
fn cmp_equal_versions() {
    assert_eq!(version_cmp("1.2.3", "1.2.3"), Ordering::Equal);
}

#[test]
fn cmp_numeric_fields_by_value() {
    assert_eq!(version_cmp("1.2.10", "1.2.9"), Ordering::Greater);
    assert_eq!(version_cmp("1.9.0", "1.10.0"), Ordering::Less);
}

#[test]
fn cmp_missing_fields_are_zero() {
    assert_eq!(version_cmp("1.0", "1.0.0"), Ordering::Equal);
    assert_eq!(version_cmp("1", "1.0.1"), Ordering::Less);
}

#[test]
fn cmp_non_numeric_core_field_is_zero() {
    assert_eq!(version_cmp("x.1", "0.1"), Ordering::Equal);
    assert_eq!(version_cmp("+1.0", "1.0"), Ordering::Equal);
}

#[test]
fn cmp_prerelease_before_release() {
    assert_eq!(version_cmp("1.0.0-rc.1", "1.0.0"), Ordering::Less);
    assert_eq!(version_cmp("1.0.0", "1.0.0-rc.1"), Ordering::Greater);
}

#[test]
fn cmp_prerelease_numeric_identifiers_by_value() {
    assert_eq!(version_cmp("0.1.0-rc.6", "0.1.0-rc.10"), Ordering::Less);
}

#[test]
fn cmp_prerelease_text_identifiers() {
    assert_eq!(version_cmp("0.1.0-rc.6", "0.1.0-beta.9"), Ordering::Greater);
    assert_eq!(version_cmp("1.0.0-1", "1.0.0-alpha"), Ordering::Less);
}

#[test]
fn cmp_shorter_prerelease_first() {
    assert_eq!(version_cmp("1.0.0-rc", "1.0.0-rc.1"), Ordering::Less);
}

#[test]
fn cmp_numerically_equal_identifiers_stop_the_comparison() {
    // "01" and "1" are different texts of the same number: Equal, and the
    // remaining identifiers are not looked at.
    assert_eq!(version_cmp("1.0.0-01.5", "1.0.0-1.3"), Ordering::Equal);
}

#[test]
fn cmp_only_first_dash_splits() {
    assert_eq!(version_cmp("1.0.0-a-b", "1.0.0-a-c"), Ordering::Less);
}

#[test]
fn law_reflexive_examples() {
    for v in ["", "1", "0.1.0-rc.6", "1.0.0-01.5", "abc-def.01"] {
        assert_eq!(version_cmp(v, v), Ordering::Equal);
        assert!(version_at_least(v, v));
    }
}

#[test]
fn law_antisymmetric_examples() {
    let vs = ["1.0.0", "1.0.0-rc.1", "1.0.0-rc.10", "0.9", "1.0.0-alpha", "1.0.0-1", "2"];
    for a in vs {
        for b in vs {
            assert_eq!(version_cmp(a, b), version_cmp(b, a).reverse());
        }
    }
}

#[test]
fn compare_versions_matches_version_cmp() {
    assert_eq!(compare_versions("1.0.0", "2.0.0"), Order::Less);
    assert_eq!(compare_versions("2.0.0", "1.0.0"), Order::Greater);
    assert_eq!(compare_versions("2.0", "2"), Order::Equal);
}

#[test]
fn at_least_against_minimum() {
    assert!(version_at_least("0.1.0-rc.7", MIN_DSH_VERSION));
    assert!(version_at_least("0.1.0-rc.6", MIN_DSH_VERSION));
    assert!(!version_at_least("0.1.0-rc.5", MIN_DSH_VERSION));
    assert!(version_at_least("0.1.0", MIN_DSH_VERSION));
    assert!(!version_at_least("", MIN_DSH_VERSION));
}

#[test]
fn range_caret_major() {
    assert!(range_satisfied("1.2.3", "^1.0.0"));
    assert!(!range_satisfied("2.0.0", "^1.0.0"));
    assert!(!range_satisfied("2.0.0-rc.1", "^1.0.0"));
    assert!(!range_satisfied("0.9.0", "^1.0.0"));
}

#[test]
fn range_caret_minor_and_patch() {
    assert!(range_satisfied("0.2.5", "^0.2.0"));
    assert!(!range_satisfied("0.3.0", "^0.2.0"));
    assert!(range_satisfied("0.0.3", "^0.0.3"));
    assert!(!range_satisfied("0.0.4", "^0.0.3"));
}

#[test]
fn range_caret_admits_prerelease_of_base() {
    assert!(range_satisfied("0.1.0-rc.7", "^0.1.0-rc.6"));
    assert!(!range_satisfied("0.1.0-rc.5", "^0.1.0-rc.6"));
}

#[test]
fn range_tilde() {
    assert!(range_satisfied("1.2.9", "~1.2.0"));
    assert!(!range_satisfied("1.3.0", "~1.2.0"));
}

#[test]
fn range_comparators() {
    assert!(range_satisfied("1.5.0", ">=1.0.0 <2.0.0"));
    assert!(!range_satisfied("2.0.0", ">=1.0.0 <2.0.0"));
    assert!(range_satisfied("2.0.0", "<=2.0.0"));
    assert!(!range_satisfied("2.0.0", ">2.0.0"));
    assert!(range_satisfied("2.0.1", ">2.0.0"));
}

#[test]
fn range_equality_forms() {
    assert!(range_satisfied("1.0.0", "=1.0.0"));
    assert!(range_satisfied("1.0.0", "1.0.0"));
    assert!(!range_satisfied("1.0.1", "1.0.0"));
}

#[test]
fn range_empty_admits_everything() {
    assert!(range_satisfied("1.0.0", ""));
    assert!(range_satisfied("anything", "   \t "));
}

#[test]
fn range_whitespace_separates_tokens() {
    assert!(range_satisfied("1.5.0", "  >=1.0.0\t<2.0.0\n"));
}

#[test]
fn law_at_least_range_examples() {
    for (v, m) in [("1.0.0", "1.0.0"), ("0.9", "1.0.0"), ("1.0.0-rc.1", "1.0.0"), ("2", "1.9.9")] {
        let range = format!(">={m}");
        assert_eq!(range_satisfied(v, &range), version_at_least(v, m));
    }
}

#[test]
fn law_caret_admits_base_examples() {
    for v in ["1.2.3", "0.2.0", "0.0.3", "0.1.0-rc.6", "0"] {
        let range = format!("^{v}");
        assert!(range_satisfied(v, &range));
    }
}

#[test]
fn range_check_reports_overflowing_bound() {
    assert_eq!(range_check("1.0.0", "^18446744073709551615.0.0"), None);
    assert_eq!(range_check("1.0.0", "~1.18446744073709551615"), None);
    assert_eq!(range_check("1.0.0", "^0.0.18446744073709551615"), None);
}

#[test]
fn range_check_stops_at_first_failing_token() {
    assert_eq!(range_check("1.0.0", "<0.1.0 ^18446744073709551615"), Some(false));
    assert_eq!(range_check("1.0.0", ">=0.1.0 ^18446744073709551615"), None);
    assert_eq!(range_check("1.0.0", ">=0.1.0"), Some(true));
}

#[test]
fn law_range_conjunction_examples() {
    let vs = ["0.9.0", "1.0.0", "1.5.0", "2.0.0", "2.0.0-rc.1"];
    let parts = [">=1.0.0", "<2.0.0", "^1.2.0", "~1.5.0", "", "1.5.0", "^18446744073709551615"];
    for v in vs {
        for a in parts {
            for b in parts {
                let joined = format!("{a} {b}");
                let expected = match range_check(v, a) {
                    Some(true) => range_check(v, b),
                    other => other,
                };
                assert_eq!(range_check(v, &joined), expected);
            }
        }
    }
}

#[test]
fn range_star_admits_every_version() {
    assert!(range_satisfied("1.0.0", "*"));
    assert!(range_satisfied("0.0.0-alpha", "*"));
    assert!(range_satisfied("3.4.5", "x"));
    assert!(range_satisfied("3.4.5", ">=*"));
    assert!(!range_satisfied("3.4.5", ">*"));
    assert!(!range_satisfied("3.4.5", "<*"));
}

#[test]
fn range_union_of_alternatives() {
    assert!(range_satisfied("2.1.0", "^1.0.0 || ^2.0.0"));
    assert!(range_satisfied("1.4.0", "^1.0.0 || ^2.0.0"));
    assert!(!range_satisfied("3.0.0", "^1.0.0 || ^2.0.0"));
    assert!(range_satisfied("0.5.0", "<0.6.0||>=9.0.0"));
    assert!(range_satisfied("7.0.0", "1.0.0 ||"));
    assert_eq!(range_check("1.0.0", "^1.0.0 || ^18446744073709551615.0.0"), Some(true));
    assert_eq!(range_check("3.0.0", "^18446744073709551615.0.0 || ^3.0.0"), None);
}

#[test]
fn range_x_wildcards() {
    assert!(range_satisfied("1.9.9", "1.x"));
    assert!(!range_satisfied("2.0.0", "1.x"));
    assert!(!range_satisfied("0.9.0", "1.*"));
    assert!(range_satisfied("1.2.7", "1.2.X"));
    assert!(!range_satisfied("1.3.0", "1.2.x"));
    assert!(range_satisfied("2.0.0", ">1.x"));
    assert!(!range_satisfied("1.9.0", ">1.x"));
    assert!(range_satisfied("1.9.0", "<=1.x"));
    assert!(!range_satisfied("2.0.0-0", "<=1.x"));
    assert!(range_satisfied("0.9.0", "<1.x"));
    assert!(!range_satisfied("1.0.0", "<1.x"));
    assert!(range_satisfied("1.5.0", ">=1.x"));
    assert!(range_satisfied("1.8.0", "~1.x"));
    assert!(range_satisfied("1.8.0", "^1.2.x"));
    assert!(!range_satisfied("2.0.0", "^1.2.x"));
    assert!(range_satisfied("0.1.9", "^0.1.x"));
    assert!(!range_satisfied("0.2.0", "^0.1.x"));
    assert!(!range_satisfied("1.3.0", "~1.2.x"));
}

#[test]
fn law_comparator_ranges_examples() {
    for v in ["0.9.0", "1.0.0", "1.0.0-rc.1", "1.0.1", "2.0.0"] {
        let w = "1.0.0";
        let c = version_cmp(v, w);
        assert_eq!(range_satisfied(v, &format!(">={w}")), c != Ordering::Less);
        assert_eq!(range_satisfied(v, &format!("<={w}")), c != Ordering::Greater);
        assert_eq!(range_satisfied(v, &format!(">{w}")), c == Ordering::Greater);
        assert_eq!(range_satisfied(v, &format!("<{w}")), c == Ordering::Less);
        assert_eq!(range_satisfied(v, &format!("={w}")), c == Ordering::Equal);
        assert_eq!(range_satisfied(v, w), c == Ordering::Equal);
    }
}

#[test]
fn law_range_union_examples() {
    for v in ["0.5.0", "1.5.0", "2.5.0"] {
        for a in ["^1.0.0", ">=2.0.0", ""] {
            for b in ["^0.5.0", "<0.1.0"] {
                let joined = format!("{a}||{b}");
                let expected = match range_check(v, a) {
                    Some(false) => range_check(v, b),
                    other => other,
                };
                assert_eq!(range_check(v, &joined), expected);
            }
        }
    }
}
