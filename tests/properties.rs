use string_manipulation_utf8::range::{
    calc_start_end, calc_start_end_exclusive, calc_to_end, calc_unsigned, clamp_position,
};
use string_manipulation_utf8::CharString;
use string_manipulation_utf8::{
    indexof, str_concat, str_remove, substr, substr_end, substring, substru,
};

const DIGITS: &str = "0123456789";
const ACCENTED: &str = "Test 123 éèçà 123 test home";

#[test]
fn substr_length_matches_resolved_range() {
    for start in -12isize..12 {
        for length in -12isize..12 {
            let (a, b) = calc_start_end(10, start, length);
            let r = substr(DIGITS, start, length);
            assert_eq!(r.chars().count(), b - a);
            assert!(r.chars().count() <= 10);
        }
    }
}

#[test]
fn substr_negative_length_ends_at_start() {
    assert_eq!(substr(DIGITS, 5, -3), "345");
    assert_eq!(substr(DIGITS, 5, -3), substr(DIGITS, 3, 3));
    assert_eq!(substr(DIGITS, 1, -5), substr(DIGITS, 0, 2));
}

#[test]
fn substr_negative_start_counts_from_end() {
    for k in 1isize..=10 {
        for length in -3isize..4 {
            assert_eq!(substr(DIGITS, -k, length), substr(DIGITS, 10 - k, length));
        }
    }
}

#[test]
fn substring_order_and_equal_positions() {
    for a in -3isize..13 {
        for b in -3isize..13 {
            assert_eq!(substring(DIGITS, a, b), substring(DIGITS, b, a));
        }
        assert_eq!(substring(DIGITS, a, a), "");
    }
    assert_eq!(substring(DIGITS, isize::MIN, isize::MIN), "");
}

#[test]
fn substring_bounds_below_zero_select_nothing() {
    assert_eq!(substring(DIGITS, -5, -2), "");
    assert_eq!(substring(DIGITS, 12, 15), "");
}

#[test]
fn substr_whole_string() {
    assert_eq!(substr(DIGITS, 0, 10), DIGITS);
    assert_eq!(substr(DIGITS, 0, isize::MAX), DIGITS);
    assert_eq!(substr(ACCENTED, 0, 27), ACCENTED);
    assert_eq!(substr("", 0, 5), "");
}

#[test]
fn out_of_range_requests_are_empty() {
    assert_eq!(substr(DIGITS, -100, 100), "");
    assert_eq!(substr(DIGITS, 100, 1), "");
    assert_eq!(substru(DIGITS, usize::MAX, 1), "");
    assert_eq!(substru(DIGITS, usize::MAX, usize::MAX), "");
    assert_eq!(substr_end(DIGITS, 11), "");
    assert_eq!(substr_end(DIGITS, -11), "");
}

#[test]
fn remove_nothing_or_past_end() {
    for start in 0usize..15 {
        assert_eq!(str_remove(DIGITS, start, 0), DIGITS);
    }
    assert_eq!(str_remove(DIGITS, 10, 3), DIGITS);
    assert_eq!(str_remove(DIGITS, usize::MAX, usize::MAX), DIGITS);
    assert_eq!(str_remove("", 0, 1), "");
    assert_eq!(str_remove(DIGITS, 2, usize::MAX), "01");
}

#[test]
fn empty_pattern_never_found() {
    assert_eq!(indexof(DIGITS, "", 0), None);
    assert_eq!(indexof(DIGITS, "", 5), None);
    assert_eq!(indexof("", "", 0), None);
}

#[test]
fn indexof_pattern_longer_than_rest() {
    assert_eq!(indexof("éé", "éx", 0), None);
    assert_eq!(indexof("abcab", "abc", 1), None);
    assert_eq!(indexof("abcabc", "abc", 1), Some(3));
    assert_eq!(indexof("ab", "abc", 0), None);
    assert_eq!(indexof(DIGITS, "0", usize::MAX), None);
}

#[test]
fn results_are_whole_scalar_values() {
    let s = ACCENTED;
    assert_eq!(substr(s, 9, 4), "éèçà");
    assert_eq!(substr(s, 10, 2), "èç");
    assert_eq!(substring(s, 11, 13), "çà");
    assert_eq!(substr_end(s, -18), "éèçà 123 test home");
    assert_eq!(substru(s, 12, 1), "à");
    assert_eq!(str_remove(s, 10, 2), "Test 123 éà 123 test home");
    assert_eq!(str_remove(s, 9, 4).len(), s.len() - 8);
}

#[test]
fn documented_scenarios() {
    assert_eq!(substr(DIGITS, -2, 2), "89");
    assert_eq!(substr(DIGITS, 6, isize::MAX), "6789");
    assert_eq!(substr_end(DIGITS, 6), "6789");
    assert_eq!(str_remove(DIGITS, 3, 2), "01256789");
    assert_eq!(indexof(DIGITS, "234", 0), Some(2));
    assert_eq!(str_concat(&[DIGITS, " ", DIGITS]), "0123456789 0123456789");
    assert_eq!(DIGITS.substru(3, 2), "34");
    assert_eq!(DIGITS.to_owned().substru(3, 2), "34");
}

#[test]
fn concat_edge_cases() {
    assert_eq!(str_concat(&[]), "");
    assert_eq!(str_concat(&["", ""]), "");
    assert_eq!(str_concat(&["é", "è"]), "éè");
}

#[test]
fn resolvers_exact_values() {
    assert_eq!(calc_start_end(10, 5, -3), (3, 6));
    assert_eq!(calc_start_end(10, -5, isize::MIN), (0, 6));
    assert_eq!(calc_start_end(10, 2, isize::MAX), (2, 10));
    assert_eq!(calc_start_end(10, isize::MIN, isize::MAX), (0, 0));
    assert_eq!(calc_start_end(0, 0, 1), (0, 0));
    assert_eq!(calc_start_end_exclusive(10, isize::MAX, -4), (0, 10));
    assert_eq!(calc_to_end(10, -3), (7, 10));
    assert_eq!(calc_to_end(10, isize::MIN), (0, 0));
    assert_eq!(calc_unsigned(10, 8, usize::MAX), (8, 10));
    assert_eq!(calc_unsigned(10, 12, 1), (10, 10));
    assert_eq!(clamp_position(-7, 10), 0);
    assert_eq!(clamp_position(7, 10), 7);
    assert_eq!(clamp_position(70, 10), 10);
}
