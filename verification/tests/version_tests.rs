use kakaotalk_adblock::version::{
    check_latest_version, has_new_release, newer_components, parse_version,
};

#[test]
fn test_has_new_release() {
    assert!(has_new_release("2.2.3", "2.2.4"));
    assert!(has_new_release("2.2.3", "2.3.0"));
    assert!(has_new_release("2.2.3", "3.0.0"));
    assert!(!has_new_release("2.2.3", "2.2.3"));
    assert!(!has_new_release("2.2.3", "2.2.2"));
    assert!(!has_new_release("2.2.3", "2.1.0"));
    assert!(has_new_release("2.2.3", "v2.2.4"));
}

#[test]
fn parse_version_reads_dotted_integers() {
    assert_eq!(parse_version("2.2.3"), vec![2, 2, 3]);
    assert_eq!(parse_version("10.0.19045"), vec![10, 0, 19045]);
    assert_eq!(parse_version("7"), vec![7]);
    assert_eq!(parse_version("007.010"), vec![7, 10]);
}

#[test]
fn parse_version_strips_what_precedes_the_first_digit() {
    assert_eq!(parse_version("v2.2.4"), vec![2, 2, 4]);
    assert_eq!(parse_version("vv1.0"), vec![1, 0]);
    assert_eq!(parse_version("release-3.1"), vec![3, 1]);
    assert_eq!(parse_version("V1.2"), vec![1, 2]);
}

#[test]
fn parse_version_passes_over_pieces_that_are_no_numbers() {
    assert_eq!(parse_version(""), Vec::<u32>::new());
    assert_eq!(parse_version("v"), Vec::<u32>::new());
    assert_eq!(parse_version("dev"), Vec::<u32>::new());
    assert_eq!(parse_version("1..2"), vec![1, 2]);
    assert_eq!(parse_version("1.x.3"), vec![1, 3]);
    assert_eq!(parse_version("1.2-beta.3"), vec![1, 3]);
    assert_eq!(parse_version("1.2."), vec![1, 2]);
    assert_eq!(parse_version("1.+2"), vec![1, 2]);
    assert_eq!(parse_version("1.+"), vec![1]);
    assert_eq!(parse_version("1.-2"), vec![1]);
    assert_eq!(parse_version("1. 2"), vec![1]);
}

#[test]
fn parse_version_keeps_numbers_that_fit_in_32_bits_only() {
    assert_eq!(parse_version("4294967295.1"), vec![4294967295, 1]);
    assert_eq!(parse_version("4294967296.1"), vec![1]);
    assert_eq!(parse_version("99999999999999999999999999.5"), vec![5]);
    assert_eq!(parse_version("0000000000000000000000042"), vec![42]);
}

#[test]
fn missing_components_count_as_zero() {
    assert!(!has_new_release("2.2", "2.2.0"));
    assert!(!has_new_release("2.2.0", "2.2"));
    assert!(has_new_release("2.2", "2.2.1"));
    assert!(!has_new_release("2.2.1", "2.2"));
    assert!(has_new_release("", "0.0.1"));
    assert!(!has_new_release("", ""));
    assert!(!has_new_release("dev", "v"));
}

#[test]
fn first_difference_decides() {
    assert!(has_new_release("1.9.9", "2.0.0"));
    assert!(!has_new_release("2.0.0", "1.9.9"));
    assert!(has_new_release("20240101.1", "20240101.2"));
    assert!(has_new_release("20240101.9", "20240102.1"));
    assert!(newer_components(&vec![1, 2, 3], &vec![1, 3]));
    assert!(!newer_components(&vec![1, 3], &vec![1, 2, 3]));
    assert!(!newer_components(&vec![], &vec![0, 0]));
    assert!(newer_components(&vec![], &vec![0, 1]));
}

#[test]
fn no_version_is_newer_than_itself_and_newer_is_one_way() {
    let versions = ["1.0", "1.0.0", "v1.0.1", "2", "0.9.9", "", "1.10", "1.9"];
    for a in versions {
        assert!(!has_new_release(a, a));
        for b in versions {
            assert!(!(has_new_release(a, b) && has_new_release(b, a)));
        }
    }
}

#[test]
fn check_latest_version_reports_the_fetched_tag() {
    assert_eq!(
        check_latest_version("2.2.3", Some(String::from("v2.2.4"))),
        (String::from("v2.2.4"), true)
    );
    assert_eq!(
        check_latest_version("2.2.3", Some(String::from("2.2.3"))),
        (String::from("2.2.3"), false)
    );
    assert_eq!(
        check_latest_version("2.2.3", Some(String::from("2.0.0"))),
        (String::from("2.0.0"), false)
    );
}

#[test]
fn check_latest_version_falls_back_to_the_running_version() {
    assert_eq!(check_latest_version("2.2.3", None), (String::from("2.2.3"), false));
    assert_eq!(check_latest_version("dev", None), (String::from("dev"), false));
}
