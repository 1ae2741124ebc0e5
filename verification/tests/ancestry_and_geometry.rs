//! The process-record parsers behind terminal-ancestry resolution, and the
//! rectangle queries.

use leftwm_core::ancestry::{comm_matches_shell, parse_stat_ppid, shell_basename};
use leftwm_core::geometry::Xyhw;

#[test]
fn the_ppid_is_the_fourth_field_of_a_stat_record() {
    let stat = b"1234 (cat) R 5678 1234 1234".to_vec();
    assert_eq!(parse_stat_ppid(&stat), Some(5678));
}

#[test]
fn a_stat_record_with_too_few_fields_yields_none() {
    assert_eq!(parse_stat_ppid(&b"1234 (cat) R".to_vec()), None);
    assert_eq!(parse_stat_ppid(&b"".to_vec()), None);
}

#[test]
fn a_non_numeric_ppid_field_yields_none() {
    assert_eq!(parse_stat_ppid(&b"1234 (cat) R x678 1".to_vec()), None);
    assert_eq!(parse_stat_ppid(&b"1234 (cat) R  5678".to_vec()), None);
}

#[test]
fn an_overlong_ppid_numeral_yields_none() {
    assert_eq!(parse_stat_ppid(&b"1 (c) R 99999999999999999999 1".to_vec()), None);
}

#[test]
fn a_comm_record_matches_its_shell_up_to_the_newline() {
    assert!(comm_matches_shell(&b"zsh\n".to_vec(), &b"zsh".to_vec()));
    assert!(comm_matches_shell(&b"bash\n".to_vec(), &b"bash".to_vec()));
    assert!(!comm_matches_shell(&b"zsh".to_vec(), &b"zsh".to_vec()));
    assert!(!comm_matches_shell(&b"zsh\n".to_vec(), &b"bash".to_vec()));
    assert!(!comm_matches_shell(&b"".to_vec(), &b"zsh".to_vec()));
}

#[test]
fn the_shell_basename_is_the_last_path_segment() {
    assert_eq!(shell_basename(&b"/bin/zsh".to_vec()), b"zsh".to_vec());
    assert_eq!(shell_basename(&b"zsh".to_vec()), b"zsh".to_vec());
    assert_eq!(shell_basename(&b"/usr/local/bin/fish".to_vec()), b"fish".to_vec());
    assert_eq!(shell_basename(&b"/bin/".to_vec()), Vec::<u8>::new());
}

#[test]
fn containment_is_inclusive_of_the_edges() {
    let r = Xyhw::new(0, 0, 800, 600);
    assert!(r.contains_point(0, 0));
    assert!(r.contains_point(800, 600));
    assert!(!r.contains_point(801, 0));
    assert!(!r.contains_point(-1, 0));

    assert!(r.contains_xyhw(&Xyhw::new(0, 0, 800, 600)));
    assert!(r.contains_xyhw(&Xyhw::new(10, 10, 100, 100)));
    assert!(!r.contains_xyhw(&Xyhw::new(750, 10, 100, 100)));
}

#[test]
fn the_center_and_the_half_centered_rect_are_exact() {
    let r = Xyhw::new(0, 0, 800, 600);
    assert_eq!(r.center(), (400, 300));
    assert_eq!(r.center_halfed(), Xyhw::new(200, 150, 400, 300));

    let odd = Xyhw::new(1, 1, 7, 7);
    assert_eq!(odd.center(), (4, 4));
}

#[test]
fn centering_relative_honors_the_border() {
    let mut r = Xyhw::new(0, 0, 100, 100);
    r.center_relative(Xyhw::new(0, 0, 800, 600), 1);
    assert_eq!(r, Xyhw::new(349, 249, 100, 100));
}
