use std::path::PathBuf;

use petal::config::PetalConfig;

#[test]
fn the_output_file_defaults_to_a_out() {
    let c = PetalConfig::new(PathBuf::from("main.lt"), None, false);
    assert_eq!(c.src, PathBuf::from("main.lt"));
    assert_eq!(c.output_file_name, "a.out");
    assert!(!c.debug_mode);
}

#[test]
fn a_given_output_file_is_kept() {
    let c = PetalConfig::new(PathBuf::from("x.lt"), Some("out.s".to_string()), true);
    assert_eq!(c.output_file_name, "out.s");
    assert!(c.debug_mode);
}
