use ray_rs::config::{parse_u32, Config};

fn args(list: &[&str]) -> Vec<String> {
    list.iter().map(|s| s.to_string()).collect()
}

#[test]
fn config_ok_test() {
    let a = args(&["ray", "scene.ray", "out.png", "640", "480"]);
    let c = Config::new(&a).unwrap();
    assert_eq!(c.ray_filename, "scene.ray");
    assert_eq!(c.output_filename, "out.png");
    assert_eq!(c.output_dimensions, (640, 480));
}

#[test]
fn config_not_enough_arguments_test() {
    let a = args(&["ray", "scene.ray"]);
    let err = Config::new(&a).unwrap_err();
    assert_eq!(err, "not enough arguements");
}

#[test]
fn config_bad_dimensions_test() {
    let a = args(&["ray", "scene.ray", "out.png", "wide", "480"]);
    assert!(Config::new(&a).is_err());
    let b = args(&["ray", "scene.ray", "out.png", "640", ""]);
    assert!(Config::new(&b).is_err());
}

#[test]
fn parse_u32_test() {
    assert_eq!(parse_u32("0"), Some(0));
    assert_eq!(parse_u32("4294967295"), Some(u32::MAX));
    assert_eq!(parse_u32("4294967296"), None);
    assert_eq!(parse_u32(""), None);
    assert_eq!(parse_u32("12a"), None);
}
