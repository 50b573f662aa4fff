use nanogame3d::misc::{Color32, Rectangle};
use nanogame3d::parse_utils::{get_prop_str, parse_bool, parse_color32, parse_i32, parse_prop, parse_prop_modelindex, parse_u32, parse_u8, split_whitespace, PropMap};

#[test]
fn color32_parses_four_channels() {
    assert_eq!(parse_color32("255 0 10 128"), Ok(Color32::new(255, 0, 10, 128)));
    assert_eq!(parse_color32("  1\t2 3   4 "), Ok(Color32::new(1, 2, 3, 4)));
    assert_eq!(parse_color32("256 0 0 0"), Err(()));
    assert_eq!(parse_color32("1 2 3"), Err(()));
    assert_eq!(parse_color32("1 2 3 4 5"), Err(()));
    assert_eq!(parse_color32("1 2 x 4"), Err(()));
    assert_eq!(parse_color32("-1 2 3 4"), Err(()));
}

#[test]
fn numbers_parse_like_std() {
    assert_eq!(parse_i32("-2147483648"), Some(i32::MIN));
    assert_eq!(parse_i32("2147483648"), None);
    assert_eq!(parse_i32("+12"), Some(12));
    assert_eq!(parse_i32("-"), None);
    assert_eq!(parse_i32(""), None);
    assert_eq!(parse_u8("255"), Some(255));
    assert_eq!(parse_u8("256"), None);
    assert_eq!(parse_u32("4294967295"), Some(u32::MAX));
    assert_eq!(parse_bool("true"), Some(true));
    assert_eq!(parse_bool("false"), Some(false));
    assert_eq!(parse_bool("TRUE"), None);
}

#[test]
fn whitespace_splitting() {
    let parts = split_whitespace(" a  bc\td ");
    let texts: Vec<String> = parts.iter().map(|p| p.iter().collect()).collect();
    assert_eq!(texts, vec!["a", "bc", "d"]);
}

fn props() -> PropMap {
    let mut m = PropMap::new();
    m.insert("classname".to_string(), "func_door".to_string());
    m.insert("model".to_string(), "*3".to_string());
    m.insert("speed".to_string(), "100".to_string());
    m.insert("auto".to_string(), "true".to_string());
    m.insert("speed".to_string(), "150".to_string());
    m
}

#[test]
fn props_lookup_with_defaults() {
    let m = props();
    assert_eq!(get_prop_str(&m, "classname", "none"), "func_door");
    assert_eq!(get_prop_str(&m, "target", "none"), "none");
    assert_eq!(parse_prop(&m, "speed", 0i32), 150);
    assert_eq!(parse_prop(&m, "lip", 8i32), 8);
    assert_eq!(parse_prop(&m, "auto", false), true);
    assert_eq!(parse_prop(&m, "speed", 0u32), 150);
    assert_eq!(parse_prop(&m, "classname", String::new()), "func_door");
    assert_eq!(parse_prop_modelindex(&m, "model", 0), 2);
    assert_eq!(parse_prop_modelindex(&m, "other", 9), 9);
    assert_eq!(m.get("speed").unwrap(), "150");
    assert!(m.get("nothing").is_none());
}

#[test]
fn rectangle_and_color_constructors() {
    let r = Rectangle::new(1, 2, 3, 4);
    assert_eq!((r.x, r.y, r.w, r.h), (1, 2, 3, 4));
    let c = Color32::new(9, 8, 7, 6);
    assert_eq!((c.r, c.g, c.b, c.a), (9, 8, 7, 6));
}
