use nanogame3d::cvar::{int_text, cvar_value, define_cvar, f32_bits_to_i32, get_cvar, print_cvars, set_cvar, CVarError, CVarKind, CVarRegistry, CVarValue};

fn registry() -> CVarRegistry {
    let mut reg = CVarRegistry::new();
    define_cvar(&mut reg, "r_wireframe", CVarValue::from(false), "Draw wireframe");
    define_cvar(&mut reg, "r_fov", CVarValue::from(90), "Field of view");
    define_cvar(&mut reg, "g_gravity", CVarValue::Float(800.0f32.to_bits()), "Gravity");
    define_cvar(&mut reg, "sv_name", CVarValue::from("host".to_string()), "Server name");
    reg
}

#[test]
fn cvar_defaults_are_read_back() {
    let reg = registry();
    assert_eq!(get_cvar::<bool>(&reg, "r_wireframe"), false);
    assert_eq!(get_cvar::<i32>(&reg, "r_fov"), 90);
    assert_eq!(get_cvar::<i32>(&reg, "r_wireframe"), 0);
    assert_eq!(get_cvar::<bool>(&reg, "r_fov"), true);
    assert_eq!(get_cvar::<i32>(&reg, "g_gravity"), 800);
    assert_eq!(get_cvar::<bool>(&reg, "g_gravity"), true);
}

#[test]
fn cvar_set_then_get() {
    let mut reg = registry();
    assert_eq!(set_cvar(&mut reg, "r_wireframe", "true", None), Ok(()));
    assert_eq!(get_cvar::<bool>(&reg, "r_wireframe"), true);
    assert_eq!(set_cvar(&mut reg, "r_fov", "-110", None), Ok(()));
    assert_eq!(get_cvar::<i32>(&reg, "r_fov"), -110);
    assert_eq!(set_cvar(&mut reg, "g_gravity", "2.5", Some(2.5f32.to_bits())), Ok(()));
    assert_eq!(get_cvar::<i32>(&reg, "g_gravity"), 2);
    assert_eq!(set_cvar(&mut reg, "sv_name", "my server", None), Ok(()));
}

#[test]
fn cvar_set_errors() {
    let mut reg = registry();
    assert_eq!(set_cvar(&mut reg, "nope", "1", None), Err(CVarError::Unknown));
    assert_eq!(set_cvar(&mut reg, "r_wireframe", "yes", None), Err(CVarError::InvalidValue));
    assert_eq!(set_cvar(&mut reg, "r_wireframe", "True", None), Err(CVarError::InvalidValue));
    assert_eq!(set_cvar(&mut reg, "r_fov", "3000000000", None), Err(CVarError::InvalidValue));
    assert_eq!(set_cvar(&mut reg, "g_gravity", "fast", None), Err(CVarError::InvalidValue));
    assert_eq!(get_cvar::<bool>(&reg, "r_wireframe"), false);
    assert_eq!(get_cvar::<i32>(&reg, "r_fov"), 90);
}

#[test]
fn cvar_redefine_replaces() {
    let mut reg = registry();
    set_cvar(&mut reg, "r_fov", "70", None).unwrap();
    define_cvar(&mut reg, "r_fov", CVarValue::from(60), "Field of view");
    assert_eq!(get_cvar::<i32>(&reg, "r_fov"), 60);
    assert_eq!(print_cvars(&reg).len(), 4);
}

#[test]
fn cvar_list_names_types_and_help() {
    let reg = registry();
    let list = print_cvars(&reg);
    assert_eq!(list.len(), 4);
    let fov = list.iter().find(|c| c.name == "r_fov").unwrap();
    assert_eq!(fov.kind, CVarKind::Int);
    assert_eq!(fov.kind.name(), "int");
    assert_eq!(fov.help, "Field of view");
    let g = list.iter().find(|c| c.name == "g_gravity").unwrap();
    assert_eq!(g.kind.name(), "float");
    let n = list.iter().find(|c| c.name == "sv_name").unwrap();
    assert_eq!(n.kind.name(), "string");
    let w = list.iter().find(|c| c.name == "r_wireframe").unwrap();
    assert_eq!(w.kind.name(), "bool");
}

#[test]
fn float_bits_truncate_like_casts() {
    for v in [0.0f32, -0.0, 0.5, -0.5, 1.0, -1.0, 2.75, -2.75, 123456.9, -8388607.5, 16777216.0,
              2147483520.0, 2147483648.0, -2147483648.0, -2147483904.0, 1e20, -1e20,
              f32::INFINITY, f32::NEG_INFINITY, f32::NAN, f32::MIN_POSITIVE, 1e-40] {
        assert_eq!(f32_bits_to_i32(v.to_bits()), v as i32, "value {}", v);
    }
}

#[test]
fn cvar_value_in_effect() {
    let mut reg = registry();
    assert!(matches!(cvar_value(&reg, "r_fov"), Some(CVarValue::Int(90))));
    set_cvar(&mut reg, "r_fov", "75", None).unwrap();
    assert!(matches!(cvar_value(&reg, "r_fov"), Some(CVarValue::Int(75))));
    assert!(cvar_value(&reg, "none").is_none());
    match cvar_value(&reg, "sv_name") {
        Some(CVarValue::String(s)) => assert_eq!(s, "host"),
        _ => panic!("expected a string"),
    }
}

#[test]
fn cvar_values_as_text() {
    assert_eq!(CVarValue::Bool(true).text(), Some(String::from("true")));
    assert_eq!(CVarValue::Bool(false).text(), Some(String::from("false")));
    assert_eq!(CVarValue::Int(-305).text(), Some(String::from("-305")));
    assert_eq!(CVarValue::String(String::from("q2dm1")).text(), Some(String::from("q2dm1")));
    assert_eq!(CVarValue::Float(1.5f32.to_bits()).text(), None);
    for i in [0, 7, 10, 99, 100, 2024, -1, -10, i32::MAX, i32::MIN] {
        assert_eq!(int_text(i), i.to_string());
    }
}
