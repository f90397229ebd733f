use raytracer::json::parse_json;
use raytracer::settings::{lexeme_to_u32, light_type_of, parse_light_type, read_output, LightType};

#[test]
fn output_defaults() {
    let doc = parse_json("{}").unwrap();
    let out = read_output(&doc).unwrap();
    assert_eq!(out.filename, "render.tga");
    assert_eq!(out.width, 1920);
    assert_eq!(out.height, 1080);
    assert_eq!(out.samples, 1);
}

#[test]
fn output_fields_read() {
    let doc = parse_json(
        "{\"file\": \"out.tga\", \"width\": 640, \"height\": 480.7, \"samples\": 4, \"other\": 9}",
    )
    .unwrap();
    let out = read_output(&doc).unwrap();
    assert_eq!(out.filename, "out.tga");
    assert_eq!(out.width, 640);
    assert_eq!(out.height, 480);
    assert_eq!(out.samples, 4);
}

#[test]
fn output_last_field_wins_and_wrong_kinds_ignored() {
    let doc = parse_json("{\"width\": 10, \"width\": 20, \"height\": \"tall\", \"file\": 3}").unwrap();
    let out = read_output(&doc).unwrap();
    assert_eq!(out.width, 20);
    assert_eq!(out.height, 1080);
    assert_eq!(out.filename, "render.tga");
}

#[test]
fn output_needs_object() {
    let doc = parse_json("{\"o\": [1]}").unwrap();
    if let raytracer::json::JsonValue::Object(fields) = doc {
        assert!(read_output(&fields[0].1).is_none());
    } else {
        panic!("not an object");
    }
}

#[test]
fn lexeme_counts() {
    assert_eq!(lexeme_to_u32(&String::from("1920")), 1920);
    assert_eq!(lexeme_to_u32(&String::from("+7")), 7);
    assert_eq!(lexeme_to_u32(&String::from("12.9")), 12);
    assert_eq!(lexeme_to_u32(&String::from("-5")), 0);
    assert_eq!(lexeme_to_u32(&String::from("-0.5")), 0);
    assert_eq!(lexeme_to_u32(&String::from("4294967295")), u32::MAX);
    assert_eq!(lexeme_to_u32(&String::from("99999999999")), u32::MAX);
    assert_eq!(lexeme_to_u32(&String::from("0")), 0);
}

#[test]
fn light_types_by_name() {
    assert_eq!(parse_light_type("point"), Some(LightType::Point));
    assert_eq!(parse_light_type(" Point \n"), Some(LightType::Point));
    assert_eq!(parse_light_type("SPHERE"), Some(LightType::Sphere));
    assert_eq!(parse_light_type("\u{3000}sPhErE\u{85}"), Some(LightType::Sphere));
    assert_eq!(parse_light_type("spot"), None);
    assert_eq!(parse_light_type(""), None);
}

#[test]
fn light_type_of_lowered_name() {
    assert_eq!(light_type_of(&String::from("sphere")), Some(LightType::Sphere));
    assert_eq!(light_type_of(&String::from("Sphere")), None);
}
