use raytracer::json::{parse_json, JsonValue};
use raytracer::scene::{
    materials_error, read_materials, read_number_triplet, read_scene, read_settings, scene_error,
    settings_error, SceneError, Triplet,
};
use raytracer::settings::LightType;

fn triplet(x: &str, y: &str, z: &str) -> Triplet {
    Triplet { x: String::from(x), y: String::from(y), z: String::from(z) }
}

// The value written as `text`, read as the one field of a document.
fn value(text: &str) -> JsonValue {
    if let JsonValue::Object(fields) = parse_json(&format!("{{\"v\": {}}}", text)).unwrap() {
        return fields.into_iter().next().unwrap().1;
    }
    panic!("not an object");
}

#[test]
fn triplets() {
    let v = value("[1, 2.5, -3]");
    assert_eq!(read_number_triplet(&v), Some(triplet("1", "2.5", "-3")));
    let v = value("[1, \"x\", 3, 4]");
    assert_eq!(read_number_triplet(&v), Some(triplet("1", "0", "3")));
    let v = value("7");
    assert_eq!(read_number_triplet(&v), None);
}

#[test]
fn materials_need_id() {
    let v = value("[{\"id\": \"red\", \"color\": [1, 0, 0], \"roughness\": 0.5}, 3]");
    if let JsonValue::Array(items) = v {
        assert_eq!(materials_error(&items), None);
        let ms = read_materials(&items);
        assert_eq!(ms.len(), 1);
        assert_eq!(ms[0].id, "red");
        assert_eq!(ms[0].color, triplet("1", "0", "0"));
        assert_eq!(ms[0].roughness, "0.5");
        assert_eq!(ms[0].ior, "1");
        assert_eq!(ms[0].reflect, "0");
    } else {
        panic!("not an array");
    }
    let v = value("[{\"color\": [1, 0, 0]}]");
    if let JsonValue::Array(items) = v {
        assert_eq!(materials_error(&items), Some(SceneError::MissingMaterialId));
    } else {
        panic!("not an array");
    }
}

#[test]
fn scene_defaults_and_fields() {
    let v = value("{}");
    let s = read_scene(&v);
    assert_eq!(s.max_depth, 5);
    assert_eq!(s.path_samples, 1);
    assert_eq!(s.skycolor, triplet("0", "0", "0"));
    assert!(s.materials.is_empty() && s.spheres.is_empty() && s.lights.is_empty());

    let v = value(
        "{\"skycolor\": [0.2, 0.3, 0.4], \"max_trace_depth\": 3, \"path_samples\": 8, \
         \"spheres\": [{\"center\": [0, 3, 0], \"radius\": 1.3333, \"material\": \"m\"}, {}], \
         \"lights\": [{\"type\": \" Sphere\", \"samples\": 100, \"visible\": true}], \
         \"meshes\": [{\"file\": \"a.obj\", \"scale\": [2, 2, 2]}], \
         \"voxels\": [{\"translation\": [1, 2, 3]}]}",
    );
    let s = read_scene(&v);
    assert_eq!(s.skycolor, triplet("0.2", "0.3", "0.4"));
    assert_eq!(s.max_depth, 3);
    assert_eq!(s.path_samples, 8);
    assert_eq!(s.spheres.len(), 2);
    assert_eq!(s.spheres[0].center, triplet("0", "3", "0"));
    assert_eq!(s.spheres[0].radius, "1.3333");
    assert_eq!(s.spheres[0].material, "m");
    assert_eq!(s.spheres[1].radius, "1");
    assert_eq!(s.spheres[1].material, "_default");
    assert_eq!(s.lights.len(), 1);
    assert_eq!(s.lights[0].ltype, LightType::Sphere);
    assert_eq!(s.lights[0].samples, 100);
    assert!(s.lights[0].visible);
    assert_eq!(s.lights[0].color, triplet("1", "1", "1"));
    assert_eq!(s.meshes[0].file, Some(String::from("a.obj")));
    assert_eq!(s.meshes[0].scale, triplet("2", "2", "2"));
    assert_eq!(s.meshes[0].material, "");
    assert_eq!(s.voxels[0].file, None);
    assert_eq!(s.voxels[0].translation, triplet("1", "2", "3"));
}

#[test]
fn no_depth_means_no_path_samples() {
    let v = value("{\"max_trace_depth\": 0, \"path_samples\": 4}");
    let s = read_scene(&v);
    assert_eq!(s.max_depth, 0);
    assert_eq!(s.path_samples, 0);
}

#[test]
fn scene_errors() {
    let v = value("{\"lights\": [{\"type\": \"spot\"}]}");
    assert_eq!(scene_error(&v), Some(SceneError::UnknownLightType));
    let v = value("{\"skycolor\": 1}");
    assert_eq!(scene_error(&v), Some(SceneError::BadTriplet));
    let v = value("[1]");
    assert_eq!(scene_error(&v), Some(SceneError::MissingScene));
}

#[test]
fn settings_need_scene_and_output() {
    let doc = parse_json("{\"scene\": {\"max_trace_depth\": 2}, \"output\": {\"width\": 64}}").unwrap();
    assert_eq!(settings_error(&doc), None);
    let s = read_settings(&doc);
    assert_eq!(s.scene.max_depth, 2);
    assert_eq!(s.output.width, 64);
    assert_eq!(s.output.height, 1080);

    let doc = parse_json("{\"output\": {}}").unwrap();
    assert_eq!(settings_error(&doc), Some(SceneError::MissingScene));
    let doc = parse_json("{\"scene\": {}}").unwrap();
    assert_eq!(settings_error(&doc), Some(SceneError::MissingOutput));
    let doc = parse_json("{\"scene\": {}, \"output\": {}, \"scene\": 3}").unwrap();
    assert_eq!(settings_error(&doc), Some(SceneError::MissingScene));
    let doc = parse_json("{\"scene\": {\"skycolor\": [1]}, \"output\": {}}").unwrap();
    assert_eq!(settings_error(&doc), Some(SceneError::BadTriplet));
}

#[test]
fn material_lookup_first_match() {
    let ids = vec![String::from("a"), String::from("b"), String::from("a")];
    assert_eq!(raytracer::scene::find_material(&ids, &String::from("a")), Some(0));
    assert_eq!(raytracer::scene::find_material(&ids, &String::from("b")), Some(1));
    assert_eq!(raytracer::scene::find_material(&ids, &String::from("c")), None);
    assert_eq!(raytracer::scene::find_material(&Vec::new(), &String::from("a")), None);
}

#[test]
fn lights_of_unknown_type_are_an_error() {
    let v = value("[{\"type\": \"laser\"}]");
    if let JsonValue::Array(items) = v {
        assert_eq!(raytracer::scene::lights_error(&items), Some(SceneError::UnknownLightType));
    } else {
        panic!("not an array");
    }
    let v = value("[{\"type\": \" Sphere \"}, {\"type\": \"POINT\"}]");
    if let JsonValue::Array(items) = v {
        assert_eq!(raytracer::scene::lights_error(&items), None);
        let ls = raytracer::scene::read_lights(&items);
        assert_eq!(ls[0].ltype, LightType::Sphere);
        assert_eq!(ls[1].ltype, LightType::Point);
    } else {
        panic!("not an array");
    }
}
