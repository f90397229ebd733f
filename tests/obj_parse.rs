use raytracer::obj::{face_in_range, is_face, is_face_vertex, line_kind, parse_index, read_face, read_face_vertex, split_line, FaceVertex, ObjLine};

#[test]
fn splits_on_whitespace() {
    let words = split_line("  f 1/2/3  4//6\t7 \u{3000}x ");
    assert_eq!(words, vec!["f", "1/2/3", "4//6", "7", "x"]);
    assert_eq!(split_line("   ").len(), 0);
    assert_eq!(split_line(""), Vec::<String>::new());
}

#[test]
fn face_vertex_forms() {
    assert_eq!(read_face_vertex("1/2/3"), FaceVertex { vi: 1, ti: 2, ni: 3 });
    assert_eq!(read_face_vertex("4//6"), FaceVertex { vi: 4, ti: 0, ni: 6 });
    assert_eq!(read_face_vertex("7/8"), FaceVertex { vi: 7, ti: 8, ni: 0 });
    assert_eq!(read_face_vertex("9"), FaceVertex { vi: 9, ti: 0, ni: 0 });
    assert_eq!(read_face_vertex("+5"), FaceVertex { vi: 5, ti: 0, ni: 0 });
}

#[test]
fn face_vertex_rejects() {
    assert!(!is_face_vertex("1/2/3/4"));
    assert!(!is_face_vertex("/2"));
    assert!(!is_face_vertex("a"));
    assert!(!is_face_vertex("1/x"));
    assert!(!is_face_vertex("-1"));
}

#[test]
fn index_values() {
    assert_eq!(parse_index("42"), Some(42));
    assert_eq!(parse_index("+0"), Some(0));
    assert_eq!(parse_index(""), None);
    assert_eq!(parse_index("+"), None);
    assert_eq!(parse_index("1 2"), None);
    assert_eq!(parse_index("99999999999999999999999"), None);
    assert_eq!(parse_index(&usize::MAX.to_string()), Some(usize::MAX));
}

#[test]
fn face_lines() {
    assert_eq!(
        read_face("f 1 2 3"),
        vec![
            FaceVertex { vi: 1, ti: 0, ni: 0 },
            FaceVertex { vi: 2, ti: 0, ni: 0 },
            FaceVertex { vi: 3, ti: 0, ni: 0 },
        ]
    );
    assert!(is_face("f 1 2 3"));
    assert!(!is_face("f 1 2 3 4"));
    assert!(!is_face("f 1 2"));
    assert!(!is_face("f 1 2 x"));
}

#[test]
fn line_kinds() {
    assert_eq!(line_kind("v 1 2 3"), ObjLine::Position);
    assert_eq!(line_kind("vt 0 1"), ObjLine::TexCoord);
    assert_eq!(line_kind("vn 0 1 0"), ObjLine::Normal);
    assert_eq!(line_kind("f 1 2 3"), ObjLine::Face);
    assert_eq!(line_kind("# comment"), ObjLine::Other);
    assert_eq!(line_kind("v"), ObjLine::Other);
    assert_eq!(line_kind(""), ObjLine::Other);
}

#[test]
fn face_ranges() {
    let face = vec![
        FaceVertex { vi: 1, ti: 0, ni: 2 },
        FaceVertex { vi: 3, ti: 1, ni: 0 },
        FaceVertex { vi: 2, ti: 0, ni: 0 },
    ];
    assert!(face_in_range(&face, 3, 2, 1));
    assert!(!face_in_range(&face, 2, 2, 1));
    assert!(!face_in_range(&face, 3, 1, 1));
    assert!(!face_in_range(&face, 3, 2, 0));
    assert!(face_in_range(&Vec::new(), 0, 0, 0));
}
