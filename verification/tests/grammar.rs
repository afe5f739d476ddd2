use ray_tracer::parsers::comment::parse_eol_comment;
use ray_tracer::parsers::filename::parse_file_name;
use ray_tracer::parsers::float::float;
use ray_tracer::parsers::geometry::{
    parse_texture_coordinate_tokens, parse_vector_tokens, parse_vertex_tokens,
};
use ray_tracer::parsers::integer::{decimal, parse_integer, string_to_usize};
use ray_tracer::parsers::material::{
    parse_material_filenames, parse_material_identifier, recognize_material_filename,
};
use ray_tracer::parsers::polygon::{
    parse_polygon_indices, parse_polygon_vertex_indices, PolygonVertexIndices,
};
use ray_tracer::parsers::texture_map::parse_texture_map_identifier;

#[test]
fn test_decimal() {
    assert_eq!(decimal(b"0 "), Some((&b" "[..], &b"0"[..])));
    assert_eq!(decimal(b"5 "), Some((&b" "[..], &b"5"[..])));
    assert_eq!(decimal(b"75_000"), Some((&b""[..], &b"75_000"[..])));
    assert!(decimal(b"-1").is_none());
    assert!(decimal(b"-1").is_none());
    assert!(decimal(b".1").is_none());
    assert!(decimal(b"_1").is_none());
}

#[test]
fn test_parse_integer() {
    assert_eq!(parse_integer(b"0\r\n"), Some((&b"\r\n"[..], 0)));
    assert_eq!(parse_integer(b"5 "), Some((&b" "[..], 5)));
    assert_eq!(parse_integer(b"14000"), Some((&b""[..], 14000)));
}

#[test]
fn digit_text_to_usize() {
    assert_eq!(string_to_usize("75000"), 75000);
    assert_eq!(string_to_usize("0"), 0);
}

#[test]
fn test_parse_eol_comment() {
    assert_eq!(
        parse_eol_comment(b"# This is a comment\r\nAnd now it's over"),
        Some(&b"And now it's over"[..])
    );
    assert_eq!(
        parse_eol_comment(b"# This is a comment\r\n\r\nAnd now it's over"),
        Some(&b"And now it's over"[..])
    );
    assert_eq!(
        parse_eol_comment(b"#This is a comment\r\n\r\n#This is another"),
        Some(&b"#This is another"[..])
    );
}

#[test]
fn test_float() {
    assert_eq!(float(b".42"), Some((&b""[..], &b".42"[..])));
    assert_eq!(float(b"1."), Some((&b""[..], &b"1."[..])));
    assert_eq!(float(b"-7.42e+13b"), Some((&b"b"[..], &b"-7.42e+13"[..])));
    assert_eq!(float(b"3.42e-15 "), Some((&b" "[..], &b"3.42e-15"[..])));
}

#[test]
fn material_test_parse_material_identifier() {
    assert_eq!(
        parse_material_identifier(b"usemtl material0\r\nb"),
        Some((&b"b"[..], &b"material0"[..]))
    );
    assert!(parse_material_identifier(b"use_material material0\r\nb").is_none());
}

#[test]
fn identifier_test_parse_material_identifier() {
    assert_eq!(
        parse_material_identifier(b"usemtl material0\r\nb"),
        Some((&b"b"[..], &b"material0"[..]))
    );
    assert!(parse_material_identifier(b"use_material material0\r\nb").is_none());
}

#[test]
fn test_recognize_material_filename() {
    assert_eq!(
        recognize_material_filename(b"../a/ab.mtl"),
        Some((&b""[..], &b"../a/ab.mtl"[..]))
    );
    assert_eq!(
        recognize_material_filename(b"../a/ab.mtl "),
        Some((&b""[..], &b"../a/ab.mtl"[..]))
    );
    assert_eq!(
        recognize_material_filename(b"subfolder/material.MTL ./folder/filename.MtL"),
        Some((&b"./folder/filename.MtL"[..], &b"subfolder/material.MTL"[..]))
    );
    assert_eq!(
        recognize_material_filename(b"filename.MtL"),
        Some((&b""[..], &b"filename.MtL"[..]))
    );
    assert_eq!(
        recognize_material_filename(b"./folder/filename.MtL"),
        Some((&b""[..], &b"./folder/filename.MtL"[..]))
    );
    assert!(recognize_material_filename(b"./folder/.filename.mtl").is_none());
    assert!(recognize_material_filename(b".mtl").is_none());
    assert!(recognize_material_filename(b"././mtl").is_none());
    assert!(recognize_material_filename(b"././.mtl").is_none());
    assert!(recognize_material_filename(b"/.mtl").is_none());
}

#[test]
fn test_parse_material_filenames() {
    assert_eq!(
        parse_material_filenames(b"mtllib Super_Mario.mtl"),
        Some((&b""[..], vec![&b"Super_Mario.mtl"[..]]))
    );
    assert_eq!(
        parse_material_filenames(b"mtllib .Super_Mario.mtl\r\ng"),
        Some((&b"g"[..], vec![&b".Super_Mario.mtl"[..]]))
    );
    assert_eq!(
        parse_material_filenames(b"mtllib subfolder/material.MTL\r\n.mtl"),
        Some((&b".mtl"[..], vec![&b"subfolder/material.MTL"[..]]))
    );
    assert_eq!(
        parse_material_filenames(b"mtllib subfolder/material.mtl material.mtl\nnext line"),
        Some((&b"next line"[..], vec![&b"subfolder/material.mtl"[..], &b"material.mtl"[..]]))
    );
    assert_eq!(
        parse_material_filenames(b"mtllib subfolder/material.MTL ./folder/filename.MtL\r\nnext line"),
        Some((
            &b"next line"[..],
            vec![&b"subfolder/material.MTL"[..], &b"./folder/filename.MtL"[..]]
        ))
    );
    assert!(parse_material_filenames(b"mtllib Super_Mario.mtr\r\ng").is_none());
    assert!(parse_material_filenames(b"mtllib Super_Mario.mtlg").is_none());
    assert!(parse_material_filenames(b"mtlib Super_Mario.mtl\r\ng").is_none());
}

#[test]
fn single_filename_line() {
    // parse_file_name takes the first filename of the line and ignores
    // the rest of the line
    assert_eq!(
        parse_file_name(b"mtllib", b".mtl", b"mtllib subfolder/material.MTL extra.mtl\r\nnext"),
        Some((&b"next"[..], &b"subfolder/material.MTL"[..]))
    );
    assert_eq!(
        parse_file_name(b"maplib", b".ppm", b"maplib tex.ppm\r\nrest"),
        Some((&b"rest"[..], &b"tex.ppm"[..]))
    );
    assert!(parse_file_name(b"mtllib", b".mtl", b"mtllib Super_Mario.mtr\r\ng").is_none());
    assert!(parse_file_name(b"mtllib", b".mtl", b"mtlib Super_Mario.mtl\r\ng").is_none());
}

#[test]
fn test_parse_texture_map_identifier() {
    assert_eq!(
        parse_texture_map_identifier(b"usemap material0\r\nb"),
        Some((&b"b"[..], &b"material0"[..]))
    );
    assert_eq!(parse_texture_map_identifier(b"usemap off"), Some((&b""[..], &b"off"[..])));
    assert!(parse_texture_map_identifier(b"usemtl material0\r\nb").is_none());
}

#[test]
fn vector_statement_tokens() {
    assert_eq!(
        parse_vector_tokens(b"vn 0.123 -0.234 2.345 "),
        Some((&b""[..], (&b"0.123"[..], &b"-0.234"[..], &b"2.345"[..])))
    );
    assert_eq!(
        parse_vector_tokens(b"vn 0.707 0.000 0.707\r\n"),
        Some((&b""[..], (&b"0.707"[..], &b"0.000"[..], &b"0.707"[..])))
    );
    assert!(parse_vector_tokens(b"vn 0.1 0.2").is_none());
}

#[test]
fn vertex_statement_tokens() {
    assert_eq!(
        parse_vertex_tokens(b"v 0.123 -0.234 2.345 1.0\r\n"),
        Some((&b""[..], (&b"0.123"[..], &b"-0.234"[..], &b"2.345"[..], Some(&b"1.0"[..]))))
    );
    assert_eq!(
        parse_vertex_tokens(b"v 1 2 3"),
        Some((&b""[..], (&b"1"[..], &b"2"[..], &b"3"[..], None)))
    );
}

#[test]
fn test_parse_texture_coordinates() {
    assert_eq!(
        parse_texture_coordinate_tokens(b"vt 0.500 0"),
        Some((&b""[..], (&b"0.500"[..], Some(&b"0"[..]), None)))
    );
    assert_eq!(
        parse_texture_coordinate_tokens(b"vt 0.500 1 1\r\n"),
        Some((&b""[..], (&b"0.500"[..], Some(&b"1"[..]), Some(&b"1"[..]))))
    );
}

#[test]
fn test_parse_polygon_vertex_indices() {
    assert_eq!(
        parse_polygon_vertex_indices(b"1/1/5\r\n"),
        Some((
            &b"\r\n"[..],
            PolygonVertexIndices { vertex: 1, texture_coordinates: Some(1), normal: Some(5) }
        ))
    );
    assert_eq!(
        parse_polygon_vertex_indices(b"10//5\r\n"),
        Some((
            &b"\r\n"[..],
            PolygonVertexIndices { vertex: 10, texture_coordinates: None, normal: Some(5) }
        ))
    );
    assert_eq!(
        parse_polygon_vertex_indices(b"1/5\t"),
        Some((
            &b"\t"[..],
            PolygonVertexIndices { vertex: 1, texture_coordinates: Some(5), normal: None }
        ))
    );
    assert_eq!(
        parse_polygon_vertex_indices(b"1/"),
        Some((
            &b"/"[..],
            PolygonVertexIndices { vertex: 1, texture_coordinates: None, normal: None }
        ))
    );
    assert!(parse_polygon_vertex_indices(b"/1").is_none());
}

#[test]
fn test_parse_polygon_indices() {
    let (rest, polygon) = parse_polygon_indices(b"f 1/2/3 4/5/9\r\n").expect("parses");
    assert_eq!(rest, &b""[..]);
    assert_eq!(
        polygon.points,
        vec![
            PolygonVertexIndices { vertex: 1, texture_coordinates: Some(2), normal: Some(3) },
            PolygonVertexIndices { vertex: 4, texture_coordinates: Some(5), normal: Some(9) },
        ]
    );
}
