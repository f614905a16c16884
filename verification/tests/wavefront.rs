use magiebleue::wavefront_parser::{float_fields, parse_wavefront, ObjError, Vertex};

/// Parses a source the way a caller is meant to: list the number
/// fields, parse each as `f32`, and hand the replies to the scan.
fn parse_str(s: &str) -> Result<Option<Vec<Vertex>>, ObjError> {
    let bytes = s.as_bytes();
    let fields = float_fields(bytes);
    let mut replies: Vec<Option<u32>> = Vec::new();
    for field in &fields {
        let reply = std::str::from_utf8(field)
            .ok()
            .and_then(|t| t.parse::<f32>().ok())
            .map(|f| f.to_bits());
        replies.push(reply);
    }
    parse_wavefront(bytes, &replies)
}

fn bits(f: f32) -> u32 {
    f.to_bits()
}

#[test]
fn empty_input_yields_no_vertices() {
    assert_eq!(parse_str(""), Ok(None));
}

#[test]
fn data_without_faces_yields_none() {
    let src = "v 0 0 0\nv 1 0 0\nvt 0 1\nvn 0 1 0\n";
    assert_eq!(parse_str(src), Ok(None));
}

#[test]
fn comments_and_unknown_tags_are_skipped() {
    let src = "# a comment\no object\ns off\nmtllib x.mtl\n";
    assert_eq!(parse_str(src), Ok(None));
}

#[test]
fn short_lines_are_skipped() {
    // A line of two bytes or fewer is skipped before its tag is read.
    assert_eq!(parse_str("v \nf \nvn\n"), Ok(None));
}

#[test]
fn full_triangle_resolves_all_indices() {
    let src = "v 0 0 0\nv 1 0 0\nv 0 1 0\nvt 0 0\nvt 1 0\nvt 0 1\nvn 0 0 1\nf 1/1/1 2/2/1 3/3/1\n";
    let got = parse_str(src).unwrap().unwrap();
    assert_eq!(got.len(), 3);
    assert_eq!(got[1].px, bits(1.0));
    assert_eq!(got[1].py, bits(0.0));
    assert_eq!(got[1].pz, bits(0.0));
    assert_eq!(got[1].tu, bits(1.0));
    assert_eq!(got[1].tv, bits(0.0));
    assert_eq!(got[1].nx, bits(0.0));
    assert_eq!(got[1].ny, bits(0.0));
    assert_eq!(got[1].nz, bits(1.0));
}

#[test]
fn float_values_carry_through() {
    let src = "v 1.5 -2.25 3.75\nf 1/9\n";
    let got = parse_str(src).unwrap().unwrap();
    assert_eq!(got.len(), 1);
    assert_eq!(got[0].px, bits(1.5));
    assert_eq!(got[0].py, bits(-2.25));
    assert_eq!(got[0].pz, bits(3.75));
}

#[test]
fn out_of_range_texcoord_reads_as_zero() {
    let src = "v 4 5 6\nf 1/3\n";
    let got = parse_str(src).unwrap().unwrap();
    assert_eq!(got[0].tu, bits(0.0));
    assert_eq!(got[0].tv, bits(0.0));
}

#[test]
fn absent_normal_reads_as_zero_vector() {
    let src = "v 4 5 6\nvn 1 0 0\nf 1/1\n";
    let got = parse_str(src).unwrap().unwrap();
    assert_eq!(got[0].nx, bits(0.0));
    assert_eq!(got[0].ny, bits(0.0));
    assert_eq!(got[0].nz, bits(0.0));
}

#[test]
fn malformed_normal_index_reads_as_zero_vector() {
    let src = "v 4 5 6\nvn 1 0 0\nf 1/1/x\n";
    let got = parse_str(src).unwrap().unwrap();
    assert_eq!(got[0].nx, bits(0.0));
    assert_eq!(got[0].ny, bits(0.0));
    assert_eq!(got[0].nz, bits(0.0));
}

#[test]
fn crlf_line_endings_read_like_lf() {
    let a = parse_str("v 1 2 3\r\nvt 0 1\r\nf 1/1\r\n").unwrap().unwrap();
    let b = parse_str("v 1 2 3\nvt 0 1\nf 1/1\n").unwrap().unwrap();
    assert_eq!(a, b);
    assert_eq!(a[0].tv, bits(1.0));
}

#[test]
fn bad_float_reports_the_field() {
    let got = parse_str("v a b c\n");
    assert_eq!(got, Err(ObjError::BadFloat { token: b"a".to_vec() }));
}

#[test]
fn missing_float_field_reports_empty_token() {
    // Two fields where three are demanded: the third reads as empty.
    let got = parse_str("v 1 2\n");
    assert_eq!(got, Err(ObjError::BadFloat { token: Vec::new() }));
}

#[test]
fn face_with_one_field_is_missing_an_index() {
    let got = parse_str("v 0 0 0\nf 1\n");
    assert_eq!(got, Err(ObjError::MissingIndex));
}

#[test]
fn face_index_zero_is_refused() {
    let got = parse_str("v 0 0 0\nf 0/1\n");
    assert_eq!(got, Err(ObjError::ZeroIndex));
}

#[test]
fn face_position_past_the_data_is_refused() {
    let got = parse_str("v 0 0 0\nf 2/1\n");
    assert_eq!(got, Err(ObjError::MissingPosition { index: 2 }));
}

#[test]
fn face_index_that_is_no_number_is_refused() {
    let got = parse_str("v 0 0 0\nf x/1\n");
    assert_eq!(got, Err(ObjError::BadIndex { token: b"x".to_vec() }));
}

#[test]
fn face_index_too_large_for_usize_is_refused() {
    let got = parse_str("v 0 0 0\nf 18446744073709551616/1\n");
    assert_eq!(
        got,
        Err(ObjError::BadIndex { token: b"18446744073709551616".to_vec() })
    );
}

#[test]
fn face_index_with_plus_sign_parses() {
    // `+2` reads as two, which names a position not yet declared.
    let got = parse_str("v 0 0 0\nf +2/1\n");
    assert_eq!(got, Err(ObjError::MissingPosition { index: 2 }));
}

#[test]
fn trailing_space_makes_an_empty_face_piece() {
    let got = parse_str("v 0 0 0\nf 1/9 \n");
    assert_eq!(got, Err(ObjError::BadIndex { token: Vec::new() }));
}

#[test]
fn first_error_in_line_order_wins() {
    // The face on the first line fails before the bad float below it.
    let got = parse_str("f 9/9\nv a b c\n");
    assert_eq!(got, Err(ObjError::MissingPosition { index: 9 }));
}

#[test]
fn forward_position_references_are_refused() {
    // Faces see only the positions read so far.
    let got = parse_str("f 1/1\nv 0 0 0\n");
    assert_eq!(got, Err(ObjError::MissingPosition { index: 1 }));
}

#[test]
fn missing_replies_read_as_unparsed_fields() {
    // A reply list shorter than the fields demanded answers the rest
    // with "does not parse".
    let replies: Vec<Option<u32>> = Vec::new();
    let got = parse_wavefront(b"v 1 2 3\n", &replies);
    assert_eq!(got, Err(ObjError::BadFloat { token: b"1".to_vec() }));
}

#[test]
fn byte_after_normal_tag_is_skipped_unread() {
    // The scan drops one character after `vn` without looking at it,
    // so any byte there reads like the usual space.
    let a = parse_str("v 0 0 0\nvnX1 2 3\nf 1/9/1\n").unwrap().unwrap();
    let b = parse_str("v 0 0 0\nvn 1 2 3\nf 1/9/1\n").unwrap().unwrap();
    assert_eq!(a, b);
    assert_eq!(a[0].nx, bits(1.0));
}

#[test]
fn float_fields_lists_fields_in_scan_order() {
    let src = "v 1.5 2 3\nvt 0.25 0.75\n# skip\nvn 9 8 7\n";
    let fields = float_fields(src.as_bytes());
    let words: Vec<&[u8]> = fields.iter().map(|f| f.as_slice()).collect();
    assert_eq!(
        words,
        vec![
            b"1.5" as &[u8],
            b"2",
            b"3",
            b"0.25",
            b"0.75",
            b"9",
            b"8",
            b"7"
        ]
    );
}

#[test]
fn float_fields_of_a_face_line_are_empty() {
    let fields = float_fields(b"f 1/1 2/2\n");
    assert!(fields.is_empty());
}
