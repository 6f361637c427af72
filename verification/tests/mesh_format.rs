use duck::mesh::{group_vertex_fields, parse_mesh, MeshError, MeshText};
use duck::number::IntErrorKind;
use duck::text::Span;

fn read(s: &str) -> (Vec<char>, MeshText) {
    let t: Vec<char> = s.chars().collect();
    let m = parse_mesh(&t);
    (t, m)
}

fn fields(t: &[char], m: &MeshText) -> Vec<Vec<String>> {
    m.vertex_fields
        .iter()
        .map(|f| f.iter().map(|s: &Span| t[s.start..s.end].iter().collect()).collect())
        .collect()
}

const GOOD: &str = "2\n\
0 0 0 0 1 0 0.5 0.5\n\
1.0 -2 3e2 0 1 0 1 1\n\
1\n\
0 1 1\n\
trailing lines are ignored\n";

#[test]
fn reads_a_well_formed_mesh() {
    let (t, m) = read(GOOD);
    assert_eq!(m.error, None);
    assert_eq!(m.indices, vec![0, 1, 1]);
    let f = fields(&t, &m);
    assert_eq!(f.len(), 2);
    assert_eq!(f[1], vec!["1.0", "-2", "3e2", "0", "1", "0", "1", "1"]);
}

#[test]
fn counts_are_trimmed_and_may_carry_a_plus() {
    let (_, m) = read("  +0 \r\n\t1\n 1 2 3 \n");
    assert_eq!(m.error, None);
    assert_eq!(m.indices, vec![1, 2, 3]);
    assert!(m.vertex_fields.is_empty());
}

#[test]
fn empty_mesh() {
    let (_, m) = read("0\n0");
    assert_eq!(m.error, None);
    assert!(m.indices.is_empty());
}

#[test]
fn empty_text_has_no_vertex_count() {
    assert_eq!(read("").1.error, Some(MeshError::MissingVertexCount));
}

#[test]
fn bad_vertex_count() {
    assert_eq!(
        read("two\n").1.error,
        Some(MeshError::InvalidVertexCount { kind: IntErrorKind::InvalidDigit })
    );
    assert_eq!(
        read("-1\n").1.error,
        Some(MeshError::InvalidVertexCount { kind: IntErrorKind::InvalidDigit })
    );
    assert_eq!(
        read("\n").1.error,
        Some(MeshError::InvalidVertexCount { kind: IntErrorKind::Empty })
    );
    assert_eq!(
        read("99999999999999999999999\n").1.error,
        Some(MeshError::InvalidVertexCount { kind: IntErrorKind::PosOverflow })
    );
}

#[test]
fn text_ends_before_the_vertices_do() {
    let (_, m) = read("2\n1 2 3 4 5 6 7 8\n");
    assert_eq!(m.error, Some(MeshError::MissingVertexLine));
    assert_eq!(m.vertex_fields.len(), 1);
}

#[test]
fn vertex_line_with_seven_fields() {
    let (t, m) = read("2\n1 2 3 4 5 6 7 8\n1 2 3 4 5 6 7\n0\n");
    assert_eq!(m.error, Some(MeshError::WrongVertexFieldCount { got: 7 }));
    let f = fields(&t, &m);
    assert_eq!(f.len(), 2);
    assert_eq!(f[1].len(), 7);
}

#[test]
fn missing_triangle_count() {
    assert_eq!(read("0").1.error, Some(MeshError::MissingTriangleCount));
}

#[test]
fn bad_triangle_count() {
    assert_eq!(
        read("0\nx\n").1.error,
        Some(MeshError::InvalidTriangleCount { kind: IntErrorKind::InvalidDigit })
    );
    assert_eq!(
        read("0\n  \n").1.error,
        Some(MeshError::InvalidTriangleCount { kind: IntErrorKind::Empty })
    );
}

#[test]
fn text_ends_before_the_triangles_do() {
    assert_eq!(read("0\n2\n0 1 2\n").1.error, Some(MeshError::MissingTriangleLine));
}

#[test]
fn index_that_is_not_a_u16() {
    assert_eq!(read("0\n1\n0 1 65536\n").1.error, Some(MeshError::InvalidIndex));
    assert_eq!(read("0\n1\n0 1 1.5\n").1.error, Some(MeshError::InvalidIndex));
    // an index that does not parse is reported before a wrong count
    assert_eq!(read("0\n1\n0 x\n").1.error, Some(MeshError::InvalidIndex));
}

#[test]
fn triangle_line_with_four_indices() {
    assert_eq!(
        read("0\n1\n0 1 2 3\n").1.error,
        Some(MeshError::WrongTriangleIndexCount { got: 4 })
    );
    assert_eq!(
        read("0\n1\n\n").1.error,
        Some(MeshError::WrongTriangleIndexCount { got: 0 })
    );
}

#[test]
fn error_messages() {
    assert_eq!(MeshError::MissingVertexCount.message(), "missing vertex count line");
    assert_eq!(MeshError::InvalidIndex.message(), "failed to parse u16");
    assert_eq!(
        MeshError::InvalidVertexCount { kind: IntErrorKind::Empty }.message(),
        "cannot parse integer from empty string"
    );
    assert_eq!(
        MeshError::InvalidTriangleCount { kind: IntErrorKind::PosOverflow }.message(),
        "number too large to fit in target type"
    );
}

#[test]
fn count_messages_match_std() {
    for s in ["", "x", "99999999999999999999999"] {
        let t: Vec<char> = format!("{}\n", s).chars().collect();
        match parse_mesh(&t).error {
            Some(e) => assert_eq!(e.message(), s.parse::<usize>().unwrap_err().to_string()),
            None => panic!("count {:?} accepted", s),
        }
    }
}

#[test]
fn vertex_fields_are_grouped_three_three_two() {
    let (t, m) = read(GOOD);
    let g = group_vertex_fields(&m.vertex_fields[1]);
    let text = |s: Span| -> String { t[s.start..s.end].iter().collect() };
    assert_eq!((text(g.position.0), text(g.position.1), text(g.position.2)), ("1.0".to_string(), "-2".to_string(), "3e2".to_string()));
    assert_eq!((text(g.normal.0), text(g.normal.1), text(g.normal.2)), ("0".to_string(), "1".to_string(), "0".to_string()));
    assert_eq!((text(g.tex_coords.0), text(g.tex_coords.1)), ("1".to_string(), "1".to_string()));
}
