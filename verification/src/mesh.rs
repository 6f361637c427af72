//! The text format of the duck's mesh: a line with the number of vertices,
//! one line per vertex with exactly eight numbers (position, normal and
//! texture coordinates), a line with the number of triangles, and one line
//! per triangle with exactly three vertex indices that fit in a `u16`.
//! Lines after the last triangle are ignored.
//!
//! The eight numbers of a vertex are floats, which are read outside this
//! crate: for each vertex line read, [`parse_mesh`] hands back the spans of
//! its fields, and every vertex line read comes before the point where the
//! format was found broken, so that the floats can be checked in the order
//! in which the lines stand.

use vstd::prelude::*;
use crate::text::{self, Span, next_line, trim_span, split_tokens};
use crate::number::{self, IntErrorKind, parse_usize, parse_u16};

verus! {

/// Number of fields on a vertex line.
pub const NUMS_PER_VERTEX_LINE: usize = 8;

/// Number of indices on a triangle line.
pub const NUMS_PER_TRIANGLE_LINE: usize = 3;

/// How the mesh text breaks its format: the first break met, reading it
/// from the start.
#[derive(Clone, Copy, Debug, PartialEq, Eq)]
pub enum MeshError {
    /// The text has no line at all.
    MissingVertexCount,
    /// The first line, trimmed, is not a `usize`, for the reason given.
    InvalidVertexCount { kind: IntErrorKind },
    /// The text ends before the last vertex line.
    MissingVertexLine,
    /// A vertex line does not hold eight fields.
    WrongVertexFieldCount { got: usize },
    /// The text ends after the vertex lines.
    MissingTriangleCount,
    /// The triangle count line, trimmed, is not a `usize`, for the reason
    /// given.
    InvalidTriangleCount { kind: IntErrorKind },
    /// The text ends before the last triangle line.
    MissingTriangleLine,
    /// A field of a triangle line is not a `u16`.
    InvalidIndex,
    /// A triangle line does not hold three indices.
    WrongTriangleIndexCount { got: usize },
}

impl MeshError {
    /// The text of the message that describes the error.
    pub open spec fn message_spec(self) -> Seq<char> {
        match self {
            MeshError::MissingVertexCount => "missing vertex count line"@,
            MeshError::InvalidVertexCount { kind } => kind.message_spec(),
            MeshError::MissingVertexLine => "missing next vertex line"@,
            MeshError::WrongVertexFieldCount { .. } => "incorrect data for vertex"@,
            MeshError::MissingTriangleCount => "missing triangle count line"@,
            MeshError::InvalidTriangleCount { kind } => kind.message_spec(),
            MeshError::MissingTriangleLine => "missing next triangle line"@,
            MeshError::InvalidIndex => "failed to parse u16"@,
            MeshError::WrongTriangleIndexCount { .. } => "incorrect data for triangle"@,
        }
    }

    /// The message that describes the error.
    pub fn message(&self) -> (s: &'static str)
        ensures
            s@ == self.message_spec(),
    {
        match self {
            MeshError::MissingVertexCount => "missing vertex count line",
            MeshError::InvalidVertexCount { kind } => kind.message(),
            MeshError::MissingVertexLine => "missing next vertex line",
            MeshError::WrongVertexFieldCount { .. } => "incorrect data for vertex",
            MeshError::MissingTriangleCount => "missing triangle count line",
            MeshError::InvalidTriangleCount { kind } => kind.message(),
            MeshError::MissingTriangleLine => "missing next triangle line",
            MeshError::InvalidIndex => "failed to parse u16",
            MeshError::WrongTriangleIndexCount { .. } => "incorrect data for triangle",
        }
    }
}

/// What reading the mesh text gives.
pub struct MeshText {
    /// The fields of each vertex line read, in order; where a vertex line
    /// has the wrong number of fields, it is the last one here.
    pub vertex_fields: Vec<Vec<Span>>,
    /// The indices of the triangle lines read, three per line, in order.
    pub indices: Vec<u16>,
    /// The first break of the format, if any.
    pub error: Option<MeshError>,
}

/// The fields of a vertex line, grouped as the vertex uses them.
#[derive(Clone, Copy, Debug, PartialEq, Eq)]
pub struct VertexSpans {
    /// Fields 0, 1 and 2: the position.
    pub position: (Span, Span, Span),
    /// Fields 3, 4 and 5: the normal.
    pub normal: (Span, Span, Span),
    /// Fields 6 and 7: the texture coordinates.
    pub tex_coords: (Span, Span),
}

/// Groups the eight fields of a vertex line into position, normal and
/// texture coordinates.
pub fn group_vertex_fields(fields: &Vec<Span>) -> (g: VertexSpans)
    requires
        fields@.len() == NUMS_PER_VERTEX_LINE,
    ensures
        g.position == (fields@[0], fields@[1], fields@[2]),
        g.normal == (fields@[3], fields@[4], fields@[5]),
        g.tex_coords == (fields@[6], fields@[7]),
{
    VertexSpans {
        position: (fields[0], fields[1], fields[2]),
        normal: (fields[3], fields[4], fields[5]),
        tex_coords: (fields[6], fields[7]),
    }
}

/// The field spans of the vertex lines from the `k`-th one on, and the
/// break met there, if any; `lines[0]` is the vertex count line.
pub open spec fn vertex_section(t: Seq<char>, lines: Seq<(int, int)>, count: int, k: int) -> (
    Seq<Seq<(int, int)>>,
    Option<MeshError>,
)
    decreases count - k,
{
    if k >= count {
        (seq![], None)
    } else if 1 + k >= lines.len() {
        (seq![], Some(MeshError::MissingVertexLine))
    } else {
        let f = text::token_spans(t, lines[1 + k].0, lines[1 + k].1);
        if f.len() != NUMS_PER_VERTEX_LINE {
            (seq![f], Some(MeshError::WrongVertexFieldCount { got: f.len() as usize }))
        } else {
            let r = vertex_section(t, lines, count, k + 1);
            (seq![f] + r.0, r.1)
        }
    }
}

/// Whether every token is a `u16`.
pub open spec fn all_u16(t: Seq<char>, toks: Seq<(int, int)>) -> bool {
    forall|k: int|
        0 <= k < toks.len() ==> (#[trigger] number::parse_unsigned_spec(
            t,
            toks[k].0,
            toks[k].1,
            u16::MAX as int,
        )) is Some
}

/// The values of tokens that are all `u16`s.
pub open spec fn u16_values(t: Seq<char>, toks: Seq<(int, int)>) -> Seq<int> {
    Seq::new(
        toks.len(),
        |k: int| number::parse_unsigned_spec(t, toks[k].0, toks[k].1, u16::MAX as int).unwrap(),
    )
}

/// The indices of the triangle lines from the `k`-th one on, and the break
/// met there, if any; the first triangle line is `lines[base]`.
pub open spec fn triangle_section(
    t: Seq<char>,
    lines: Seq<(int, int)>,
    base: int,
    count: int,
    k: int,
) -> (Seq<int>, Option<MeshError>)
    decreases count - k,
{
    if k >= count {
        (seq![], None)
    } else if base + k >= lines.len() {
        (seq![], Some(MeshError::MissingTriangleLine))
    } else {
        let f = text::token_spans(t, lines[base + k].0, lines[base + k].1);
        if !all_u16(t, f) {
            (seq![], Some(MeshError::InvalidIndex))
        } else if f.len() != NUMS_PER_TRIANGLE_LINE {
            (seq![], Some(MeshError::WrongTriangleIndexCount { got: f.len() as usize }))
        } else {
            let r = triangle_section(t, lines, base, count, k + 1);
            (u16_values(t, f) + r.0, r.1)
        }
    }
}

/// Why the count line `line` is not a `usize`.
pub open spec fn count_error(t: Seq<char>, line: (int, int)) -> IntErrorKind {
    let c = text::trimmed(t, line.0, line.1);
    number::parse_error_kind(t, c.0, c.1, usize::MAX as int).unwrap()
}

/// The declared number of vertices, where the first line gives one.
pub open spec fn vertex_count(t: Seq<char>) -> Option<int> {
    let lines = text::line_spans(t, 0);
    if lines.len() == 0 {
        None
    } else {
        let c = text::trimmed(t, lines[0].0, lines[0].1);
        number::parse_unsigned_spec(t, c.0, c.1, usize::MAX as int)
    }
}

/// The declared number of triangles, where the line after the last vertex
/// line gives one.
pub open spec fn triangle_count(t: Seq<char>) -> Option<int> {
    let lines = text::line_spans(t, 0);
    match vertex_count(t) {
        None => None,
        Some(vc) => if 1 + vc < lines.len() {
            let c = text::trimmed(t, lines[1 + vc].0, lines[1 + vc].1);
            number::parse_unsigned_spec(t, c.0, c.1, usize::MAX as int)
        } else {
            None
        },
    }
}

/// What reading the mesh text `t` gives: the field spans of the vertex
/// lines read, the indices of the triangle lines read, and the first break
/// of the format.
pub open spec fn mesh_spec(t: Seq<char>) -> (Seq<Seq<(int, int)>>, Seq<int>, Option<MeshError>) {
    let lines = text::line_spans(t, 0);
    if lines.len() == 0 {
        (seq![], seq![], Some(MeshError::MissingVertexCount))
    } else {
        match vertex_count(t) {
            None => (
                seq![],
                seq![],
                Some(MeshError::InvalidVertexCount { kind: count_error(t, lines[0]) }),
            ),
            Some(vc) => {
                let vs = vertex_section(t, lines, vc, 0);
                if vs.1 is Some {
                    (vs.0, seq![], vs.1)
                } else if 1 + vc >= lines.len() {
                    (vs.0, seq![], Some(MeshError::MissingTriangleCount))
                } else {
                    match triangle_count(t) {
                        None => (
                            vs.0,
                            seq![],
                            Some(
                                MeshError::InvalidTriangleCount {
                                    kind: count_error(t, lines[1 + vc]),
                                },
                            ),
                        ),
                        Some(tc) => {
                            let ts = triangle_section(t, lines, 2 + vc, tc, 0);
                            (vs.0, ts.0, ts.1)
                        },
                    }
                }
            },
        }
    }
}

/// The field spans of vertex lines, as integer pairs.
pub open spec fn fields_view(v: Seq<Vec<Span>>) -> Seq<Seq<(int, int)>> {
    v.map_values(|f: Vec<Span>| text::spans_view(f@))
}

/// The indices, as integers.
pub open spec fn indices_view(v: Seq<u16>) -> Seq<int> {
    v.map_values(|x: u16| x as int)
}

/// Reads the mesh text `t`.
pub fn parse_mesh(t: &[char]) -> (m: MeshText)
    ensures
        fields_view(m.vertex_fields@) == mesh_spec(t@).0,
        indices_view(m.indices@) == mesh_spec(t@).1,
        m.error == mesh_spec(t@).2,
{
    let ghost lines = text::line_spans(t@, 0);
    let mut vertex_fields: Vec<Vec<Span>> = Vec::new();
    let mut indices: Vec<u16> = Vec::new();
    let (count_line, mut pos) = match next_line(t, 0) {
        None => {
            return MeshText { vertex_fields, indices, error: Some(MeshError::MissingVertexCount) };
        },
        Some(l) => l,
    };
    let c = trim_span(t, count_line.start, count_line.end);
    let vc = match parse_usize(t, c.start, c.end) {
        Err(kind) => {
            return MeshText {
                vertex_fields,
                indices,
                error: Some(MeshError::InvalidVertexCount { kind }),
            };
        },
        Ok(v) => v,
    };
    assert(vertex_count(t@) == Some(vc as int));
    let mut i: usize = 0;
    while i < vc
        invariant
            i <= vc,
            pos <= t@.len(),
            lines == text::line_spans(t@, 0),
            vertex_count(t@) == Some(vc as int),
            text::line_spans(t@, pos as int) == lines.skip(1 + i),
            1 + i <= lines.len(),
            fields_view(vertex_fields@) + vertex_section(t@, lines, vc as int, i as int).0
                == vertex_section(t@, lines, vc as int, 0).0,
            vertex_section(t@, lines, vc as int, i as int).1 == vertex_section(
                t@,
                lines,
                vc as int,
                0,
            ).1,
            indices@.len() == 0,
            vertex_fields@.len() == i,
        decreases vc - i,
    {
        let (line, next) = match next_line(t, pos) {
            None => {
                assert(lines.skip(1 + i).len() == 0);
                return MeshText {
                    vertex_fields,
                    indices,
                    error: Some(MeshError::MissingVertexLine),
                };
            },
            Some(l) => l,
        };
        assert(lines.skip(1 + i).len() > 0);
        assert(lines.skip(1 + i)[0] == line.view());
        assert(lines[1 + i] == line.view());
        assert(text::line_spans(t@, next as int) == lines.skip(1 + i + 1)) by {
            assert(text::line_spans(t@, next as int) == lines.skip(1 + i).drop_first());
        }
        let fields = split_tokens(t, line.start, line.end);
        let ghost old_fields = vertex_fields@;
        let nf = fields.len();
        vertex_fields.push(fields);
        assert(fields_view(vertex_fields@) == fields_view(old_fields) + seq![
            text::spans_view(vertex_fields@[i as int]@),
        ]);
        if nf != NUMS_PER_VERTEX_LINE {
            return MeshText {
                vertex_fields,
                indices,
                error: Some(MeshError::WrongVertexFieldCount { got: nf }),
            };
        }
        pos = next;
        i = i + 1;
    }
    assert(vertex_section(t@, lines, vc as int, vc as int).0 == Seq::<Seq<(int, int)>>::empty());
    assert(fields_view(vertex_fields@) == vertex_section(t@, lines, vc as int, 0).0);
    let (tc_line, mut pos) = match next_line(t, pos) {
        None => {
            assert(lines.skip(1 + vc).len() == 0);
            return MeshText {
                vertex_fields,
                indices,
                error: Some(MeshError::MissingTriangleCount),
            };
        },
        Some(l) => l,
    };
    assert(lines.skip(1 + vc).len() > 0);
    assert(lines.skip(1 + vc)[0] == tc_line.view());
    assert(lines[1 + vc] == tc_line.view());
    assert(text::line_spans(t@, pos as int) == lines.skip(2 + vc)) by {
        assert(text::line_spans(t@, pos as int) == lines.skip(1 + vc).drop_first());
    }
    let c = trim_span(t, tc_line.start, tc_line.end);
    let tc = match parse_usize(t, c.start, c.end) {
        Err(kind) => {
            return MeshText {
                vertex_fields,
                indices,
                error: Some(MeshError::InvalidTriangleCount { kind }),
            };
        },
        Ok(v) => v,
    };
    assert(triangle_count(t@) == Some(tc as int));
    assert(fields_view(vertex_fields@) == mesh_spec(t@).0);
    let ghost base = 2 + vc as int;
    let mut j: usize = 0;
    while j < tc
        invariant
            j <= tc,
            pos <= t@.len(),
            lines == text::line_spans(t@, 0),
            base == 2 + vc as int,
            text::line_spans(t@, pos as int) == lines.skip(base + j),
            base + j <= lines.len(),
            indices_view(indices@) + triangle_section(t@, lines, base, tc as int, j as int).0
                == triangle_section(t@, lines, base, tc as int, 0).0,
            triangle_section(t@, lines, base, tc as int, j as int).1 == triangle_section(
                t@,
                lines,
                base,
                tc as int,
                0,
            ).1,
            fields_view(vertex_fields@) == mesh_spec(t@).0,
            mesh_spec(t@).1 == triangle_section(t@, lines, base, tc as int, 0).0,
            mesh_spec(t@).2 == triangle_section(t@, lines, base, tc as int, 0).1,
        decreases tc - j,
    {
        let (line, next) = match next_line(t, pos) {
            None => {
                assert(lines.skip(base + j).len() == 0);
                return MeshText {
                    vertex_fields,
                    indices,
                    error: Some(MeshError::MissingTriangleLine),
                };
            },
            Some(l) => l,
        };
        assert(lines.skip(base + j).len() > 0);
        assert(lines.skip(base + j)[0] == line.view());
        assert(lines[base + j] == line.view());
        assert(text::line_spans(t@, next as int) == lines.skip(base + j + 1)) by {
            assert(text::line_spans(t@, next as int) == lines.skip(base + j).drop_first());
        }
        let fields = split_tokens(t, line.start, line.end);
        let ghost toks = text::token_spans(t@, line.start as int, line.end as int);
        let mut values: Vec<u16> = Vec::new();
        let mut k: usize = 0;
        #[verifier::loop_isolation(false)]
        while k < fields.len()
            invariant
                k <= fields@.len(),
                text::spans_view(fields@) == toks,
                line.end <= t@.len(),
                values@.len() == k,
                forall|q: int|
                    0 <= q < k ==> #[trigger] number::parse_unsigned_spec(t@, toks[q].0, toks[q].1, u16::MAX as int)
                        == Some(values@[q] as int),
            decreases fields@.len() - k,
        {
            let f = fields[k];
            assert(toks[k as int] == f.view());
            match parse_u16(t, f.start, f.end) {
                Err(_) => {
                    assert(number::parse_unsigned_spec(t@, toks[k as int].0, toks[k as int].1, u16::MAX as int) is None);
                    assert(!all_u16(t@, toks));
                    return MeshText { vertex_fields, indices, error: Some(MeshError::InvalidIndex) };
                },
                Ok(v) => {
                    values.push(v);
                },
            }
            k = k + 1;
        }
        assert(all_u16(t@, toks));
        assert(indices_view(values@) == u16_values(t@, toks));
        if values.len() != NUMS_PER_TRIANGLE_LINE {
            return MeshText {
                vertex_fields,
                indices,
                error: Some(MeshError::WrongTriangleIndexCount { got: values.len() }),
            };
        }
        let ghost old_indices = indices@;
        indices.push(values[0]);
        indices.push(values[1]);
        indices.push(values[2]);
        assert(indices_view(indices@) == indices_view(old_indices) + u16_values(t@, toks));
        pos = next;
        j = j + 1;
    }
    assert(triangle_section(t@, lines, base, tc as int, tc as int).0 == Seq::<int>::empty());
    MeshText { vertex_fields, indices, error: None }
}

} // verus!

verus! {

proof fn lemma_vertex_section_shape(t: Seq<char>, lines: Seq<(int, int)>, count: int, k: int)
    requires
        0 <= k <= count,
        t.len() <= usize::MAX,
        forall|q: int| 0 <= q < lines.len() ==> 0 <= (#[trigger] lines[q]).0 <= lines[q].1 <= t.len(),
    ensures
        vertex_section(t, lines, count, k).1 is None ==> vertex_section(t, lines, count, k).0.len()
            == count - k,
        forall|q: int|
            0 <= q < vertex_section(t, lines, count, k).0.len() - 1 ==> (#[trigger] vertex_section(
                t,
                lines,
                count,
                k,
            ).0[q]).len() == NUMS_PER_VERTEX_LINE,
        !(vertex_section(t, lines, count, k).1 matches Some(
            MeshError::WrongVertexFieldCount { .. },
        )) ==> forall|q: int|
            0 <= q < vertex_section(t, lines, count, k).0.len() ==> (#[trigger] vertex_section(
                t,
                lines,
                count,
                k,
            ).0[q]).len() == NUMS_PER_VERTEX_LINE,
        vertex_section(t, lines, count, k).1 matches Some(MeshError::WrongVertexFieldCount { got })
            ==> {
            &&& vertex_section(t, lines, count, k).0.len() > 0
            &&& vertex_section(t, lines, count, k).0.last().len() == got
            &&& got != NUMS_PER_VERTEX_LINE
        },
    decreases count - k,
{
    if k < count && 1 + k < lines.len() {
        let f = text::token_spans(t, lines[1 + k].0, lines[1 + k].1);
        if f.len() == NUMS_PER_VERTEX_LINE {
            lemma_vertex_section_shape(t, lines, count, k + 1);
            let r = vertex_section(t, lines, count, k + 1);
            let s = vertex_section(t, lines, count, k);
            assert(s.0 == seq![f] + r.0);
            assert forall|q: int| 0 <= q < s.0.len() - 1 implies (#[trigger] s.0[q]).len()
                == NUMS_PER_VERTEX_LINE by {
                if q > 0 {
                    assert(s.0[q] == r.0[q - 1]);
                }
            }
            if !(s.1 matches Some(MeshError::WrongVertexFieldCount { .. })) {
                assert forall|q: int| 0 <= q < s.0.len() implies (#[trigger] s.0[q]).len()
                    == NUMS_PER_VERTEX_LINE by {
                    if q > 0 {
                        assert(s.0[q] == r.0[q - 1]);
                    }
                }
            }
            if r.1 is Some && r.1->0 is WrongVertexFieldCount {
                assert(s.0.last() == r.0.last());
            }
        } else {
            assert(lines[1 + k].0 <= lines[1 + k].1 <= t.len());
            text::lemma_token_count_fits(t, lines[1 + k].0, lines[1 + k].1);
            assert(f.len() as usize == f.len());
        }
    }
}

proof fn lemma_triangle_section_shape(
    t: Seq<char>,
    lines: Seq<(int, int)>,
    base: int,
    count: int,
    k: int,
)
    requires
        0 <= k <= count,
    ensures
        triangle_section(t, lines, base, count, k).1 is None ==> triangle_section(
            t,
            lines,
            base,
            count,
            k,
        ).0.len() == 3 * (count - k),
        !(triangle_section(t, lines, base, count, k).1 matches Some(
            MeshError::WrongVertexFieldCount { .. },
        )),
    decreases count - k,
{
    if k < count && base + k < lines.len() {
        lemma_triangle_section_shape(t, lines, base, count, k + 1);
    }
}

/// Law: a mesh text read without a break gives one vertex with eight fields
/// for each vertex that its first line declares, and three indices for each
/// triangle that its triangle count line declares.
pub proof fn law_complete_mesh_shape(t: Seq<char>)
    requires
        t.len() <= usize::MAX,
        mesh_spec(t).2 is None,
    ensures
        vertex_count(t) is Some,
        triangle_count(t) is Some,
        mesh_spec(t).0.len() == vertex_count(t).unwrap(),
        forall|q: int|
            0 <= q < mesh_spec(t).0.len() ==> (#[trigger] mesh_spec(t).0[q]).len()
                == NUMS_PER_VERTEX_LINE,
        mesh_spec(t).1.len() == 3 * triangle_count(t).unwrap(),
{
    let lines = text::line_spans(t, 0);
    text::law_lines_hold_no_newline(t, 0);
    let c = text::trimmed(t, lines[0].0, lines[0].1);
    number::lemma_parsed_in_range(t, c.0, c.1, usize::MAX as int);
    let vc = vertex_count(t).unwrap();
    let c2 = text::trimmed(t, lines[1 + vc].0, lines[1 + vc].1);
    number::lemma_parsed_in_range(t, c2.0, c2.1, usize::MAX as int);
    let tc = triangle_count(t).unwrap();
    lemma_vertex_section_shape(t, lines, vc, 0);
    lemma_triangle_section_shape(t, lines, 2 + vc, tc, 0);
}

/// Law: every vertex line read holds eight fields, but for the last one
/// where the break is a vertex line with another number of fields; that
/// line holds the number of fields that the break reports.
pub proof fn law_vertex_lines_read(t: Seq<char>)
    requires
        t.len() <= usize::MAX,
    ensures
        forall|q: int|
            0 <= q < mesh_spec(t).0.len() - 1 ==> (#[trigger] mesh_spec(t).0[q]).len()
                == NUMS_PER_VERTEX_LINE,
        mesh_spec(t).2 matches Some(MeshError::WrongVertexFieldCount { got }) ==> {
            &&& mesh_spec(t).0.len() > 0
            &&& mesh_spec(t).0.last().len() == got
            &&& got != NUMS_PER_VERTEX_LINE
        },
        !(mesh_spec(t).2 matches Some(MeshError::WrongVertexFieldCount { .. })) ==> forall|q: int|
            0 <= q < mesh_spec(t).0.len() ==> (#[trigger] mesh_spec(t).0[q]).len()
                == NUMS_PER_VERTEX_LINE,
{
    let lines = text::line_spans(t, 0);
    text::law_lines_hold_no_newline(t, 0);
    if lines.len() > 0 && vertex_count(t) is Some {
        let c = text::trimmed(t, lines[0].0, lines[0].1);
        number::lemma_parsed_in_range(t, c.0, c.1, usize::MAX as int);
        let vc = vertex_count(t).unwrap();
        lemma_vertex_section_shape(t, lines, vc, 0);
        if 1 + vc < lines.len() && triangle_count(t) is Some {
            let c2 = text::trimmed(t, lines[1 + vc].0, lines[1 + vc].1);
            number::lemma_parsed_in_range(t, c2.0, c2.1, usize::MAX as int);
            let tc = triangle_count(t).unwrap();
            lemma_triangle_section_shape(t, lines, 2 + vc, tc, 0);
        }
    }
}

proof fn lemma_triangle_section_values(
    t: Seq<char>,
    lines: Seq<(int, int)>,
    base: int,
    count: int,
    k: int,
)
    requires
        0 <= k <= count,
        0 <= base,
        triangle_section(t, lines, base, count, k).1 is None,
    ensures
        forall|l: int|
            base + k <= l < base + count ==> {
                let toks = text::token_spans(t, (#[trigger] lines[l]).0, lines[l].1);
                &&& l < lines.len()
                &&& toks.len() == NUMS_PER_TRIANGLE_LINE
                &&& triangle_section(t, lines, base, count, k).0.subrange(
                    3 * (l - base - k),
                    3 * (l - base - k) + 3,
                ) == seq![
                    number::parse_unsigned_spec(t, toks[0].0, toks[0].1, u16::MAX as int).unwrap(),
                    number::parse_unsigned_spec(t, toks[1].0, toks[1].1, u16::MAX as int).unwrap(),
                    number::parse_unsigned_spec(t, toks[2].0, toks[2].1, u16::MAX as int).unwrap(),
                ]
            },
    decreases count - k,
{
    if k < count {
        let s = triangle_section(t, lines, base, count, k);
        let f = text::token_spans(t, lines[base + k].0, lines[base + k].1);
        let v = u16_values(t, f);
        let r = triangle_section(t, lines, base, count, k + 1);
        assert(s.0 == v + r.0);
        lemma_triangle_section_values(t, lines, base, count, k + 1);
        lemma_triangle_section_shape(t, lines, base, count, k + 1);
        assert forall|l: int| base + k <= l < base + count implies {
            let toks = text::token_spans(t, (#[trigger] lines[l]).0, lines[l].1);
            &&& l < lines.len()
            &&& toks.len() == NUMS_PER_TRIANGLE_LINE
            &&& s.0.subrange(3 * (l - base - k), 3 * (l - base - k) + 3) == seq![
                number::parse_unsigned_spec(t, toks[0].0, toks[0].1, u16::MAX as int).unwrap(),
                number::parse_unsigned_spec(t, toks[1].0, toks[1].1, u16::MAX as int).unwrap(),
                number::parse_unsigned_spec(t, toks[2].0, toks[2].1, u16::MAX as int).unwrap(),
            ]
        } by {
            if l == base + k {
                assert(s.0.subrange(0, 3) =~= v);
            } else {
                let j = l - base - k;
                assert(s.0.subrange(3 * j, 3 * j + 3) =~= r.0.subrange(
                    3 * (l - base - (k + 1)),
                    3 * (l - base - (k + 1)) + 3,
                ));
            }
        }
    }
}

proof fn lemma_vertex_section_fields(t: Seq<char>, lines: Seq<(int, int)>, count: int, k: int)
    requires
        0 <= k <= count,
        vertex_section(t, lines, count, k).1 is None,
    ensures
        vertex_section(t, lines, count, k).0.len() == count - k,
        k < count ==> count < lines.len(),
        forall|l: int|
            1 + k <= l < 1 + count ==> vertex_section(t, lines, count, k).0[l - 1 - k]
                == text::token_spans(t, (#[trigger] lines[l]).0, lines[l].1),
    decreases count - k,
{
    if k < count {
        lemma_vertex_section_fields(t, lines, count, k + 1);
        let s = vertex_section(t, lines, count, k);
        let r = vertex_section(t, lines, count, k + 1);
        let f = text::token_spans(t, lines[1 + k].0, lines[1 + k].1);
        assert(s.0 == seq![f] + r.0);
        assert forall|l: int| 1 + k <= l < 1 + count implies vertex_section(
            t,
            lines,
            count,
            k,
        ).0[l - 1 - k] == text::token_spans(t, (#[trigger] lines[l]).0, lines[l].1) by {
            assert(1 + k < lines.len());
            if l > 1 + k {
                assert(s.0[l - 1 - k] == r.0[l - 1 - (k + 1)]);
                assert(r.0[l - 1 - (k + 1)] == text::token_spans(t, lines[l].0, lines[l].1));
            } else {
                assert(s.0[0] == f);
            }
        }
    }
}

/// Law: a mesh text read without a break gives, for each vertex line
/// (lines `1..=vertex count` of the text), that line's whitespace-separated
/// fields, eight of them, in order; and for each triangle line (the
/// `triangle count` lines after the triangle count line), three indices
/// at positions `3 * j .. 3 * j + 3`: the values of that line's three
/// fields, read as `u16`s, in the order in which they stand.
pub proof fn law_mesh_follows_its_lines(t: Seq<char>)
    requires
        t.len() <= usize::MAX,
        mesh_spec(t).2 is None,
    ensures
        ({
            let lines = text::line_spans(t, 0);
            let vc = vertex_count(t).unwrap();
            let tc = triangle_count(t).unwrap();
            &&& vertex_count(t) is Some
            &&& triangle_count(t) is Some
            &&& mesh_spec(t).0.len() == vc
            &&& forall|l: int|
                1 <= l < 1 + vc ==> {
                    let toks = text::token_spans(t, (#[trigger] lines[l]).0, lines[l].1);
                    &&& l < lines.len()
                    &&& toks.len() == NUMS_PER_VERTEX_LINE
                    &&& mesh_spec(t).0[l - 1] == toks
                }
            &&& mesh_spec(t).1.len() == 3 * tc
            &&& forall|l: int|
                2 + vc <= l < 2 + vc + tc ==> {
                    let toks = text::token_spans(t, (#[trigger] lines[l]).0, lines[l].1);
                    &&& l < lines.len()
                    &&& toks.len() == NUMS_PER_TRIANGLE_LINE
                    &&& mesh_spec(t).1.subrange(3 * (l - 2 - vc), 3 * (l - 2 - vc) + 3) == seq![
                        number::parse_unsigned_spec(t, toks[0].0, toks[0].1, u16::MAX as int).unwrap(),
                        number::parse_unsigned_spec(t, toks[1].0, toks[1].1, u16::MAX as int).unwrap(),
                        number::parse_unsigned_spec(t, toks[2].0, toks[2].1, u16::MAX as int).unwrap(),
                    ]
                }
        }),
{
    law_complete_mesh_shape(t);
    let lines = text::line_spans(t, 0);
    let c = text::trimmed(t, lines[0].0, lines[0].1);
    number::lemma_parsed_in_range(t, c.0, c.1, usize::MAX as int);
    let vc = vertex_count(t).unwrap();
    let c2 = text::trimmed(t, lines[1 + vc].0, lines[1 + vc].1);
    number::lemma_parsed_in_range(t, c2.0, c2.1, usize::MAX as int);
    let tc = triangle_count(t).unwrap();
    lemma_vertex_section_fields(t, lines, vc, 0);
    lemma_triangle_section_values(t, lines, 2 + vc, tc, 0);
    assert forall|l: int| 1 <= l < 1 + vc implies {
        let toks = text::token_spans(t, (#[trigger] lines[l]).0, lines[l].1);
        &&& l < lines.len()
        &&& toks.len() == NUMS_PER_VERTEX_LINE
        &&& mesh_spec(t).0[l - 1] == toks
    } by {
        assert(mesh_spec(t).0[l - 1] == vertex_section(t, lines, vc, 0).0[l - 1 - 0]);
    }
}

} // verus!
