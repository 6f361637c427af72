//! The skybox cube: its eight corners and the 36 indices of its twelve
//! triangles, wound so that every triangle faces the cube's centre, where
//! the view is; and the decoding of its six face images.

use vstd::prelude::*;

verus! {

/// The corners of the cube `[-1, 1]^3`.
pub open spec fn corners_spec() -> Seq<(int, int, int)> {
    seq![
        (-1, -1, -1),
        (1, -1, -1),
        (1, 1, -1),
        (-1, 1, -1),
        (-1, -1, 1),
        (1, -1, 1),
        (1, 1, 1),
        (-1, 1, 1),
    ]
}

/// The corner indices of the cube's triangles, three per triangle.
pub open spec fn indices_spec() -> Seq<u16> {
    seq![
        0u16, 1, 2, 0, 2, 3, 4, 6, 5, 4, 7, 6, 0, 3, 7, 0, 7, 4, 1, 5, 6, 1, 6, 2, 0, 4, 5, 0, 5,
        1, 3, 2, 6, 3, 6, 7,
    ]
}

/// The corners of the cube, as integer coordinates.
pub fn cube_corners() -> (c: Vec<(i8, i8, i8)>)
    ensures
        c@.len() == corners_spec().len(),
        forall|i: int|
            0 <= i < c@.len() ==> (#[trigger] c@[i].0 as int, c@[i].1 as int, c@[i].2 as int)
                == corners_spec()[i],
{
    let c = vec![
        (-1i8, -1i8, -1i8),
        (1, -1, -1),
        (1, 1, -1),
        (-1, 1, -1),
        (-1, -1, 1),
        (1, -1, 1),
        (1, 1, 1),
        (-1, 1, 1),
    ];
    assert(c@.len() == 8);
    c
}

/// The corner indices of the cube's triangles.
pub fn cube_indices() -> (v: Vec<u16>)
    ensures
        v@ == indices_spec(),
{
    let v = vec![
        0u16, 1, 2, 0, 2, 3, 4, 6, 5, 4, 7, 6, 0, 3, 7, 0, 7, 4, 1, 5, 6, 1, 6, 2, 0, 4, 5, 0, 5,
        1, 3, 2, 6, 3, 6, 7,
    ];
    assert(v@ =~= indices_spec());
    v
}

/// The number of indices to draw.
pub fn indices_len() -> (n: u32)
    ensures
        n == indices_spec().len(),
{
    36
}

/// The corner that the `k`-th index names.
pub open spec fn corner_of(k: int) -> (int, int, int) {
    corners_spec()[indices_spec()[k] as int]
}

/// The normal of the `q`-th triangle: the cross product of its two edges
/// from its first corner, in the order in which they are wound.
pub open spec fn normal(q: int) -> (int, int, int) {
    let a = corner_of(3 * q);
    let b = corner_of(3 * q + 1);
    let c = corner_of(3 * q + 2);
    let u = (b.0 - a.0, b.1 - a.1, b.2 - a.2);
    let w = (c.0 - a.0, c.1 - a.1, c.2 - a.2);
    (u.1 * w.2 - u.2 * w.1, u.2 * w.0 - u.0 * w.2, u.0 * w.1 - u.1 * w.0)
}

/// Law: the indices name corners of the cube, three to a triangle, and
/// each triangle's normal points from its first corner towards the centre,
/// so that a view from inside sees every face wound counter-clockwise.
pub proof fn law_faces_point_inward()
    ensures
        indices_spec().len() == 3 * 12,
        forall|k: int| 0 <= k < indices_spec().len() ==> #[trigger] indices_spec()[k] < corners_spec().len(),
        forall|q: int|
            0 <= q < 12 ==> {
                let n = #[trigger] normal(q);
                let a = corner_of(3 * q);
                n.0 * a.0 + n.1 * a.1 + n.2 * a.2 < 0
            },
{
    let s = indices_spec();
    assert(s.len() == 36);
    assert forall|q: int|
        0 <= q < 12 implies {
            let n = #[trigger] normal(q);
            let a = corner_of(3 * q);
            n.0 * a.0 + n.1 * a.1 + n.2 * a.2 < 0
        } by {
        let ghost c = corners_spec();
        let ghost s = indices_spec();
        assert(s[0] == 0u16 && s[1] == 1u16 && s[2] == 2u16 && s[3] == 0u16 && s[4] == 2u16 && s[5] == 3u16 && s[6] == 4u16 && s[7] == 6u16 && s[8] == 5u16 && s[9] == 4u16 && s[10] == 7u16 && s[11] == 6u16 && s[12] == 0u16 && s[13] == 3u16 && s[14] == 7u16 && s[15] == 0u16 && s[16] == 7u16 && s[17] == 4u16 && s[18] == 1u16 && s[19] == 5u16 && s[20] == 6u16 && s[21] == 1u16 && s[22] == 6u16 && s[23] == 2u16 && s[24] == 0u16 && s[25] == 4u16 && s[26] == 5u16 && s[27] == 0u16 && s[28] == 5u16 && s[29] == 1u16 && s[30] == 3u16 && s[31] == 2u16 && s[32] == 6u16 && s[33] == 3u16 && s[34] == 6u16 && s[35] == 7u16);
        assert(c[0] == (-1int, -1int, -1int) && c[1] == (1int, -1int, -1int) && c[2] == (1int, 1int, -1int)
            && c[3] == (-1int, 1int, -1int) && c[4] == (-1int, -1int, 1int) && c[5] == (1int, -1int, 1int)
            && c[6] == (1int, 1int, 1int) && c[7] == (-1int, 1int, 1int));
        if q == 0 {
            assert(corner_of(0) == (-1int, -1int, -1int));
            assert(corner_of(1) == (1int, -1int, -1int));
            assert(corner_of(2) == (1int, 1int, -1int));
            assert(normal(0) == (0int, 0int, 4int)) by (nonlinear_arith)
                requires
                    corner_of(0) == (-1int, -1int, -1int),
                    corner_of(1) == (1int, -1int, -1int),
                    corner_of(2) == (1int, 1int, -1int);
        }
        if q == 1 {
            assert(corner_of(3) == (-1int, -1int, -1int));
            assert(corner_of(4) == (1int, 1int, -1int));
            assert(corner_of(5) == (-1int, 1int, -1int));
            assert(normal(1) == (0int, 0int, 4int)) by (nonlinear_arith)
                requires
                    corner_of(3) == (-1int, -1int, -1int),
                    corner_of(4) == (1int, 1int, -1int),
                    corner_of(5) == (-1int, 1int, -1int);
        }
        if q == 2 {
            assert(corner_of(6) == (-1int, -1int, 1int));
            assert(corner_of(7) == (1int, 1int, 1int));
            assert(corner_of(8) == (1int, -1int, 1int));
            assert(normal(2) == (0int, 0int, -4int)) by (nonlinear_arith)
                requires
                    corner_of(6) == (-1int, -1int, 1int),
                    corner_of(7) == (1int, 1int, 1int),
                    corner_of(8) == (1int, -1int, 1int);
        }
        if q == 3 {
            assert(corner_of(9) == (-1int, -1int, 1int));
            assert(corner_of(10) == (-1int, 1int, 1int));
            assert(corner_of(11) == (1int, 1int, 1int));
            assert(normal(3) == (0int, 0int, -4int)) by (nonlinear_arith)
                requires
                    corner_of(9) == (-1int, -1int, 1int),
                    corner_of(10) == (-1int, 1int, 1int),
                    corner_of(11) == (1int, 1int, 1int);
        }
        if q == 4 {
            assert(corner_of(12) == (-1int, -1int, -1int));
            assert(corner_of(13) == (-1int, 1int, -1int));
            assert(corner_of(14) == (-1int, 1int, 1int));
            assert(normal(4) == (4int, 0int, 0int)) by (nonlinear_arith)
                requires
                    corner_of(12) == (-1int, -1int, -1int),
                    corner_of(13) == (-1int, 1int, -1int),
                    corner_of(14) == (-1int, 1int, 1int);
        }
        if q == 5 {
            assert(corner_of(15) == (-1int, -1int, -1int));
            assert(corner_of(16) == (-1int, 1int, 1int));
            assert(corner_of(17) == (-1int, -1int, 1int));
            assert(normal(5) == (4int, 0int, 0int)) by (nonlinear_arith)
                requires
                    corner_of(15) == (-1int, -1int, -1int),
                    corner_of(16) == (-1int, 1int, 1int),
                    corner_of(17) == (-1int, -1int, 1int);
        }
        if q == 6 {
            assert(corner_of(18) == (1int, -1int, -1int));
            assert(corner_of(19) == (1int, -1int, 1int));
            assert(corner_of(20) == (1int, 1int, 1int));
            assert(normal(6) == (-4int, 0int, 0int)) by (nonlinear_arith)
                requires
                    corner_of(18) == (1int, -1int, -1int),
                    corner_of(19) == (1int, -1int, 1int),
                    corner_of(20) == (1int, 1int, 1int);
        }
        if q == 7 {
            assert(corner_of(21) == (1int, -1int, -1int));
            assert(corner_of(22) == (1int, 1int, 1int));
            assert(corner_of(23) == (1int, 1int, -1int));
            assert(normal(7) == (-4int, 0int, 0int)) by (nonlinear_arith)
                requires
                    corner_of(21) == (1int, -1int, -1int),
                    corner_of(22) == (1int, 1int, 1int),
                    corner_of(23) == (1int, 1int, -1int);
        }
        if q == 8 {
            assert(corner_of(24) == (-1int, -1int, -1int));
            assert(corner_of(25) == (-1int, -1int, 1int));
            assert(corner_of(26) == (1int, -1int, 1int));
            assert(normal(8) == (0int, 4int, 0int)) by (nonlinear_arith)
                requires
                    corner_of(24) == (-1int, -1int, -1int),
                    corner_of(25) == (-1int, -1int, 1int),
                    corner_of(26) == (1int, -1int, 1int);
        }
        if q == 9 {
            assert(corner_of(27) == (-1int, -1int, -1int));
            assert(corner_of(28) == (1int, -1int, 1int));
            assert(corner_of(29) == (1int, -1int, -1int));
            assert(normal(9) == (0int, 4int, 0int)) by (nonlinear_arith)
                requires
                    corner_of(27) == (-1int, -1int, -1int),
                    corner_of(28) == (1int, -1int, 1int),
                    corner_of(29) == (1int, -1int, -1int);
        }
        if q == 10 {
            assert(corner_of(30) == (-1int, 1int, -1int));
            assert(corner_of(31) == (1int, 1int, -1int));
            assert(corner_of(32) == (1int, 1int, 1int));
            assert(normal(10) == (0int, -4int, 0int)) by (nonlinear_arith)
                requires
                    corner_of(30) == (-1int, 1int, -1int),
                    corner_of(31) == (1int, 1int, -1int),
                    corner_of(32) == (1int, 1int, 1int);
        }
        if q == 11 {
            assert(corner_of(33) == (-1int, 1int, -1int));
            assert(corner_of(34) == (1int, 1int, 1int));
            assert(corner_of(35) == (-1int, 1int, 1int));
            assert(normal(11) == (0int, -4int, 0int)) by (nonlinear_arith)
                requires
                    corner_of(33) == (-1int, 1int, -1int),
                    corner_of(34) == (1int, 1int, 1int),
                    corner_of(35) == (-1int, 1int, 1int);
        }
    }
}

/// The `axis`-th coordinate of a point.
pub open spec fn coord(p: (int, int, int), axis: int) -> int {
    if axis == 0 {
        p.0
    } else if axis == 1 {
        p.1
    } else {
        p.2
    }
}

/// Whether the `q`-th triangle lies on the face of the cube where the
/// `axis`-th coordinate is `sign`.
pub open spec fn on_face(q: int, axis: int, sign: int) -> bool {
    &&& coord(corner_of(3 * q), axis) == sign
    &&& coord(corner_of(3 * q + 1), axis) == sign
    &&& coord(corner_of(3 * q + 2), axis) == sign
}

/// Whether the corner `k` is a corner of the `q`-th triangle.
pub open spec fn corner_in_triangle(k: int, q: int) -> bool {
    ||| indices_spec()[3 * q] == k
    ||| indices_spec()[3 * q + 1] == k
    ||| indices_spec()[3 * q + 2] == k
}

/// Whether the triangles `q1` and `q2` are the only ones on the face where
/// the `axis`-th coordinate is `sign`, and hold all four of its corners.
pub open spec fn face_covered_by(axis: int, sign: int, q1: int, q2: int) -> bool {
    &&& 0 <= q1 < q2 < 12
    &&& on_face(q1, axis, sign)
    &&& on_face(q2, axis, sign)
    &&& forall|q: int| 0 <= q < 12 && #[trigger] on_face(q, axis, sign) ==> q == q1 || q == q2
    &&& forall|k: int|
        0 <= k < 8 && #[trigger] coord(corners_spec()[k], axis) == sign ==> corner_in_triangle(
            k,
            q1,
        ) || corner_in_triangle(k, q2)
}

/// Law: each of the six faces of the cube (where the `axis`-th coordinate
/// is `sign`, -1 or 1) is covered by exactly two of the twelve triangles,
/// which together hold its four corners; so no face has a hole and no
/// triangle is drawn twice.
pub proof fn law_each_face_two_triangles(axis: int, sign: int)
    requires
        0 <= axis < 3,
        sign == 1 || sign == -1,
    ensures
        exists|q1: int, q2: int| face_covered_by(axis, sign, q1, q2),
{
    let s = indices_spec();
    let c = corners_spec();
    assert(s[0] == 0u16 && s[1] == 1u16 && s[2] == 2u16 && s[3] == 0u16 && s[4] == 2u16 && s[5] == 3u16 && s[6] == 4u16 && s[7] == 6u16 && s[8] == 5u16 && s[9] == 4u16 && s[10] == 7u16 && s[11] == 6u16 && s[12] == 0u16 && s[13] == 3u16 && s[14] == 7u16 && s[15] == 0u16 && s[16] == 7u16 && s[17] == 4u16 && s[18] == 1u16 && s[19] == 5u16 && s[20] == 6u16 && s[21] == 1u16 && s[22] == 6u16 && s[23] == 2u16 && s[24] == 0u16 && s[25] == 4u16 && s[26] == 5u16 && s[27] == 0u16 && s[28] == 5u16 && s[29] == 1u16 && s[30] == 3u16 && s[31] == 2u16 && s[32] == 6u16 && s[33] == 3u16 && s[34] == 6u16 && s[35] == 7u16);
    assert(c[0] == (-1int, -1int, -1int) && c[1] == (1int, -1int, -1int) && c[2] == (1int, 1int, -1int) && c[3] == (-1int, 1int, -1int) && c[4] == (-1int, -1int, 1int) && c[5] == (1int, -1int, 1int) && c[6] == (1int, 1int, 1int) && c[7] == (-1int, 1int, 1int));
    if axis == 0 && sign == -1 {
        assert(on_face(4, axis, sign) && on_face(5, axis, sign));
        assert forall|q: int| 0 <= q < 12 && #[trigger] on_face(q, axis, sign) implies q == 4 || q == 5 by {
                if q == 0 {
                } else if q == 1 {
                } else if q == 2 {
                } else if q == 3 {
                } else if q == 4 {
                } else if q == 5 {
                } else if q == 6 {
                } else if q == 7 {
                } else if q == 8 {
                } else if q == 9 {
                } else if q == 10 {
                } else if q == 11 {
                }
        }
        assert forall|k: int| 0 <= k < 8 && #[trigger] coord(corners_spec()[k], axis) == sign implies corner_in_triangle(k, 4) || corner_in_triangle(k, 5) by {
                if k == 0 {
                } else if k == 1 {
                } else if k == 2 {
                } else if k == 3 {
                } else if k == 4 {
                } else if k == 5 {
                } else if k == 6 {
                } else if k == 7 {
                }
        }
        assert(face_covered_by(axis, sign, 4, 5));
    } else if axis == 0 && sign == 1 {
        assert(on_face(6, axis, sign) && on_face(7, axis, sign));
        assert forall|q: int| 0 <= q < 12 && #[trigger] on_face(q, axis, sign) implies q == 6 || q == 7 by {
                if q == 0 {
                } else if q == 1 {
                } else if q == 2 {
                } else if q == 3 {
                } else if q == 4 {
                } else if q == 5 {
                } else if q == 6 {
                } else if q == 7 {
                } else if q == 8 {
                } else if q == 9 {
                } else if q == 10 {
                } else if q == 11 {
                }
        }
        assert forall|k: int| 0 <= k < 8 && #[trigger] coord(corners_spec()[k], axis) == sign implies corner_in_triangle(k, 6) || corner_in_triangle(k, 7) by {
                if k == 0 {
                } else if k == 1 {
                } else if k == 2 {
                } else if k == 3 {
                } else if k == 4 {
                } else if k == 5 {
                } else if k == 6 {
                } else if k == 7 {
                }
        }
        assert(face_covered_by(axis, sign, 6, 7));
    } else if axis == 1 && sign == -1 {
        assert(on_face(8, axis, sign) && on_face(9, axis, sign));
        assert forall|q: int| 0 <= q < 12 && #[trigger] on_face(q, axis, sign) implies q == 8 || q == 9 by {
                if q == 0 {
                } else if q == 1 {
                } else if q == 2 {
                } else if q == 3 {
                } else if q == 4 {
                } else if q == 5 {
                } else if q == 6 {
                } else if q == 7 {
                } else if q == 8 {
                } else if q == 9 {
                } else if q == 10 {
                } else if q == 11 {
                }
        }
        assert forall|k: int| 0 <= k < 8 && #[trigger] coord(corners_spec()[k], axis) == sign implies corner_in_triangle(k, 8) || corner_in_triangle(k, 9) by {
                if k == 0 {
                } else if k == 1 {
                } else if k == 2 {
                } else if k == 3 {
                } else if k == 4 {
                } else if k == 5 {
                } else if k == 6 {
                } else if k == 7 {
                }
        }
        assert(face_covered_by(axis, sign, 8, 9));
    } else if axis == 1 && sign == 1 {
        assert(on_face(10, axis, sign) && on_face(11, axis, sign));
        assert forall|q: int| 0 <= q < 12 && #[trigger] on_face(q, axis, sign) implies q == 10 || q == 11 by {
                if q == 0 {
                } else if q == 1 {
                } else if q == 2 {
                } else if q == 3 {
                } else if q == 4 {
                } else if q == 5 {
                } else if q == 6 {
                } else if q == 7 {
                } else if q == 8 {
                } else if q == 9 {
                } else if q == 10 {
                } else if q == 11 {
                }
        }
        assert forall|k: int| 0 <= k < 8 && #[trigger] coord(corners_spec()[k], axis) == sign implies corner_in_triangle(k, 10) || corner_in_triangle(k, 11) by {
                if k == 0 {
                } else if k == 1 {
                } else if k == 2 {
                } else if k == 3 {
                } else if k == 4 {
                } else if k == 5 {
                } else if k == 6 {
                } else if k == 7 {
                }
        }
        assert(face_covered_by(axis, sign, 10, 11));
    } else if axis == 2 && sign == -1 {
        assert(on_face(0, axis, sign) && on_face(1, axis, sign));
        assert forall|q: int| 0 <= q < 12 && #[trigger] on_face(q, axis, sign) implies q == 0 || q == 1 by {
                if q == 0 {
                } else if q == 1 {
                } else if q == 2 {
                } else if q == 3 {
                } else if q == 4 {
                } else if q == 5 {
                } else if q == 6 {
                } else if q == 7 {
                } else if q == 8 {
                } else if q == 9 {
                } else if q == 10 {
                } else if q == 11 {
                }
        }
        assert forall|k: int| 0 <= k < 8 && #[trigger] coord(corners_spec()[k], axis) == sign implies corner_in_triangle(k, 0) || corner_in_triangle(k, 1) by {
                if k == 0 {
                } else if k == 1 {
                } else if k == 2 {
                } else if k == 3 {
                } else if k == 4 {
                } else if k == 5 {
                } else if k == 6 {
                } else if k == 7 {
                }
        }
        assert(face_covered_by(axis, sign, 0, 1));
    } else if axis == 2 && sign == 1 {
        assert(on_face(2, axis, sign) && on_face(3, axis, sign));
        assert forall|q: int| 0 <= q < 12 && #[trigger] on_face(q, axis, sign) implies q == 2 || q == 3 by {
                if q == 0 {
                } else if q == 1 {
                } else if q == 2 {
                } else if q == 3 {
                } else if q == 4 {
                } else if q == 5 {
                } else if q == 6 {
                } else if q == 7 {
                } else if q == 8 {
                } else if q == 9 {
                } else if q == 10 {
                } else if q == 11 {
                }
        }
        assert forall|k: int| 0 <= k < 8 && #[trigger] coord(corners_spec()[k], axis) == sign implies corner_in_triangle(k, 2) || corner_in_triangle(k, 3) by {
                if k == 0 {
                } else if k == 1 {
                } else if k == 2 {
                } else if k == 3 {
                } else if k == 4 {
                } else if k == 5 {
                } else if k == 6 {
                } else if k == 7 {
                }
        }
        assert(face_covered_by(axis, sign, 2, 3));
    }
}

/// The image crate's error type.
#[verifier::external_type_specification]
#[verifier::external_body]
pub struct ExImageError(image::ImageError);

/// What `image::guess_format`, then `image::load_from_memory_with_format`
/// with the format guessed, then `to_rgba8` make of the bytes: the width,
/// the height and the RGBA8 pixel bytes, or `None` where the bytes are not
/// an image that the crate's built-in decoders read. The format is guessed
/// from the magic bytes at the start, with the crate's built-in table only.
pub uninterp spec fn rgba8_decoding(bytes: Seq<u8>) -> Option<(u32, u32, Seq<u8>)>;

/// Decodes an image held in memory into RGBA8 pixels.
///
/// Calls `image::guess_format` (the built-in magic-byte table), then
/// `image::load_from_memory_with_format` with that format (a built-in
/// decoder with the default limits), then `DynamicImage::to_rgba8`, and
/// hands back the width, the height and the pixel bytes. Neither call reads
/// the process-wide decoding hooks, so the contract claims that the outcome
/// is a function of the bytes, named [`rgba8_decoding`]; nothing more.
#[verifier::external_body]
fn decode_rgba8(bytes: &[u8]) -> (r: Result<(u32, u32, Vec<u8>), image::ImageError>)
    ensures
        match r {
            Ok(d) => rgba8_decoding(bytes@) == Some((d.0, d.1, d.2@)),
            Err(_) => rgba8_decoding(bytes@) is None,
        },
{
    match image::guess_format(bytes) {
        Ok(format) => match image::load_from_memory_with_format(bytes, format) {
            Ok(img) => {
                let rgba = img.to_rgba8();
                Ok((rgba.width(), rgba.height(), rgba.into_raw()))
            },
            Err(e) => Err(e),
        },
        Err(e) => Err(e),
    }
}

/// The decoded faces of the skybox.
pub struct CubemapFaces {
    /// The side of each face: the width of the first one.
    pub size: u32,
    /// The RGBA8 pixels of each face, in the order of the faces given.
    pub pixels: Vec<Vec<u8>>,
}

/// A face image that could not be decoded.
pub struct FaceDecodeError {
    /// Its position among the faces.
    pub face: usize,
    /// What the image crate reported.
    pub cause: image::ImageError,
}

/// Whether every face decodes.
pub open spec fn all_faces_decode(faces: Seq<Vec<u8>>) -> bool {
    forall|i: int| 0 <= i < faces.len() ==> (#[trigger] rgba8_decoding(faces[i]@)) is Some
}

/// Decodes the face images in order, stopping at the first that does not
/// decode; the side of the cube is the width of the first face.
pub fn decode_cubemap_faces(faces: &Vec<Vec<u8>>) -> (r: Result<CubemapFaces, FaceDecodeError>)
    requires
        faces@.len() > 0,
    ensures
        r is Ok <==> all_faces_decode(faces@),
        r matches Ok(c) ==> {
            &&& c.pixels@.len() == faces@.len()
            &&& forall|i: int|
                0 <= i < faces@.len() ==> #[trigger] c.pixels@[i]@ == rgba8_decoding(
                    faces@[i]@,
                ).unwrap().2
            &&& c.size == rgba8_decoding(faces@[0]@).unwrap().0
        },
        r matches Err(e) ==> {
            &&& e.face < faces@.len()
            &&& rgba8_decoding(faces@[e.face as int]@) is None
            &&& forall|j: int| 0 <= j < e.face ==> (#[trigger] rgba8_decoding(faces@[j]@)) is Some
        },
{
    let mut pixels: Vec<Vec<u8>> = Vec::new();
    let mut size: u32 = 0;
    let mut i: usize = 0;
    while i < faces.len()
        invariant
            i <= faces@.len(),
            faces@.len() > 0,
            pixels@.len() == i,
            forall|j: int| 0 <= j < i ==> (#[trigger] rgba8_decoding(faces@[j]@)) is Some,
            forall|j: int|
                0 <= j < i ==> #[trigger] pixels@[j]@ == rgba8_decoding(faces@[j]@).unwrap().2,
            i > 0 ==> size == rgba8_decoding(faces@[0]@).unwrap().0,
        decreases faces@.len() - i,
    {
        match decode_rgba8(faces[i].as_slice()) {
            Ok((w, _h, px)) => {
                if i == 0 {
                    size = w;
                }
                pixels.push(px);
            },
            Err(e) => {
                return Err(FaceDecodeError { face: i, cause: e });
            },
        }
        i = i + 1;
    }
    Ok(CubemapFaces { size, pixels })
}

} // verus!
