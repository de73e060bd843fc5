//! The control points of a slider path, as a `[HitObjects]` line gives them.
use vstd::prelude::*;

use crate::section::hit_objects::{PathType, SplineType};
use crate::text::{split_by, split_str};

verus! {

/// A control point of a slider path, relative to the slider's position. The
/// positions that a `.osu` file gives are whole numbers.
#[derive(Copy, Clone, Debug, PartialEq, Eq)]
pub struct PathControlPoint {
    pub x: i32,
    pub y: i32,
    pub path_type: Option<PathType>,
}

/// The catmull path type.
pub open spec fn catmull() -> PathType {
    PathType { kind: SplineType::Catmull, degree: None }
}

/// Whether vertex `e` of a segment repeats the one before it and so ends a
/// part of the segment: not past the second vertex of a catmull segment,
/// and not at the last vertex in front of `m`.
pub open spec fn splits_at(pos: Seq<(i32, i32)>, path_type: PathType, m: int, e: int) -> bool {
    1 <= e < m && pos[e] == pos[e - 1] && !(path_type == catmull() && e > 1) && e != m - 1
}

/// Whether vertex `i` carries the segment's path type: the first vertex,
/// and each vertex in front of a split.
pub open spec fn carries_type(pos: Seq<(i32, i32)>, path_type: PathType, m: int, i: int) -> bool {
    i == 0 || splits_at(pos, path_type, m, i + 1)
}

/// The control point of vertex `i`.
pub open spec fn vertex_point(pos: Seq<(i32, i32)>, path_type: PathType, m: int, i: int) -> PathControlPoint {
    PathControlPoint {
        x: pos[i].0,
        y: pos[i].1,
        path_type: if carries_type(pos, path_type, m, i) {
            Some(path_type)
        } else {
            None
        },
    }
}

/// The control points of the first `k` vertices: each vertex but the
/// repeated ones at a split.
pub open spec fn segment_points_upto(pos: Seq<(i32, i32)>, path_type: PathType, m: int, k: int) -> Seq<
    PathControlPoint,
>
    decreases k,
{
    if k <= 0 {
        Seq::empty()
    } else {
        segment_points_upto(pos, path_type, m, k - 1) + if splits_at(pos, path_type, m, k - 1) {
            Seq::empty()
        } else {
            seq![vertex_point(pos, path_type, m, k - 1)]
        }
    }
}

/// The control points that a segment adds to a path: its vertices in front
/// of the end point (at least the first), but the repeated ones at a split.
pub open spec fn spec_segment_points(pos: Seq<(i32, i32)>, path_type: PathType, has_end_point: bool) -> Seq<
    PathControlPoint,
> {
    let m = pos.len() - if has_end_point {
        1int
    } else {
        0int
    };
    segment_points_upto(pos, path_type, m, if m < 1 {
        1
    } else {
        m
    })
}

proof fn lemma_points_block(pos: Seq<(i32, i32)>, path_type: PathType, m: int, a: int, b: int)
    requires
        0 <= a <= b,
        forall|i: int| a <= i < b ==> !#[trigger] splits_at(pos, path_type, m, i),
    ensures
        segment_points_upto(pos, path_type, m, b) == segment_points_upto(pos, path_type, m, a)
            + Seq::new((b - a) as nat, |k: int| vertex_point(pos, path_type, m, a + k)),
    decreases b - a,
{
    if a < b {
        lemma_points_block(pos, path_type, m, a, b - 1);
        assert(!splits_at(pos, path_type, m, b - 1));
        assert(Seq::new((b - 1 - a) as nat, |k: int| vertex_point(pos, path_type, m, a + k)).push(
            vertex_point(pos, path_type, m, b - 1),
        ) =~= Seq::new((b - a) as nat, |k: int| vertex_point(pos, path_type, m, a + k)));
    } else {
        assert(Seq::new(0, |k: int| vertex_point(pos, path_type, m, a + k)) =~= Seq::<
            PathControlPoint,
        >::empty());
    }
}

/// Append the control points of vertices `from..to` to `out`; the first
/// vertex, and with `last_typed` vertex `to - 1`, carry the path type.
fn push_vertices(
    out: &mut Vec<PathControlPoint>,
    positions: &Vec<(i32, i32)>,
    path_type: PathType,
    from: usize,
    to: usize,
    last_typed: bool,
)
    requires
        from <= to <= positions.len(),
    ensures
        final(out)@ == old(out)@ + Seq::new(
            (to - from) as nat,
            |k: int|
                PathControlPoint {
                    x: positions@[from + k].0,
                    y: positions@[from + k].1,
                    path_type: if from + k == 0 || (last_typed && from + k == to - 1) {
                        Some(path_type)
                    } else {
                        None
                    },
                },
        ),
{
    let mut i = from;
    while i < to
        invariant
            from <= i <= to <= positions.len(),
            out@ == old(out)@ + Seq::new(
                (i - from) as nat,
                |k: int|
                    PathControlPoint {
                        x: positions@[from + k].0,
                        y: positions@[from + k].1,
                        path_type: if from + k == 0 || (last_typed && from + k == to - 1) {
                            Some(path_type)
                        } else {
                            None
                        },
                    },
            ),
        decreases to - i,
    {
        let (x, y) = positions[i];
        let typed = i == 0 || (last_typed && i == to - 1);
        out.push(PathControlPoint { x, y, path_type: if typed {
            Some(path_type)
        } else {
            None
        } });
        i = i + 1;
        assert(out@ =~= old(out)@ + Seq::new(
            (i - from) as nat,
            |k: int|
                PathControlPoint {
                    x: positions@[from + k].0,
                    y: positions@[from + k].1,
                    path_type: if from + k == 0 || (last_typed && from + k == to - 1) {
                        Some(path_type)
                    } else {
                        None
                    },
                },
        ));
    }
}

/// Append the control points of one segment of a slider path, given the
/// positions of its vertices (with the end point of the next segment last,
/// if there is one) and its path type, as [`spec_segment_points`].
pub fn segment_points(
    positions: &Vec<(i32, i32)>,
    path_type: PathType,
    has_end_point: bool,
    out: &mut Vec<PathControlPoint>,
)
    requires
        positions.len() >= 1,
    ensures
        final(out)@ == old(out)@ + spec_segment_points(positions@, path_type, has_end_point),
{
    let ghost pos = positions@;
    let end_len: usize = if has_end_point {
        1
    } else {
        0
    };
    let m = positions.len() - end_len;
    let ghost mi = m as int;
    let mut start: usize = 0;
    let mut e: usize = 0;
    assert(out@ =~= old(out)@ + segment_points_upto(pos, path_type, mi, 0));
    loop
        invariant_except_break
            e == 0 || e < m,
        invariant
            pos == positions@,
            mi == m,
            m <= positions.len(),
            start <= e + 1,
            out@ == old(out)@ + segment_points_upto(pos, path_type, mi, start as int),
            forall|j: int| start <= j <= e ==> !#[trigger] splits_at(pos, path_type, mi, j),
        ensures
            out@ == old(out)@ + segment_points_upto(pos, path_type, mi, start as int),
            start <= e,
            e == if m < 1 {
                1
            } else {
                m
            },
            forall|j: int| start <= j < e ==> !#[trigger] splits_at(pos, path_type, mi, j),
        decreases m + 1 - e,
    {
        e = e + 1;
        if !(e < m) {
            break;
        }
        let (x1, y1) = positions[e];
        let (x0, y0) = positions[e - 1];
        if x1 != x0 || y1 != y0 {
            continue;
        }
        if path_type == PathType::new(SplineType::Catmull) && e > 1 {
            continue;
        }
        if e == m - 1 {
            continue;
        }
        assert(splits_at(pos, path_type, mi, e as int));
        proof {
            lemma_points_block(pos, path_type, mi, start as int, e as int);
            assert forall|k: int| 0 <= k < e - start implies (start + k == 0 || (start + k == e
                - 1)) == #[trigger] carries_type(pos, path_type, mi, start + k) by {
                assert(!splits_at(pos, path_type, mi, start + k + 1) || start + k == e - 1);
            }
        }
        push_vertices(out, positions, path_type, start, e, true);
        proof {
            assert(Seq::new(
                (e - start) as nat,
                |k: int|
                    PathControlPoint {
                        x: positions@[start + k].0,
                        y: positions@[start + k].1,
                        path_type: if start + k == 0 || (true && start + k == e - 1) {
                            Some(path_type)
                        } else {
                            None
                        },
                    },
            ) =~= Seq::new((e - start) as nat, |k: int| vertex_point(pos, path_type, mi, start + k)));
            assert(segment_points_upto(pos, path_type, mi, e + 1) =~= segment_points_upto(
                pos,
                path_type,
                mi,
                e as int,
            ));
        }
        start = e + 1;
    }
    if e > start {
        proof {
            lemma_points_block(pos, path_type, mi, start as int, e as int);
            assert forall|k: int| 0 <= k < e - start implies (start + k == 0)
                == #[trigger] carries_type(pos, path_type, mi, start + k) by {
                assert(!splits_at(pos, path_type, mi, start + k + 1));
            }
        }
        push_vertices(out, positions, path_type, start, e, false);
        proof {
            assert(Seq::new(
                (e - start) as nat,
                |k: int|
                    PathControlPoint {
                        x: positions@[start + k].0,
                        y: positions@[start + k].1,
                        path_type: if start + k == 0 || (false && start + k == e - 1) {
                            Some(path_type)
                        } else {
                            None
                        },
                    },
            ) =~= Seq::new((e - start) as nat, |k: int| vertex_point(pos, path_type, mi, start + k)));
        }
    } else {
        assert(start == e);
    }
}

/// The path type that a segment keeps: a perfect curve stays one only with
/// exactly three vertices that are not on a line (else it is linear); with
/// any other number of vertices it becomes a bezier curve.
pub open spec fn spec_segment_path_type(path_type: PathType, vertices: nat, linear: bool) -> PathType {
    if path_type == (PathType { kind: SplineType::PerfectCurve, degree: None }) {
        if vertices == 3 {
            if linear {
                PathType { kind: SplineType::Linear, degree: None }
            } else {
                path_type
            }
        } else {
            PathType { kind: SplineType::BSpline, degree: None }
        }
    } else {
        path_type
    }
}

/// The path type that a segment keeps, as [`spec_segment_path_type`];
/// `linear` tells whether the three vertices lie on a line, and is only read
/// for a perfect curve with three vertices.
pub fn segment_path_type(path_type: PathType, vertices: usize, linear: bool) -> (r: PathType)
    ensures
        r == spec_segment_path_type(path_type, vertices as nat, linear),
{
    if path_type == PathType::new(SplineType::PerfectCurve) {
        if vertices == 3 {
            if linear {
                PathType::new(SplineType::Linear)
            } else {
                path_type
            }
        } else {
            PathType::new(SplineType::BSpline)
        }
    } else {
        path_type
    }
}

/// A segment of the `|`-separated pieces of a slider's path: the pieces
/// `start..end`, of which the first gives the path type and the others are
/// points, the piece that ends it when another segment follows, and whether
/// it is the first segment.
#[derive(Copy, Clone, Debug, PartialEq, Eq)]
pub struct PathSegment {
    pub start: usize,
    pub end: usize,
    pub end_point: Option<usize>,
    pub first: bool,
}

/// Whether `c` is an ASCII letter.
pub open spec fn is_ascii_letter(c: char) -> bool {
    ('a' <= c && c <= 'z') || ('A' <= c && c <= 'Z')
}

/// The segments that closed while scanning pieces `1..k`, where the open
/// segment starts, and whether the scan met an empty piece (and stopped).
/// A piece that starts with a letter closes the open segment and starts the
/// next one.
pub open spec fn scan_segments(pieces: Seq<Seq<char>>, k: int) -> (Seq<PathSegment>, int, bool)
    decreases k,
{
    if k <= 1 {
        (Seq::empty(), 0, false)
    } else {
        let (segs, start, failed) = scan_segments(pieces, k - 1);
        let e = k - 1;
        if failed {
            (segs, start, true)
        } else if pieces[e].len() == 0 {
            (segs, start, true)
        } else if is_ascii_letter(pieces[e][0]) {
            (
                segs.push(
                    PathSegment {
                        start: start as usize,
                        end: e as usize,
                        end_point: if e + 1 < pieces.len() {
                            Some((e + 1) as usize)
                        } else {
                            None
                        },
                        first: segs.len() == 0,
                    },
                ),
                e,
                false,
            )
        } else {
            (segs, start, false)
        }
    }
}

/// The segments of a slider path's pieces, and whether an empty piece
/// stopped the scan (then the segment that was open is left out).
pub open spec fn spec_path_segments(pieces: Seq<Seq<char>>) -> (Seq<PathSegment>, bool) {
    let (segs, start, failed) = scan_segments(pieces, pieces.len() as int);
    if failed {
        (segs, true)
    } else {
        (
            segs.push(
                PathSegment {
                    start: start as usize,
                    end: pieces.len() as usize,
                    end_point: None,
                    first: segs.len() == 0,
                },
            ),
            false,
        )
    }
}

proof fn lemma_scan_failed(pieces: Seq<Seq<char>>, k: int, n: int)
    requires
        k <= n,
        scan_segments(pieces, k).2,
    ensures
        scan_segments(pieces, n).0 == scan_segments(pieces, k).0,
        scan_segments(pieces, n).2,
    decreases n - k,
{
    if k < n {
        lemma_scan_failed(pieces, k, n - 1);
    }
}

proof fn lemma_scan_bounds(pieces: Seq<Seq<char>>, k: int)
    requires
        1 <= k <= pieces.len(),
    ensures
        0 <= scan_segments(pieces, k).1 < k,
    decreases k,
{
    if k > 1 {
        lemma_scan_bounds(pieces, k - 1);
    }
}

/// Split a slider's point text at `|` and find its segments, as
/// [`spec_path_segments`].
pub fn path_segments(point_str: &str) -> (r: (Vec<&str>, Vec<PathSegment>, bool))
    ensures
        r.0@.map_values(|p: &str| p@) == split_by(point_str@, '|'),
        (r.1@, r.2) == spec_path_segments(split_by(point_str@, '|')),
{
    let pieces = split_str(point_str, '|');
    let ghost pv = split_by(point_str@, '|');
    proof {
        assert(pieces@.map_values(|p: &str| p@).len() == pieces@.len());
        assert(pv.len() >= 1) by {
            crate::text::lemma_split_len(point_str@, '|');
        }
    }
    let mut segs: Vec<PathSegment> = Vec::new();
    let mut start: usize = 0;
    let mut e: usize = 0;
    let mut first = true;
    loop
        invariant_except_break
            e + 1 <= pieces.len(),
            scan_segments(pv, (e + 1) as int) == (segs@, start as int, false),
        invariant
            pv == split_by(point_str@, '|'),
            pieces@.map_values(|p: &str| p@) == pv,
            pv.len() == pieces.len(),
            pv.len() >= 1,
            first == (segs@.len() == 0),
            start <= e,
        ensures
            e == pieces.len(),
            scan_segments(pv, e as int) == (segs@, start as int, false),
            first == (segs@.len() == 0),
            start < e,
        decreases pieces.len() - e,
    {
        e = e + 1;
        if !(e < pieces.len()) {
            break;
        }
        let p = pieces[e];
        proof {
            assert(pv[e as int] == p@);
        }
        if p.unicode_len() == 0 {
            proof {
                assert(scan_segments(pv, (e + 1) as int) == (segs@, start as int, true));
                lemma_scan_failed(pv, (e + 1) as int, pv.len() as int);
            }
            return (pieces, segs, true);
        }
        let c = p.get_char(0);
        if !(('a' <= c && c <= 'z') || ('A' <= c && c <= 'Z')) {
            continue;
        }
        let end_point = if e + 1 < pieces.len() {
            Some(e + 1)
        } else {
            None
        };
        segs.push(PathSegment { start, end: e, end_point, first });
        start = e;
        first = false;
    }
    segs.push(PathSegment { start, end: e, end_point: None, first });
    (pieces, segs, false)
}

} // verus!
