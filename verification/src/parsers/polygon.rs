//! Polygon face statements: `f` followed by per-vertex index groups.

use vstd::prelude::*;
use crate::parsers::bytes::{lemma_run_len, run_len, ByteClass};
use crate::parsers::integer::{parse_integer, parse_integer_s};
use crate::parsers::whitespace::trim_whitespace;

verus! {

/// One vertex of a polygon: a vertex index with optional texture and
/// normal indices, as written `v`, `v/t`, `v//n` or `v/t/n`.
#[derive(Clone, Copy, PartialEq, Eq, Debug)]
pub struct PolygonVertexIndices {
    pub vertex: usize,
    pub texture_coordinates: Option<usize>,
    pub normal: Option<usize>,
}

/// The exact language of one index group. The `v//n` form is recognised
/// first; otherwise each of `/t` and `/n` is taken only where an integer
/// follows the slash.
pub open spec fn parse_pvi_s(s: Seq<u8>) -> Option<(Seq<u8>, PolygonVertexIndices)> {
    match parse_integer_s(s) {
        None => None,
        Some((r1, v)) => if r1.len() >= 2 && r1[0] == 47 && r1[1] == 47 && parse_integer_s(
            r1.subrange(2, r1.len() as int),
        ) is Some {
            let (r2, nv) = parse_integer_s(r1.subrange(2, r1.len() as int))->0;
            Some(
                (
                    r2,
                    PolygonVertexIndices {
                        vertex: v as usize,
                        texture_coordinates: None,
                        normal: Some(nv as usize),
                    },
                ),
            )
        } else {
            let tstep: (Seq<u8>, Option<usize>) = if r1.len() >= 1 && r1[0] == 47
                && parse_integer_s(r1.subrange(1, r1.len() as int)) is Some {
                let (ra, tv) = parse_integer_s(r1.subrange(1, r1.len() as int))->0;
                (ra, Some(tv as usize))
            } else {
                (r1, None)
            };
            let nstep: (Seq<u8>, Option<usize>) = if tstep.0.len() >= 1 && tstep.0[0] == 47
                && parse_integer_s(tstep.0.subrange(1, tstep.0.len() as int)) is Some {
                let (rb, nv) = parse_integer_s(tstep.0.subrange(1, tstep.0.len() as int))->0;
                (rb, Some(nv as usize))
            } else {
                (tstep.0, None)
            };
            Some(
                (
                    nstep.0,
                    PolygonVertexIndices {
                        vertex: v as usize,
                        texture_coordinates: tstep.1,
                        normal: nstep.1,
                    },
                ),
            )
        },
    }
}

/// Parses one `v[/t][/n]` index group.
pub fn parse_polygon_vertex_indices<'a>(input: &'a [u8]) -> (r: Option<
    (&'a [u8], PolygonVertexIndices),
>)
    ensures
        r is Some <==> parse_pvi_s(input@) is Some,
        r is Some ==> (r->0).0@ == (parse_pvi_s(input@)->0).0 && (r->0).1 == (parse_pvi_s(
            input@,
        )->0).1,
{
    match parse_integer(input) {
        None => None,
        Some((r1, v)) => {
            if r1.len() >= 2 && r1[0] == 47 && r1[1] == 47 {
                let tail = vstd::slice::slice_subrange(r1, 2, r1.len());
                match parse_integer(tail) {
                    Some((r2, nv)) => {
                        return Some((
                            r2,
                            PolygonVertexIndices {
                                vertex: v,
                                texture_coordinates: None,
                                normal: Some(nv),
                            },
                        ));
                    },
                    None => {},
                }
            }
            let mut rest = r1;
            let mut texture: Option<usize> = None;
            if r1.len() >= 1 && r1[0] == 47 {
                let tail = vstd::slice::slice_subrange(r1, 1, r1.len());
                match parse_integer(tail) {
                    Some((ra, tv)) => {
                        rest = ra;
                        texture = Some(tv);
                    },
                    None => {},
                }
            }
            let r2 = rest;
            let mut normal: Option<usize> = None;
            if r2.len() >= 1 && r2[0] == 47 {
                let tail = vstd::slice::slice_subrange(r2, 1, r2.len());
                match parse_integer(tail) {
                    Some((rb, nv)) => {
                        rest = rb;
                        normal = Some(nv);
                    },
                    None => {},
                }
            }
            Some((rest, PolygonVertexIndices { vertex: v, texture_coordinates: texture, normal }))
        },
    }
}

/// An integer's remainder is no longer than its input.
proof fn lemma_int_rest_le(s: Seq<u8>)
    ensures
        parse_integer_s(s) is Some ==> (parse_integer_s(s)->0).0.len() <= s.len(),
{
    lemma_run_len(s, 0, ByteClass::DigitOrUnderscore);
}

/// An index group consumes at least one byte.
proof fn lemma_pvi_consumes(s: Seq<u8>)
    requires
        parse_pvi_s(s) is Some,
    ensures
        (parse_pvi_s(s)->0).0.len() < s.len(),
{
    lemma_run_len(s, 0, ByteClass::DigitOrUnderscore);
    let l = run_len(s, 0, ByteClass::DigitOrUnderscore);
    assert(s.len() >= 1);
    lemma_run_len(s, 1, ByteClass::DigitOrUnderscore);
    assert(l >= 1);
    let r1 = s.subrange(l, s.len() as int);
    let t1 = r1.subrange(2, r1.len() as int);
    let t2 = r1.subrange(1, r1.len() as int);
    lemma_int_rest_le(t1);
    lemma_int_rest_le(t2);
    if parse_integer_s(t2) is Some {
        let ra = (parse_integer_s(t2)->0).0;
        lemma_int_rest_le(ra.subrange(1, ra.len() as int));
        lemma_run_len(t2, 0, ByteClass::DigitOrUnderscore);
    }
}

/// The index groups read one after another, each followed by whitespace,
/// until the first position where no group parses; with the final
/// remainder.
pub open spec fn pvis_from(s: Seq<u8>) -> (Seq<PolygonVertexIndices>, Seq<u8>)
    decreases s.len(),
    via pvis_from_decreases
{
    match parse_pvi_s(s) {
        None => (Seq::empty(), s),
        Some((r, pvi)) => {
            let r2 = r.subrange(run_len(r, 0, ByteClass::Whitespace), r.len() as int);
            let rec = pvis_from(r2);
            (seq![pvi] + rec.0, rec.1)
        },
    }
}

#[via_fn]
proof fn pvis_from_decreases(s: Seq<u8>) {
    if parse_pvi_s(s) is Some {
        lemma_pvi_consumes(s);
        let r = (parse_pvi_s(s)->0).0;
        lemma_run_len(r, 0, ByteClass::Whitespace);
    }
}

/// The indices of one polygon, as parsed from an `f` statement.
#[derive(PartialEq, Eq, Debug)]
pub struct PolygonIndices {
    pub points: Vec<PolygonVertexIndices>,
}

/// The exact language of an `f` statement: the keyword, then one or more
/// whitespace-terminated index groups.
pub open spec fn parse_polygon_indices_s(s: Seq<u8>) -> Option<(
    Seq<u8>,
    Seq<PolygonVertexIndices>,
)> {
    if s.len() == 0 || s[0] != 102 {
        None
    } else {
        let p = 1 + run_len(s, 1, ByteClass::Whitespace);
        let rec = pvis_from(s.subrange(p, s.len() as int));
        if rec.0.len() == 0 {
            None
        } else {
            Some((rec.1, rec.0))
        }
    }
}

/// Parses an `f` statement into the polygon's index groups.
pub fn parse_polygon_indices<'a>(input: &'a [u8]) -> (r: Option<(&'a [u8], PolygonIndices)>)
    ensures
        r is Some <==> parse_polygon_indices_s(input@) is Some,
        r is Some ==> (r->0).0@ == (parse_polygon_indices_s(input@)->0).0 && (r->0).1.points@
            == (parse_polygon_indices_s(input@)->0).1,
{
    if input.len() == 0 {
        return None;
    }
    if input[0] != 102 {
        return None;
    }
    proof {
        lemma_run_len(input@, 1, ByteClass::Whitespace);
    }
    let after_tag = crate::parsers::bytes::scan(input, 1, ByteClass::Whitespace);
    let mut cur = vstd::slice::slice_subrange(input, after_tag, input.len());
    let mut points: Vec<PolygonVertexIndices> = Vec::new();
    proof {
        assert(points@ =~= Seq::<PolygonVertexIndices>::empty());
    }
    loop
        invariant
            points@ + pvis_from(cur@).0 == pvis_from(
                input@.subrange(after_tag as int, input@.len() as int),
            ).0,
            pvis_from(cur@).1 == pvis_from(
                input@.subrange(after_tag as int, input@.len() as int),
            ).1,
        ensures
            points@ == pvis_from(input@.subrange(after_tag as int, input@.len() as int)).0,
            cur@ == pvis_from(input@.subrange(after_tag as int, input@.len() as int)).1,
        decreases cur@.len(),
    {
        match parse_polygon_vertex_indices(cur) {
            None => {
                proof {
                    assert(points@ + pvis_from(cur@).0 =~= points@);
                }
                break;
            },
            Some((r, pvi)) => {
                let ghost old_points = points@;
                points.push(pvi);
                let next = trim_whitespace(r);
                proof {
                    lemma_pvi_consumes(cur@);
                    lemma_run_len(r@, 0, ByteClass::Whitespace);
                    assert(points@ =~= old_points + seq![pvi]);
                    assert(old_points + (seq![pvi] + pvis_from(next@).0) =~= (old_points
                        + seq![pvi]) + pvis_from(next@).0);
                }
                cur = next;
            },
        }
    }
    if points.len() == 0 {
        return None;
    }
    Some((cur, PolygonIndices { points }))
}

} // verus!
