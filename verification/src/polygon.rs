//! Polygon geometry extracted from a path query: lenient by design, since
//! polygons are optional geometry and never fatal to record construction.

use vstd::prelude::*;
use crate::errors::ExtractError;
use crate::jsonio::{arr_elems, JsonValue};

verus! {

/// One polygon: the x (longitude) and y (latitude) coordinate texts of its
/// points, pairwise, in point order.
#[derive(Debug, Clone, PartialEq, Eq)]
pub struct Polygon {
    pub xpoints: Vec<String>,
    pub ypoints: Vec<String>,
}

impl Polygon {
    /// Both coordinate lists name the same points.
    pub open spec fn wf(&self) -> bool {
        self.xpoints@.len() == self.ypoints@.len()
    }

    /// The polygon as its two sequences of coordinate texts.
    pub open spec fn model(&self) -> (Seq<Seq<char>>, Seq<Seq<char>>) {
        (self.xpoints@.map_values(|x: String| x@), self.ypoints@.map_values(|y: String| y@))
    }
}

/// A coordinate pair: an array whose first two elements are numbers.
pub open spec fn pair_ok(p: JsonValue) -> bool {
    match p {
        JsonValue::Arr(a) => a@.len() >= 2 && (a@[0] is Num) && (a@[1] is Num),
        _ => false,
    }
}

pub open spec fn pair_x(p: JsonValue) -> Seq<char> {
    match p {
        JsonValue::Arr(a) => match a@[0] {
            JsonValue::Num(n) => n@,
            _ => Seq::empty(),
        },
        _ => Seq::empty(),
    }
}

pub open spec fn pair_y(p: JsonValue) -> Seq<char> {
    match p {
        JsonValue::Arr(a) => match a@[1] {
            JsonValue::Num(n) => n@,
            _ => Seq::empty(),
        },
        _ => Seq::empty(),
    }
}

pub open spec fn all_pairs_ok(pts: Seq<JsonValue>) -> bool {
    forall|i: int| 0 <= i < pts.len() ==> pair_ok(#[trigger] pts[i])
}

/// The polygon a point array denotes, or `None` where some point is not a
/// well-formed coordinate pair.
pub open spec fn spec_polygon(pts: Seq<JsonValue>) -> Option<(Seq<Seq<char>>, Seq<Seq<char>>)> {
    if all_pairs_ok(pts) {
        Some((pts.map_values(|p: JsonValue| pair_x(p)), pts.map_values(|p: JsonValue| pair_y(p))))
    } else {
        None
    }
}

/// Build one polygon from an array of coordinate pairs.
pub fn polygon_of(pts: &Vec<JsonValue>) -> (r: Result<Polygon, ExtractError>)
    ensures
        match r {
            Ok(p) => p.wf() && spec_polygon(pts@) == Some(p.model()),
            Err(e) => spec_polygon(pts@) is None && e == ExtractError::TypeMismatch,
        },
{
    let mut xs: Vec<String> = Vec::new();
    let mut ys: Vec<String> = Vec::new();
    let mut i: usize = 0;
    while i < pts.len()
        invariant
            0 <= i <= pts.len(),
            forall|j: int| 0 <= j < i ==> pair_ok(#[trigger] pts@[j]),
            xs@.len() == i,
            ys@.len() == i,
            xs@.map_values(|x: String| x@) == pts@.subrange(0, i as int).map_values(
                |p: JsonValue| pair_x(p),
            ),
            ys@.map_values(|y: String| y@) == pts@.subrange(0, i as int).map_values(
                |p: JsonValue| pair_y(p),
            ),
        decreases pts.len() - i,
    {
        let ghost prefix = pts@.subrange(0, i as int);
        let ghost prefix1 = pts@.subrange(0, i as int + 1);
        match &pts[i] {
            JsonValue::Arr(a) => {
                if a.len() < 2 {
                    assert(!pair_ok(pts@[i as int]));
                    return Err(ExtractError::TypeMismatch);
                }
                let x: String = match &a[0] {
                    JsonValue::Num(nx) => nx.clone(),
                    _ => {
                        assert(!pair_ok(pts@[i as int]));
                        return Err(ExtractError::TypeMismatch);
                    },
                };
                let y: String = match &a[1] {
                    JsonValue::Num(ny) => ny.clone(),
                    _ => {
                        assert(!pair_ok(pts@[i as int]));
                        return Err(ExtractError::TypeMismatch);
                    },
                };
                xs.push(x);
                ys.push(y);
                assert(pair_x(pts@[i as int]) == x@);
                assert(pair_y(pts@[i as int]) == y@);
            },
            _ => {
                assert(!pair_ok(pts@[i as int]));
                return Err(ExtractError::TypeMismatch);
            },
        }
        i = i + 1;
        proof {
            assert(prefix1.drop_last() =~= prefix);
            assert(prefix1.map_values(|p: JsonValue| pair_x(p)) =~= prefix.map_values(
                |p: JsonValue| pair_x(p),
            ).push(pair_x(prefix1.last())));
            assert(prefix1.map_values(|p: JsonValue| pair_y(p)) =~= prefix.map_values(
                |p: JsonValue| pair_y(p),
            ).push(pair_y(prefix1.last())));
            assert(xs@.map_values(|x: String| x@) =~= prefix1.map_values(
                |p: JsonValue| pair_x(p),
            ));
            assert(ys@.map_values(|y: String| y@) =~= prefix1.map_values(
                |p: JsonValue| pair_y(p),
            ));
        }
    }
    proof {
        assert(pts@.subrange(0, pts@.len() as int) =~= pts@);
        assert(all_pairs_ok(pts@));
    }
    Ok(Polygon { xpoints: xs, ypoints: ys })
}

/// The multi-polygon shape test: the first match is an array whose own first
/// element is again an array.
pub open spec fn is_multi(ms: Seq<JsonValue>) -> bool {
    ms.len() > 0 && match ms[0] {
        JsonValue::Arr(a) => a@.len() > 0 && (a@[0] is Arr),
        _ => false,
    }
}

/// Whether the query matches have the multi-polygon shape.
pub fn is_multi_polygon(ms: &Vec<JsonValue>) -> (r: bool)
    ensures
        r == is_multi(ms@),
{
    if ms.len() == 0 {
        return false;
    }
    match &ms[0] {
        JsonValue::Arr(a) => {
            if a.len() == 0 {
                return false;
            }
            match &a[0] {
                JsonValue::Arr(_) => true,
                _ => false,
            }
        },
        _ => false,
    }
}

/// The polygons of a multi-polygon match list: one per array element, in
/// order, skipping non-array elements; `None` where any element's pairs are
/// malformed.
pub open spec fn spec_multi(ms: Seq<JsonValue>) -> Option<Seq<(Seq<Seq<char>>, Seq<Seq<char>>)>>
    decreases ms.len(),
{
    if ms.len() == 0 {
        Some(Seq::empty())
    } else {
        match spec_multi(ms.drop_last()) {
            None => None,
            Some(init) => match ms.last() {
                JsonValue::Arr(a) => match spec_polygon(a@) {
                    Some(p) => Some(init.push(p)),
                    None => None,
                },
                _ => Some(init),
            },
        }
    }
}

/// What polygon extraction yields for a given match list.
pub open spec fn spec_polygons_extract(ms: Seq<JsonValue>) -> Option<
    Seq<(Seq<Seq<char>>, Seq<Seq<char>>)>,
> {
    if is_multi(ms) {
        spec_multi(ms)
    } else if ms.len() > 0 && (ms[0] is Arr) {
        match spec_polygon(arr_elems(ms[0])) {
            Some(p) => Some(seq![p]),
            None => None,
        }
    } else {
        None
    }
}

/// A failed prefix dooms the whole multi-polygon extraction.
proof fn lemma_multi_prefix_none(ms: Seq<JsonValue>, j: int)
    requires
        0 <= j <= ms.len(),
        spec_multi(ms.subrange(0, j)) is None,
    ensures
        spec_multi(ms) is None,
    decreases ms.len() - j,
{
    if j == ms.len() {
        assert(ms.subrange(0, j) =~= ms);
    } else {
        assert(ms.subrange(0, j + 1).drop_last() =~= ms.subrange(0, j));
        lemma_multi_prefix_none(ms, j + 1);
    }
}

/// Extract polygons from path-query matches, per the multi-polygon shape
/// test; lenient: `None` rather than an error on any malformed shape.
pub fn polygons_of_matches(ms: &Vec<JsonValue>) -> (r: Option<Vec<Polygon>>)
    ensures
        match r {
            Some(ps) => spec_polygons_extract(ms@) == Some(
                ps@.map_values(|p: Polygon| p.model()),
            ) && (forall|i: int| 0 <= i < ps@.len() ==> (#[trigger] ps@[i]).wf()),
            None => spec_polygons_extract(ms@) is None,
        },
{
    if is_multi_polygon(ms) {
        let mut out: Vec<Polygon> = Vec::new();
        let mut i: usize = 0;
        while i < ms.len()
            invariant
                0 <= i <= ms.len(),
                is_multi(ms@),
                spec_multi(ms@.subrange(0, i as int)) == Some(
                    out@.map_values(|p: Polygon| p.model()),
                ),
                forall|k: int| 0 <= k < out@.len() ==> (#[trigger] out@[k]).wf(),
            decreases ms.len() - i,
        {
            let ghost prefix = ms@.subrange(0, i as int);
            let ghost prefix1 = ms@.subrange(0, i as int + 1);
            assert(prefix1.drop_last() =~= prefix);
            assert(prefix1.last() == ms@[i as int]);
            match &ms[i] {
                JsonValue::Arr(a) => {
                    match polygon_of(a) {
                        Ok(p) => {
                            let ghost old_models = out@.map_values(|p: Polygon| p.model());
                            out.push(p);
                            assert(out@.map_values(|p: Polygon| p.model()) =~= old_models.push(
                                p.model(),
                            ));
                        },
                        Err(_) => {
                            proof {
                                assert(spec_multi(prefix1) is None);
                                lemma_multi_prefix_none(ms@, i as int + 1);
                            }
                            return None;
                        },
                    }
                },
                _ => {
                    assert(spec_multi(prefix1) == spec_multi(prefix));
                },
            }
            i = i + 1;
        }
        assert(ms@.subrange(0, ms@.len() as int) =~= ms@);
        Some(out)
    } else if ms.len() > 0 {
        match &ms[0] {
            JsonValue::Arr(a) => {
                match polygon_of(a) {
                    Ok(p) => {
                        let mut v: Vec<Polygon> = Vec::new();
                        v.push(p);
                        assert(v@.map_values(|q: Polygon| q.model()) =~= seq![p.model()]);
                        Some(v)
                    },
                    Err(_) => None,
                }
            },
            _ => None,
        }
    } else {
        None
    }
}

proof fn lemma_spec_multi_all(ms: Seq<JsonValue>)
    requires
        forall|i: int| 0 <= i < ms.len() ==> (#[trigger] ms[i]) is Arr,
        forall|i: int| 0 <= i < ms.len() ==> all_pairs_ok(arr_elems(#[trigger] ms[i])),
    ensures
        spec_multi(ms) is Some,
        spec_multi(ms)->Some_0.len() == ms.len(),
    decreases ms.len(),
{
    if ms.len() > 0 {
        assert(forall|i: int|
            0 <= i < ms.drop_last().len() ==> (#[trigger] ms.drop_last()[i]) is Arr);
        assert(forall|i: int|
            0 <= i < ms.drop_last().len() ==> all_pairs_ok(arr_elems(#[trigger] ms.drop_last()[i])));
        lemma_spec_multi_all(ms.drop_last());
        assert(ms.last() is Arr);
        assert(all_pairs_ok(arr_elems(ms.last())));
        assert(spec_polygon(arr_elems(ms.last())) is Some);
    }
}

/// Where the match list has the multi-polygon shape and every element is an
/// array of well-formed coordinate pairs, extraction yields exactly one
/// polygon per element.
pub proof fn lemma_multi_polygon_count(ms: Seq<JsonValue>)
    requires
        is_multi(ms),
        forall|i: int| 0 <= i < ms.len() ==> (#[trigger] ms[i]) is Arr,
        forall|i: int| 0 <= i < ms.len() ==> all_pairs_ok(arr_elems(#[trigger] ms[i])),
    ensures
        spec_polygons_extract(ms) is Some,
        spec_polygons_extract(ms)->Some_0.len() == ms.len(),
{
    lemma_spec_multi_all(ms);
}

} // verus!
