//! Chain synchronization: resolving a starting point on the remote chain and
//! the event loop's state machine.

use vstd::prelude::*;
use vstd::string::StringExecFns;
use crate::block::Block;
use crate::codec::{
    encode_point, encode_tip, event_at, event_enc, parse_next_block, parse_point, parse_tip,
    point_at, point_enc, tip_at, tip_enc,
};
use crate::error::OgmiosError;
use crate::jsonrpc::{
    encode_request, i32_enc, i32_to_string, is_error_reply, is_result_reply, parse_error_object,
    parse_reply_prelude, reply_error_enc, reply_result_enc, JsonRpcError, JsonRpcRequest,
};
use crate::numeral::dec_rep;
use crate::parse::{expect_lit, lemma_join, lemma_split, lit_at};
use crate::primitives::{plain_str, Point, PointV, Tip, TipV};
use crate::responses::{FindIntersectionResponse, NextBlockResponse, NextBlockV};

verus! {

/// Intersection result: a point confirmed to lie on the remote's chain,
/// paired with the tip observed at confirmation time.
#[derive(Debug, Clone, PartialEq, Eq)]
pub struct Intersection {
    /// The intersection point found.
    pub point: Point,
    /// Current tip.
    pub tip: Tip,
}

/// The view of an optional intersection point.
pub open spec fn intersection_view(o: Option<Point>) -> Option<PointV> {
    match o {
        Option::Some(p) => Some(p@),
        Option::None => None,
    }
}

/// The items of a point list, comma separated.
pub open spec fn points_items(ps: Seq<PointV>) -> Seq<char>
    decreases ps.len(),
{
    if ps.len() == 0 {
        Seq::empty()
    } else if ps.len() == 1 {
        point_enc(ps[0])
    } else {
        points_items(ps.drop_last()) + seq![','] + point_enc(ps.last())
    }
}

/// Canonical text of a point list.
pub open spec fn points_enc(ps: Seq<PointV>) -> Seq<char> {
    seq!['['] + points_items(ps) + seq![']']
}

/// Canonical text of the intersection request's parameters.
pub open spec fn fi_params_enc(ps: Seq<PointV>) -> Seq<char> {
    "{\"points\":"@ + points_enc(ps) + "}"@
}

/// The views of a list of points.
pub open spec fn points_view(ps: Seq<Point>) -> Seq<PointV> {
    ps.map_values(|p: Point| p@)
}

/// Encode a list of points as its canonical text.
pub fn encode_points(points: &Vec<Point>) -> (r: String)
    ensures
        r@ == points_enc(points_view(points@)),
{
    proof {
        reveal_strlit("[");
        reveal_strlit(",");
        reveal_strlit("]");
    }
    let ghost pv = points_view(points@);
    let mut r = "[".to_owned();
    let n = points.len();
    let mut k: usize = 0;
    proof {
        assert(pv.take(0) =~= Seq::<PointV>::empty());
        assert(r@ =~= seq!['['] + points_items(pv.take(0)));
    }
    while k < n
        invariant
            0 <= k <= n == points@.len(),
            pv == points_view(points@),
            pv.len() == n,
            r@ == seq!['['] + points_items(pv.take(k as int)),
        decreases n - k,
    {
        if k > 0 {
            r.append(",");
        }
        let p_str = encode_point(&points[k]);
        r.append(p_str.as_str());
        proof {
            reveal_strlit("[");
            reveal_strlit(",");
            assert(pv[k as int] == points@[k as int]@);
            assert(pv.take(k + 1).drop_last() =~= pv.take(k as int));
            assert(pv.take(k + 1).last() == pv[k as int]);
            if k == 0 {
                assert(pv.take(1).len() == 1);
                assert(pv.take(1)[0] == pv[0]);
                assert(points_items(pv.take(1)) == point_enc(pv.take(1)[0]));
                assert(r@ =~= seq!['['] + points_items(pv.take(k + 1)));
            } else {
                assert(points_items(pv.take(k + 1)) == points_items(pv.take(k as int))
                    + seq![','] + point_enc(pv[k as int]));
                assert(r@ =~= seq!['['] + points_items(pv.take(k + 1)));
            }
        }
        k = k + 1;
    }
    r.append("]");
    proof {
        assert(pv.take(n as int) =~= pv);
        assert(r@ =~= points_enc(pv));
    }
    r
}

/// Encode the intersection request's parameters.
pub fn encode_find_intersection_params(points: &Vec<Point>) -> (r: String)
    ensures
        r@ == fi_params_enc(points_view(points@)),
{
    let mut r = "{\"points\":".to_owned();
    let items = encode_points(points);
    r.append(items.as_str());
    r.append("}");
    proof {
        assert(r@ =~= fi_params_enc(points_view(points@)));
    }
    r
}

/// Build the full intersection request, carrying the candidate points in the
/// caller's order under the given identifier.
pub fn find_intersection_request(id: u64, points: &Vec<Point>) -> (r: String)
    ensures
        r@ == crate::jsonrpc::request_enc(
            "findIntersection"@,
            Some(fi_params_enc(points_view(points@))),
            Some(id),
        ),
{
    let params = encode_find_intersection_params(points);
    let req = JsonRpcRequest::with_id("findIntersection", Some(params), id);
    encode_request(&req)
}

/// Build the next-event request under the given identifier.
pub fn next_block_request(id: u64) -> (r: String)
    ensures
        r@ == crate::jsonrpc::request_enc("nextBlock"@, None, Some(id)),
{
    let req = JsonRpcRequest::with_id("nextBlock", None, id);
    encode_request(&req)
}

/// Canonical text of the intersection result: the common point where one was
/// found, and the tip either way.
pub open spec fn fi_result_enc(intersection: Option<PointV>, tip: TipV) -> Seq<char> {
    match intersection {
        Option::Some(p) => "{\"intersection\":"@ + point_enc(p) + ",\"tip\":"@ + tip_enc(tip)
            + "}"@,
        Option::None => "{\"tip\":"@ + tip_enc(tip) + "}"@,
    }
}

/// The fields of an intersection result are fit for the wire.
pub open spec fn fi_wf(intersection: Option<PointV>, tip: TipV) -> bool {
    &&& (intersection matches Some(p) ==> p.wf())
    &&& tip.wf()
}

/// The canonical text of an intersection result stands in `s` at position
/// `i`.
pub open spec fn fi_at(s: Seq<char>, i: int, intersection: Option<PointV>, tip: TipV) -> bool {
    fi_wf(intersection, tip) && lit_at(s, i, fi_result_enc(intersection, tip))
}

/// Encode an intersection result as its canonical text.
pub fn encode_find_intersection_result(resp: &FindIntersectionResponse) -> (r: String)
    ensures
        r@ == fi_result_enc(intersection_view(resp.intersection), resp.tip@),
{
    match &resp.intersection {
        Option::Some(p) => {
            let mut r = "{\"intersection\":".to_owned();
            let p_str = encode_point(p);
            r.append(p_str.as_str());
            r.append(",\"tip\":");
            let t_str = encode_tip(&resp.tip);
            r.append(t_str.as_str());
            r.append("}");
            proof {
                assert(r@ =~= fi_result_enc(intersection_view(resp.intersection), resp.tip@));
            }
            r
        }
        Option::None => {
            let mut r = "{\"tip\":".to_owned();
            let t_str = encode_tip(&resp.tip);
            r.append(t_str.as_str());
            r.append("}");
            proof {
                assert(r@ =~= fi_result_enc(intersection_view(resp.intersection), resp.tip@));
            }
            r
        }
    }
}

/// Where a found intersection result stands at `i`, its pieces stand at
/// their canonical positions.
proof fn lemma_fi_some_parts(s: Seq<char>, i: int, p: PointV, tip: TipV)
    requires
        fi_at(s, i, Some(p), tip),
    ensures
        ({
            let pl = point_enc(p).len() as int;
            let tl = tip_enc(tip).len() as int;
            &&& lit_at(s, i, "{\"intersection\":"@)
            &&& point_at(s, i + 16, p)
            &&& lit_at(s, i + 16 + pl, ",\"tip\":"@)
            &&& tip_at(s, i + 23 + pl, tip)
            &&& lit_at(s, i + 23 + pl + tl, "}"@)
            &&& fi_result_enc(Some(p), tip).len() == 24 + pl + tl
        }),
{
    reveal_strlit("{\"intersection\":");
    reveal_strlit(",\"tip\":");
    reveal_strlit("}");
    let h = "{\"intersection\":"@;
    let t2 = ",\"tip\":"@;
    let z = "}"@;
    let pe = point_enc(p);
    let te = tip_enc(tip);
    let pl = pe.len() as int;
    let tl = te.len() as int;
    let enc = fi_result_enc(Some(p), tip);
    assert(enc =~= h + (pe + (t2 + (te + z))));
    lemma_split(s, i, h, pe + (t2 + (te + z)));
    lemma_split(s, i + 16, pe, t2 + (te + z));
    lemma_split(s, i + 16 + pl, t2, te + z);
    lemma_split(s, i + 23 + pl, te, z);
}

/// Where a not-found intersection result stands at `i`, its pieces stand at
/// their canonical positions.
proof fn lemma_fi_none_parts(s: Seq<char>, i: int, tip: TipV)
    requires
        fi_at(s, i, None, tip),
    ensures
        ({
            let tl = tip_enc(tip).len() as int;
            &&& lit_at(s, i, "{\"tip\":"@)
            &&& tip_at(s, i + 7, tip)
            &&& lit_at(s, i + 7 + tl, "}"@)
            &&& fi_result_enc(None, tip).len() == 8 + tl
        }),
{
    reveal_strlit("{\"tip\":");
    reveal_strlit("}");
    let h = "{\"tip\":"@;
    let z = "}"@;
    let te = tip_enc(tip);
    let tl = te.len() as int;
    let enc = fi_result_enc(None, tip);
    assert(enc =~= h + (te + z));
    lemma_split(s, i, h, te + z);
    lemma_split(s, i + 7, te, z);
}

/// Parse an intersection result at position `i`.
pub fn parse_fi_result(s: &str, n: usize, i: usize) -> (r: Option<(FindIntersectionResponse, usize)>)
    requires
        i <= n == s@.len(),
    ensures
        (r matches Some((resp, j)) ==> i <= j <= s@.len()
            && fi_wf(intersection_view(resp.intersection), resp.tip@)
            && s@.subrange(i as int, j as int)
                == fi_result_enc(intersection_view(resp.intersection), resp.tip@)),
        (forall|iv: Option<PointV>, tv: TipV| fi_at(s@, i as int, iv, tv) ==>
            (r matches Some((resp, j)) && intersection_view(resp.intersection) == iv
                && resp.tip@ == tv && j == i + fi_result_enc(iv, tv).len())),
{
    proof {
        reveal_strlit("{\"intersection\":");
        reveal_strlit("{\"tip\":");
        reveal_strlit(",\"tip\":");
        reveal_strlit("}");
    }
    if let Some(j0) = expect_lit(s, n, i, "{\"intersection\":") {
        proof {
            assert forall|iv: Option<PointV>, tv: TipV| fi_at(s@, i as int, iv, tv) implies
                iv is Some by {
                if iv is None {
                    lemma_fi_none_parts(s@, i as int, tv);
                    assert(s@[i + 2] == "{\"tip\":"@[2]);
                    assert(s@[i + 2] == s@.subrange(i as int, j0 as int)[2]);
                    assert(false);
                }
            }
        }
        let (p, j1) = match parse_point(s, n, j0) {
            Some(x) => x,
            None => {
                proof {
                    assert forall|iv: Option<PointV>, tv: TipV| !fi_at(s@, i as int, iv, tv) by {
                        if fi_at(s@, i as int, iv, tv) {
                            if let Option::Some(p) = iv {
                                lemma_fi_some_parts(s@, i as int, p, tv);
                            }
                            assert(false);
                        }
                    }
                }
                return None;
            }
        };
        let j2 = match expect_lit(s, n, j1, ",\"tip\":") {
            Some(x) => x,
            None => {
                proof {
                    assert forall|iv: Option<PointV>, tv: TipV| !fi_at(s@, i as int, iv, tv) by {
                        if fi_at(s@, i as int, iv, tv) {
                            if let Option::Some(p) = iv {
                                lemma_fi_some_parts(s@, i as int, p, tv);
                                assert(j1 == j0 + point_enc(p).len());
                            }
                            assert(false);
                        }
                    }
                }
                return None;
            }
        };
        let (t, j3) = match parse_tip(s, n, j2) {
            Some(x) => x,
            None => {
                proof {
                    assert forall|iv: Option<PointV>, tv: TipV| !fi_at(s@, i as int, iv, tv) by {
                        if fi_at(s@, i as int, iv, tv) {
                            if let Option::Some(p) = iv {
                                lemma_fi_some_parts(s@, i as int, p, tv);
                                assert(j1 == j0 + point_enc(p).len());
                                assert(j2 == j1 + 7);
                            }
                            assert(false);
                        }
                    }
                }
                return None;
            }
        };
        let j4 = match expect_lit(s, n, j3, "}") {
            Some(x) => x,
            None => {
                proof {
                    assert forall|iv: Option<PointV>, tv: TipV| !fi_at(s@, i as int, iv, tv) by {
                        if fi_at(s@, i as int, iv, tv) {
                            if let Option::Some(p) = iv {
                                lemma_fi_some_parts(s@, i as int, p, tv);
                                assert(j1 == j0 + point_enc(p).len());
                                assert(j2 == j1 + 7);
                                assert(j3 == j2 + tip_enc(tv).len());
                            }
                            assert(false);
                        }
                    }
                }
                return None;
            }
        };
        let resp = FindIntersectionResponse { intersection: Some(p), tip: t };
        proof {
            lemma_join(s@, i as int, j0 as int, j1 as int);
            lemma_join(s@, i as int, j1 as int, j2 as int);
            lemma_join(s@, i as int, j2 as int, j3 as int);
            lemma_join(s@, i as int, j3 as int, j4 as int);
            assert(s@.subrange(i as int, j4 as int)
                =~= fi_result_enc(intersection_view(resp.intersection), resp.tip@));
            assert forall|iv: Option<PointV>, tv: TipV| fi_at(s@, i as int, iv, tv) implies
                (intersection_view(resp.intersection) == iv && resp.tip@ == tv
                    && j4 == i + fi_result_enc(iv, tv).len()) by {
                if let Option::Some(p2) = iv {
                    lemma_fi_some_parts(s@, i as int, p2, tv);
                    assert(p@ == p2 && j1 == j0 + point_enc(p2).len());
                    assert(j2 == j1 + 7);
                    assert(t@ == tv && j3 == j2 + tip_enc(tv).len());
                }
            }
        }
        return Some((resp, j4));
    }
    if let Some(j0) = expect_lit(s, n, i, "{\"tip\":") {
        proof {
            assert forall|iv: Option<PointV>, tv: TipV| fi_at(s@, i as int, iv, tv) implies
                iv is None by {
                if let Option::Some(p) = iv {
                    lemma_fi_some_parts(s@, i as int, p, tv);
                    assert(s@[i + 2] == "{\"intersection\":"@[2]);
                    assert(s@[i + 2] == s@.subrange(i as int, j0 as int)[2]);
                    assert(false);
                }
            }
        }
        let (t, j1) = match parse_tip(s, n, j0) {
            Some(x) => x,
            None => {
                proof {
                    assert forall|iv: Option<PointV>, tv: TipV| !fi_at(s@, i as int, iv, tv) by {
                        if fi_at(s@, i as int, iv, tv) {
                            if iv is None {
                                lemma_fi_none_parts(s@, i as int, tv);
                            }
                            assert(false);
                        }
                    }
                }
                return None;
            }
        };
        let j2 = match expect_lit(s, n, j1, "}") {
            Some(x) => x,
            None => {
                proof {
                    assert forall|iv: Option<PointV>, tv: TipV| !fi_at(s@, i as int, iv, tv) by {
                        if fi_at(s@, i as int, iv, tv) {
                            if iv is None {
                                lemma_fi_none_parts(s@, i as int, tv);
                                assert(j1 == j0 + tip_enc(tv).len());
                            }
                            assert(false);
                        }
                    }
                }
                return None;
            }
        };
        let resp = FindIntersectionResponse { intersection: None, tip: t };
        proof {
            lemma_join(s@, i as int, j0 as int, j1 as int);
            lemma_join(s@, i as int, j1 as int, j2 as int);
            assert(s@.subrange(i as int, j2 as int)
                =~= fi_result_enc(intersection_view(resp.intersection), resp.tip@));
            assert forall|iv: Option<PointV>, tv: TipV| fi_at(s@, i as int, iv, tv) implies
                (intersection_view(resp.intersection) == iv && resp.tip@ == tv
                    && j2 == i + fi_result_enc(iv, tv).len()) by {
                if iv is None {
                    lemma_fi_none_parts(s@, i as int, tv);
                    assert(t@ == tv && j1 == j0 + tip_enc(tv).len());
                }
            }
        }
        return Some((resp, j2));
    }
    proof {
        assert forall|iv: Option<PointV>, tv: TipV| !fi_at(s@, i as int, iv, tv) by {
            if fi_at(s@, i as int, iv, tv) {
                match iv {
                    Option::Some(p) => {
                        lemma_fi_some_parts(s@, i as int, p, tv);
                    }
                    Option::None => {
                        lemma_fi_none_parts(s@, i as int, tv);
                    }
                }
                assert(false);
            }
        }
    }
    None
}

/// Render a remote error as the message its callers see.
pub fn json_rpc_error_message(e: &JsonRpcError) -> (r: String)
    ensures
        r@ == "JSON-RPC error "@ + i32_enc(e.code as int) + ": "@ + e.message@,
{
    let mut r = "JSON-RPC error ".to_owned();
    let code_str = i32_to_string(e.code);
    r.append(code_str.as_str());
    r.append(": ");
    r.append(e.message.as_str());
    proof {
        assert(r@ =~= "JSON-RPC error "@ + i32_enc(e.code as int) + ": "@ + e.message@);
    }
    r
}

/// Turn an intersection result into the resolver's outcome: the common point
/// with the tip where one was found, and a not-found failure carrying the
/// reported tip — never a generic decode failure — where none was.
pub fn interpret_find_intersection(resp: FindIntersectionResponse) -> (r: Result<
    Intersection,
    OgmiosError,
>)
    ensures
        (resp.intersection matches Some(p) ==> r == Ok::<Intersection, OgmiosError>(
            Intersection { point: p, tip: resp.tip },
        )),
        (resp.intersection is None ==> (r matches Err(e)
            && e == (OgmiosError::IntersectionNotFound { tip: Some(resp.tip) }))),
{
    match resp.intersection {
        Option::Some(point) => Ok(Intersection { point, tip: resp.tip }),
        Option::None => Err(OgmiosError::IntersectionNotFound { tip: Some(resp.tip) }),
    }
}

/// Decode and interpret the reply to an intersection request.
///
/// A found intersection yields the point and tip; a reply without one yields
/// the typed not-found failure carrying the remote's reported tip; a remote
/// error yields the invalid-response failure carrying its code and message.
pub fn interpret_find_intersection_reply(s: &str) -> (r: Result<Intersection, OgmiosError>)
    ensures
        (forall|id: u64, p: PointV, tv: TipV| fi_wf(Some(p), tv)
            && s@ == reply_result_enc(id, fi_result_enc(Some(p), tv)) ==>
            (r matches Ok(x) && x.point@ == p && x.tip@ == tv)),
        (forall|id: u64, tv: TipV| tv.wf()
            && s@ == reply_result_enc(id, fi_result_enc(None, tv)) ==>
            (r matches Err(e) && e matches OgmiosError::IntersectionNotFound { tip }
                && tip matches Some(t) && t@ == tv)),
        (forall|id: u64, code: i32, msg: Seq<char>| plain_str(msg)
            && s@ == reply_error_enc(id, code as int, msg) ==>
            (r matches Err(e) && e matches OgmiosError::InvalidResponse { message }
                && message@ == "JSON-RPC error "@ + i32_enc(code as int) + ": "@ + msg)),
        (r matches Ok(x) ==> is_result_reply(s@, fi_result_enc(Some(x.point@), x.tip@))),
        (r matches Err(e) ==> match e {
            OgmiosError::IntersectionNotFound { tip } => tip matches Some(t)
                && is_result_reply(s@, fi_result_enc(None, t@)),
            OgmiosError::InvalidResponse { message } => is_error_reply(s@, message@),
            OgmiosError::Json(_) => true,
            _ => false,
        }),
{
    proof {
        reveal_strlit("}");
    }
    let n = s.unicode_len();
    match parse_reply_prelude(s, n) {
        Some((id, j, true)) => {
            match parse_fi_result(s, n, j) {
                Some((resp, j2)) => {
                    match expect_lit(s, n, j2, "}") {
                        Some(j3) => {
                            if j3 == n {
                                let ghost resp_g = resp;
                                let out = interpret_find_intersection(resp);
                                proof {
                                    let iv0 = intersection_view(resp_g.intersection);
                                    let tv0 = resp_g.tip@;
                                    lemma_join(s@, 0, j as int, j2 as int);
                                    lemma_join(s@, 0, j2 as int, j3 as int);
                                    assert(s@.subrange(0, j3 as int) =~= s@);
                                    assert(s@.subrange(0, j3 as int) =~= reply_result_enc(
                                        id,
                                        fi_result_enc(iv0, tv0),
                                    ));
                                    assert(s@ == reply_result_enc(id, fi_result_enc(iv0, tv0)));
                                    match resp_g.intersection {
                                        Option::Some(p) => {
                                            assert(is_result_reply(s@, fi_result_enc(
                                                Some(p@),
                                                tv0,
                                            ))) by {
                                                assert(s@ == reply_result_enc(id, fi_result_enc(
                                                    Some(p@),
                                                    tv0,
                                                )));
                                            };
                                        }
                                        Option::None => {
                                            assert(is_result_reply(s@, fi_result_enc(
                                                None::<PointV>,
                                                tv0,
                                            ))) by {
                                                assert(s@ == reply_result_enc(id, fi_result_enc(
                                                    None::<PointV>,
                                                    tv0,
                                                )));
                                            };
                                        }
                                    }
                                    assert forall|id2: u64, iv: Option<PointV>, tv: TipV|
                                        fi_wf(iv, tv) && s@ == reply_result_enc(
                                            id2,
                                            fi_result_enc(iv, tv),
                                        ) implies (match iv {
                                            Option::Some(p) => out matches Ok(x) && x.point@ == p
                                                && x.tip@ == tv,
                                            Option::None => out matches Err(e)
                                                && e matches OgmiosError::IntersectionNotFound {
                                                    tip,
                                                } && tip matches Some(t) && t@ == tv,
                                        }) by {
                                        crate::jsonrpc::lemma_reply_result_parts(
                                            s@,
                                            id2,
                                            fi_result_enc(iv, tv),
                                        );
                                        let dl = dec_rep(id2 as nat).len() as int;
                                        assert(fi_at(s@, 32 + dl, iv, tv));
                                        assert(j == 32 + dl);
                                        assert(intersection_view(resp.intersection) == iv);
                                        assert(resp.tip@ == tv);
                                    }
                                    assert forall|id2: u64, code: i32, msg: Seq<char>|
                                        !(plain_str(msg) && s@ == reply_error_enc(
                                            id2,
                                            code as int,
                                            msg,
                                        )) by {
                                        if plain_str(msg) && s@ == reply_error_enc(
                                            id2,
                                            code as int,
                                            msg,
                                        ) {
                                            crate::jsonrpc::lemma_reply_error_parts(
                                                s@,
                                                id2,
                                                code,
                                                msg,
                                            );
                                            assert(false);
                                        }
                                    }
                                }
                                out
                            } else {
                                proof {
                                    assert forall|id2: u64, iv: Option<PointV>, tv: TipV|
                                        !(fi_wf(iv, tv) && s@ == reply_result_enc(
                                            id2,
                                            fi_result_enc(iv, tv),
                                        )) by {
                                        if fi_wf(iv, tv) && s@ == reply_result_enc(
                                            id2,
                                            fi_result_enc(iv, tv),
                                        ) {
                                            crate::jsonrpc::lemma_reply_result_parts(
                                                s@,
                                                id2,
                                                fi_result_enc(iv, tv),
                                            );
                                            let dl = dec_rep(id2 as nat).len() as int;
                                            assert(fi_at(s@, 32 + dl, iv, tv));
                                            assert(j == 32 + dl);
                                            assert(j2 == j + fi_result_enc(iv, tv).len());
                                            assert(s@.len() == 33 + dl + fi_result_enc(iv, tv).len());
                                            assert(false);
                                        }
                                    }
                                    assert forall|id2: u64, code: i32, msg: Seq<char>|
                                        !(plain_str(msg) && s@ == reply_error_enc(
                                            id2,
                                            code as int,
                                            msg,
                                        )) by {
                                        if plain_str(msg) && s@ == reply_error_enc(
                                            id2,
                                            code as int,
                                            msg,
                                        ) {
                                            assert(false);
                                        }
                                    }
                                }
                                Err(OgmiosError::Json("malformed reply".to_owned()))
                            }
                        }
                        None => {
                            proof {
                                assert forall|id2: u64, iv: Option<PointV>, tv: TipV|
                                    !(fi_wf(iv, tv) && s@ == reply_result_enc(
                                        id2,
                                        fi_result_enc(iv, tv),
                                    )) by {
                                    if fi_wf(iv, tv) && s@ == reply_result_enc(
                                        id2,
                                        fi_result_enc(iv, tv),
                                    ) {
                                        crate::jsonrpc::lemma_reply_result_parts(
                                            s@,
                                            id2,
                                            fi_result_enc(iv, tv),
                                        );
                                        let dl = dec_rep(id2 as nat).len() as int;
                                        assert(fi_at(s@, 32 + dl, iv, tv));
                                        assert(j == 32 + dl);
                                        assert(j2 == j + fi_result_enc(iv, tv).len());
                                        assert(false);
                                    }
                                }
                                assert forall|id2: u64, code: i32, msg: Seq<char>|
                                    !(plain_str(msg) && s@ == reply_error_enc(id2, code as int, msg))
                                    by {
                                    if plain_str(msg) && s@ == reply_error_enc(id2, code as int, msg) {
                                        crate::jsonrpc::lemma_reply_error_parts(s@, id2, code, msg);
                                        assert(false);
                                    }
                                }
                            }
                            Err(OgmiosError::Json("malformed reply".to_owned()))
                        }
                    }
                }
                None => {
                    proof {
                        assert forall|id2: u64, iv: Option<PointV>, tv: TipV|
                            !(fi_wf(iv, tv) && s@ == reply_result_enc(id2, fi_result_enc(iv, tv)))
                            by {
                            if fi_wf(iv, tv) && s@ == reply_result_enc(id2, fi_result_enc(iv, tv)) {
                                crate::jsonrpc::lemma_reply_result_parts(
                                    s@,
                                    id2,
                                    fi_result_enc(iv, tv),
                                );
                                let dl = dec_rep(id2 as nat).len() as int;
                                assert(fi_at(s@, 32 + dl, iv, tv));
                                assert(j == 32 + dl);
                                assert(false);
                            }
                        }
                        assert forall|id2: u64, code: i32, msg: Seq<char>|
                            !(plain_str(msg) && s@ == reply_error_enc(id2, code as int, msg)) by {
                            if plain_str(msg) && s@ == reply_error_enc(id2, code as int, msg) {
                                crate::jsonrpc::lemma_reply_error_parts(s@, id2, code, msg);
                                assert(false);
                            }
                        }
                    }
                    Err(OgmiosError::Json("malformed reply".to_owned()))
                }
            }
        }
        Some((id, j, false)) => {
            match parse_error_object(s, n, j) {
                Some((e, j2)) => {
                    match expect_lit(s, n, j2, "}") {
                        Some(j3) => {
                            if j3 == n {
                                let message = json_rpc_error_message(&e);
                                proof {
                                    assert forall|id2: u64, iv: Option<PointV>, tv: TipV|
                                        !(fi_wf(iv, tv) && s@ == reply_result_enc(
                                            id2,
                                            fi_result_enc(iv, tv),
                                        )) by {
                                        if fi_wf(iv, tv) && s@ == reply_result_enc(
                                            id2,
                                            fi_result_enc(iv, tv),
                                        ) {
                                            crate::jsonrpc::lemma_reply_result_parts(
                                                s@,
                                                id2,
                                                fi_result_enc(iv, tv),
                                            );
                                            assert(false);
                                        }
                                    }
                                    assert forall|id2: u64, code: i32, msg: Seq<char>|
                                        (plain_str(msg) && s@ == reply_error_enc(
                                            id2,
                                            code as int,
                                            msg,
                                        )) implies (e.code == code && e.message@ == msg) by {
                                        crate::jsonrpc::lemma_reply_error_parts(s@, id2, code, msg);
                                        let dl = dec_rep(id2 as nat).len() as int;
                                        assert(crate::jsonrpc::err_obj_at(s@, 31 + dl, code, msg));
                                        assert(j == 31 + dl);
                                    }
                                }
                                proof {
                                    lemma_join(s@, 0, j as int, j2 as int);
                                    lemma_join(s@, 0, j2 as int, j3 as int);
                                    assert(s@.subrange(0, j3 as int) =~= s@);
                                    assert(s@.subrange(0, j3 as int) =~= reply_error_enc(
                                        id,
                                        e.code as int,
                                        e.message@,
                                    ));
                                    assert(is_error_reply(s@, message@)) by {
                                        assert(plain_str(e.message@)
                                            && s@ == reply_error_enc(id, e.code as int, e.message@)
                                            && message@ == "JSON-RPC error "@
                                                + i32_enc(e.code as int) + ": "@ + e.message@);
                                    };
                                }
                                Err(OgmiosError::InvalidResponse { message })
                            } else {
                                proof {
                                    assert forall|id2: u64, iv: Option<PointV>, tv: TipV|
                                        !(fi_wf(iv, tv) && s@ == reply_result_enc(
                                            id2,
                                            fi_result_enc(iv, tv),
                                        )) by {
                                        if fi_wf(iv, tv) && s@ == reply_result_enc(
                                            id2,
                                            fi_result_enc(iv, tv),
                                        ) {
                                            assert(false);
                                        }
                                    }
                                    assert forall|id2: u64, code: i32, msg: Seq<char>|
                                        !(plain_str(msg) && s@ == reply_error_enc(
                                            id2,
                                            code as int,
                                            msg,
                                        )) by {
                                        if plain_str(msg) && s@ == reply_error_enc(
                                            id2,
                                            code as int,
                                            msg,
                                        ) {
                                            crate::jsonrpc::lemma_reply_error_parts(s@, id2, code, msg);
                                            let dl = dec_rep(id2 as nat).len() as int;
                                            assert(crate::jsonrpc::err_obj_at(s@, 31 + dl, code, msg));
                                            assert(j == 31 + dl);
                                            assert(j2 == j + crate::jsonrpc::err_obj_enc(code as int, msg).len());
                                            assert(s@.len() == 32 + dl + crate::jsonrpc::err_obj_enc(code as int, msg).len());
                                            assert(false);
                                        }
                                    }
                                }
                                Err(OgmiosError::Json("malformed reply".to_owned()))
                            }
                        }
                        None => {
                                proof {
                                    assert forall|id2: u64, iv: Option<PointV>, tv: TipV|
                                        !(fi_wf(iv, tv) && s@ == reply_result_enc(
                                            id2,
                                            fi_result_enc(iv, tv),
                                        )) by {
                                        if fi_wf(iv, tv) && s@ == reply_result_enc(
                                            id2,
                                            fi_result_enc(iv, tv),
                                        ) {
                                            assert(false);
                                        }
                                    }
                                    assert forall|id2: u64, code: i32, msg: Seq<char>|
                                        !(plain_str(msg) && s@ == reply_error_enc(
                                            id2,
                                            code as int,
                                            msg,
                                        )) by {
                                        if plain_str(msg) && s@ == reply_error_enc(
                                            id2,
                                            code as int,
                                            msg,
                                        ) {
                                            crate::jsonrpc::lemma_reply_error_parts(s@, id2, code, msg);
                                            let dl = dec_rep(id2 as nat).len() as int;
                                            assert(crate::jsonrpc::err_obj_at(s@, 31 + dl, code, msg));
                                            assert(j == 31 + dl);
                                            assert(j2 == j + crate::jsonrpc::err_obj_enc(code as int, msg).len());
                                            assert(s@.len() == 32 + dl + crate::jsonrpc::err_obj_enc(code as int, msg).len());
                                            assert(false);
                                        }
                                    }
                                }
                            Err(OgmiosError::Json("malformed reply".to_owned()))
                        }
                    }
                }
                None => {
                    proof {
                        assert forall|id2: u64, iv: Option<PointV>, tv: TipV|
                            !(fi_wf(iv, tv) && s@ == reply_result_enc(id2, fi_result_enc(iv, tv)))
                            by {
                            if fi_wf(iv, tv) && s@ == reply_result_enc(id2, fi_result_enc(iv, tv)) {
                                crate::jsonrpc::lemma_reply_result_parts(
                                    s@,
                                    id2,
                                    fi_result_enc(iv, tv),
                                );
                                assert(false);
                            }
                        }
                        assert forall|id2: u64, code: i32, msg: Seq<char>|
                            !(plain_str(msg) && s@ == reply_error_enc(id2, code as int, msg)) by {
                            if plain_str(msg) && s@ == reply_error_enc(id2, code as int, msg) {
                                crate::jsonrpc::lemma_reply_error_parts(s@, id2, code, msg);
                                let dl = dec_rep(id2 as nat).len() as int;
                                assert(crate::jsonrpc::err_obj_at(s@, 31 + dl, code, msg));
                                assert(j == 31 + dl);
                                assert(false);
                            }
                        }
                    }
                    Err(OgmiosError::Json("malformed reply".to_owned()))
                }
            }
        }
        None => {
            proof {
                assert forall|id2: u64, iv: Option<PointV>, tv: TipV|
                    !(fi_wf(iv, tv) && s@ == reply_result_enc(id2, fi_result_enc(iv, tv))) by {
                    if fi_wf(iv, tv) && s@ == reply_result_enc(id2, fi_result_enc(iv, tv)) {
                        assert(false);
                    }
                }
                assert forall|id2: u64, code: i32, msg: Seq<char>|
                    !(plain_str(msg) && s@ == reply_error_enc(id2, code as int, msg)) by {
                    if plain_str(msg) && s@ == reply_error_enc(id2, code as int, msg) {
                        assert(false);
                    }
                }
            }
            Err(OgmiosError::Json("malformed reply".to_owned()))
        }
    }
}

/// Decode and interpret the reply to a next-event request.
///
/// A result yields the chain event exactly as encoded; a remote error yields
/// the invalid-response failure carrying its code and message.
pub fn interpret_next_block_reply(s: &str) -> (r: Result<NextBlockResponse, OgmiosError>)
    ensures
        (forall|id: u64, ev: NextBlockV| ev.wf()
            && s@ == reply_result_enc(id, event_enc(ev)) ==>
            (r matches Ok(e) && e@ == ev)),
        (forall|id: u64, code: i32, msg: Seq<char>| plain_str(msg)
            && s@ == reply_error_enc(id, code as int, msg) ==>
            (r matches Err(e) && e matches OgmiosError::InvalidResponse { message }
                && message@ == "JSON-RPC error "@ + i32_enc(code as int) + ": "@ + msg)),
        (r matches Ok(e) ==> e@.wf() && is_result_reply(s@, event_enc(e@))),
        (r matches Err(e) ==> match e {
            OgmiosError::InvalidResponse { message } => is_error_reply(s@, message@),
            OgmiosError::Json(_) => true,
            _ => false,
        }),
{
    proof {
        reveal_strlit("}");
    }
    let n = s.unicode_len();
    match parse_reply_prelude(s, n) {
        Some((id, j, true)) => {
            match parse_next_block(s, n, j) {
                Some((event, j2)) => {
                    match expect_lit(s, n, j2, "}") {
                        Some(j3) => {
                            if j3 == n {
                                proof {
                                    lemma_join(s@, 0, j as int, j2 as int);
                                    lemma_join(s@, 0, j2 as int, j3 as int);
                                    assert(s@.subrange(0, j3 as int) =~= s@);
                                    assert(s@.subrange(0, j3 as int) =~= reply_result_enc(
                                        id,
                                        event_enc(event@),
                                    ));
                                    assert(is_result_reply(s@, event_enc(event@))) by {
                                        assert(s@ == reply_result_enc(id, event_enc(event@)));
                                    };
                                    assert forall|id2: u64, ev: NextBlockV| ev.wf()
                                        && s@ == reply_result_enc(id2, event_enc(ev)) implies
                                        event@ == ev by {
                                        crate::jsonrpc::lemma_reply_result_parts(
                                            s@,
                                            id2,
                                            event_enc(ev),
                                        );
                                        let dl = dec_rep(id2 as nat).len() as int;
                                        assert(event_at(s@, 32 + dl, ev));
                                        assert(j == 32 + dl);
                                    }
                                }
                                Ok(event)
                            } else {
                                proof {
                                    assert forall|id2: u64, ev: NextBlockV| !(ev.wf()
                                        && s@ == reply_result_enc(id2, event_enc(ev))) by {
                                        if ev.wf() && s@ == reply_result_enc(id2, event_enc(ev)) {
                                            crate::jsonrpc::lemma_reply_result_parts(
                                                s@,
                                                id2,
                                                event_enc(ev),
                                            );
                                            let dl = dec_rep(id2 as nat).len() as int;
                                            assert(event_at(s@, 32 + dl, ev));
                                            assert(j == 32 + dl);
                                            assert(j2 == j + event_enc(ev).len());
                                            assert(s@.len() == 33 + dl + event_enc(ev).len());
                                            assert(false);
                                        }
                                    }
                                }
                                Err(OgmiosError::Json("malformed reply".to_owned()))
                            }
                        }
                        None => {
                            proof {
                                assert forall|id2: u64, ev: NextBlockV| !(ev.wf()
                                    && s@ == reply_result_enc(id2, event_enc(ev))) by {
                                    if ev.wf() && s@ == reply_result_enc(id2, event_enc(ev)) {
                                        crate::jsonrpc::lemma_reply_result_parts(
                                            s@,
                                            id2,
                                            event_enc(ev),
                                        );
                                        let dl = dec_rep(id2 as nat).len() as int;
                                        assert(event_at(s@, 32 + dl, ev));
                                        assert(j == 32 + dl);
                                        assert(j2 == j + event_enc(ev).len());
                                        assert(false);
                                    }
                                }
                            }
                            Err(OgmiosError::Json("malformed reply".to_owned()))
                        }
                    }
                }
                None => {
                    proof {
                        assert forall|id2: u64, ev: NextBlockV| !(ev.wf()
                            && s@ == reply_result_enc(id2, event_enc(ev))) by {
                            if ev.wf() && s@ == reply_result_enc(id2, event_enc(ev)) {
                                crate::jsonrpc::lemma_reply_result_parts(s@, id2, event_enc(ev));
                                let dl = dec_rep(id2 as nat).len() as int;
                                assert(event_at(s@, 32 + dl, ev));
                                assert(j == 32 + dl);
                                assert(false);
                            }
                        }
                    }
                    Err(OgmiosError::Json("malformed reply".to_owned()))
                }
            }
        }
        Some((id, j, false)) => {
            match parse_error_object(s, n, j) {
                Some((e, j2)) => {
                    match expect_lit(s, n, j2, "}") {
                        Some(j3) => {
                            if j3 == n {
                                let message = json_rpc_error_message(&e);
                                proof {
                                    assert forall|id2: u64, code: i32, msg: Seq<char>|
                                        (plain_str(msg) && s@ == reply_error_enc(
                                            id2,
                                            code as int,
                                            msg,
                                        )) implies (e.code == code && e.message@ == msg) by {
                                        crate::jsonrpc::lemma_reply_error_parts(s@, id2, code, msg);
                                        let dl = dec_rep(id2 as nat).len() as int;
                                        assert(crate::jsonrpc::err_obj_at(s@, 31 + dl, code, msg));
                                        assert(j == 31 + dl);
                                    }
                                }
                                proof {
                                    lemma_join(s@, 0, j as int, j2 as int);
                                    lemma_join(s@, 0, j2 as int, j3 as int);
                                    assert(s@.subrange(0, j3 as int) =~= s@);
                                    assert(s@.subrange(0, j3 as int) =~= reply_error_enc(
                                        id,
                                        e.code as int,
                                        e.message@,
                                    ));
                                    assert(is_error_reply(s@, message@)) by {
                                        assert(plain_str(e.message@)
                                            && s@ == reply_error_enc(id, e.code as int, e.message@)
                                            && message@ == "JSON-RPC error "@
                                                + i32_enc(e.code as int) + ": "@ + e.message@);
                                    };
                                }
                                Err(OgmiosError::InvalidResponse { message })
                            } else {
                                proof {
                                    assert forall|id2: u64, code: i32, msg: Seq<char>|
                                        !(plain_str(msg) && s@ == reply_error_enc(
                                            id2,
                                            code as int,
                                            msg,
                                        )) by {
                                        if plain_str(msg) && s@ == reply_error_enc(
                                            id2,
                                            code as int,
                                            msg,
                                        ) {
                                            crate::jsonrpc::lemma_reply_error_parts(s@, id2, code, msg);
                                            let dl = dec_rep(id2 as nat).len() as int;
                                            assert(crate::jsonrpc::err_obj_at(s@, 31 + dl, code, msg));
                                            assert(j == 31 + dl);
                                            assert(j2 == j + crate::jsonrpc::err_obj_enc(
                                                code as int,
                                                msg,
                                            ).len());
                                            assert(s@.len() == 32 + dl + crate::jsonrpc::err_obj_enc(
                                                code as int,
                                                msg,
                                            ).len());
                                            assert(false);
                                        }
                                    }
                                }
                                Err(OgmiosError::Json("malformed reply".to_owned()))
                            }
                        }
                        None => {
                            proof {
                                assert forall|id2: u64, code: i32, msg: Seq<char>|
                                    !(plain_str(msg) && s@ == reply_error_enc(id2, code as int, msg))
                                    by {
                                    if plain_str(msg) && s@ == reply_error_enc(id2, code as int, msg) {
                                        crate::jsonrpc::lemma_reply_error_parts(s@, id2, code, msg);
                                        let dl = dec_rep(id2 as nat).len() as int;
                                        assert(crate::jsonrpc::err_obj_at(s@, 31 + dl, code, msg));
                                        assert(j == 31 + dl);
                                        assert(j2 == j + crate::jsonrpc::err_obj_enc(
                                            code as int,
                                            msg,
                                        ).len());
                                        assert(false);
                                    }
                                }
                            }
                            Err(OgmiosError::Json("malformed reply".to_owned()))
                        }
                    }
                }
                None => {
                    proof {
                        assert forall|id2: u64, code: i32, msg: Seq<char>|
                            !(plain_str(msg) && s@ == reply_error_enc(id2, code as int, msg)) by {
                            if plain_str(msg) && s@ == reply_error_enc(id2, code as int, msg) {
                                crate::jsonrpc::lemma_reply_error_parts(s@, id2, code, msg);
                                let dl = dec_rep(id2 as nat).len() as int;
                                assert(crate::jsonrpc::err_obj_at(s@, 31 + dl, code, msg));
                                assert(j == 31 + dl);
                                assert(false);
                            }
                        }
                    }
                    Err(OgmiosError::Json("malformed reply".to_owned()))
                }
            }
        }
        None => {
            Err(OgmiosError::Json("malformed reply".to_owned()))
        }
    }
}

/// The points to resume from: the caller's list, or the origin alone where
/// none was given.
pub fn resume_points(points: Option<Vec<Point>>) -> (r: Vec<Point>)
    ensures
        match points {
            Option::Some(ps) => r == ps,
            Option::None => r@.len() == 1 && r@[0]@ == PointV::Origin,
        },
{
    match points {
        Option::Some(ps) => ps,
        Option::None => {
            let mut v = Vec::new();
            v.push(Point::origin());
            v
        }
    }
}

/// Message handlers for chain-synchronization events: one capability for
/// each direction of chain progression, implemented by the caller.
pub trait ChainSynchronizationMessageHandlers {
    /// Called when a new block extends the chain (roll forward).
    fn on_roll_forward(&mut self, block: Block, tip: Tip) -> Result<(), OgmiosError>;

    /// Called when the chain retracts to an earlier point (roll backward).
    fn on_roll_backward(&mut self, point: Point, tip: Tip) -> Result<(), OgmiosError>;
}

/// Options for creating a chain synchronization client.
#[derive(Debug, Clone, PartialEq, Eq)]
pub struct ChainSynchronizationClientOptions {
    /// Process events strictly one at a time (the default and only
    /// implemented behaviour: a new request is not issued until the previous
    /// event's handler has returned).
    pub sequential: bool,
}

impl Default for ChainSynchronizationClientOptions {
    /// The default options: sequential consumption.
    fn default() -> (r: Self)
        ensures
            r.sequential,
    {
        ChainSynchronizationClientOptions { sequential: true }
    }
}

/// The lifecycle of one synchronization loop.
#[derive(Debug, Clone, PartialEq, Eq)]
pub enum RunState {
    /// No loop has been started.
    NotStarted,
    /// The loop is consuming events.
    Running,
    /// The loop ended deliberately: shutdown, or the socket closed.
    Stopped,
    /// The loop ended on a failure, preserved for the caller.
    Failed(OgmiosError),
}

/// What the loop's driver must do next.
#[derive(Debug, Clone, PartialEq, Eq)]
pub enum SyncAction {
    /// Issue the next-event request.
    RequestNext,
    /// Invoke the forward handler with the new block and the tip.
    DispatchForward(Block, Tip),
    /// Invoke the backward handler with the rollback point and the tip.
    DispatchBackward(Point, Tip),
    /// Do not issue any further request.
    Stop,
}

/// The synchronization loop's state machine.  The driver performs the
/// returned actions — issuing requests and invoking handlers — and reports
/// their outcomes back; every transition is decided here.
pub struct SyncEngine {
    /// The loop's lifecycle state.
    pub state: RunState,
    /// How many forward events have been dispatched since the last start.
    pub forward_dispatches: u64,
    /// How many backward events have been dispatched since the last start.
    pub backward_dispatches: u64,
}

impl SyncEngine {
    /// A fresh engine: nothing started, nothing dispatched.
    pub fn new() -> (r: Self)
        ensures
            r.state is NotStarted,
            r.forward_dispatches == 0,
            r.backward_dispatches == 0,
    {
        SyncEngine { state: RunState::NotStarted, forward_dispatches: 0, backward_dispatches: 0 }
    }

    /// Whether a loop is currently running.
    pub fn is_running(&self) -> (r: bool)
        ensures
            r == (self.state is Running),
    {
        match self.state {
            RunState::Running => true,
            _ => false,
        }
    }

    /// Start a loop after an intersection was found.  A second start while
    /// one is running is a usage error, rejected without any transition;
    /// otherwise a fresh loop instance begins.
    pub fn start(&mut self) -> (r: Result<(), OgmiosError>)
        ensures
            old(self).state is Running ==> (r matches Err(e)
                && e matches OgmiosError::QueryError(m)
                && m@ == "chain synchronization is already running"@
                && *final(self) == *old(self)),
            !(old(self).state is Running) ==> (r is Ok
                && final(self).state is Running
                && final(self).forward_dispatches == 0
                && final(self).backward_dispatches == 0),
    {
        match self.state {
            RunState::Running => Err(OgmiosError::QueryError(
                "chain synchronization is already running".to_owned(),
            )),
            _ => {
                self.state = RunState::Running;
                self.forward_dispatches = 0;
                self.backward_dispatches = 0;
                Ok(())
            }
        }
    }

    /// Classify one chain event: a forward event goes to the forward
    /// handler with the block and tip, a backward event — a rollback to the
    /// origin included — goes to the backward handler with the point and
    /// tip, never the other way around.
    pub fn dispatch(&mut self, event: NextBlockResponse) -> (r: SyncAction)
        requires
            old(self).state is Running,
            old(self).forward_dispatches < u64::MAX,
            old(self).backward_dispatches < u64::MAX,
        ensures
            final(self).state is Running,
            match event {
                NextBlockResponse::Forward { block, tip } => r == SyncAction::DispatchForward(
                    block,
                    tip,
                ) && final(self).forward_dispatches == old(self).forward_dispatches + 1
                    && final(self).backward_dispatches == old(self).backward_dispatches,
                NextBlockResponse::Backward { point, tip } => r == SyncAction::DispatchBackward(
                    point,
                    tip,
                ) && final(self).backward_dispatches == old(self).backward_dispatches + 1
                    && final(self).forward_dispatches == old(self).forward_dispatches,
            },
    {
        match event {
            NextBlockResponse::Forward { block, tip } => {
                self.forward_dispatches = self.forward_dispatches + 1;
                SyncAction::DispatchForward(block, tip)
            }
            NextBlockResponse::Backward { point, tip } => {
                self.backward_dispatches = self.backward_dispatches + 1;
                SyncAction::DispatchBackward(point, tip)
            }
        }
    }

    /// Decide what follows a handler's return.  Any handler failure — a
    /// deliberate stop included — ends the loop at once as Failed,
    /// preserving the error, and no further request is issued; on success
    /// the loop continues only while the socket is open.
    pub fn after_handler(&mut self, handler_result: Result<(), OgmiosError>, socket_open: bool)
        -> (r: SyncAction)
        requires
            old(self).state is Running,
        ensures
            final(self).forward_dispatches == old(self).forward_dispatches,
            final(self).backward_dispatches == old(self).backward_dispatches,
            match handler_result {
                Result::Err(e) => final(self).state == RunState::Failed(e)
                    && r == SyncAction::Stop,
                Result::Ok(_) => {
                    &&& socket_open ==> final(self).state is Running
                        && r == SyncAction::RequestNext
                    &&& !socket_open ==> final(self).state is Stopped && r == SyncAction::Stop
                },
            },
    {
        match handler_result {
            Result::Err(e) => {
                self.state = RunState::Failed(e);
                SyncAction::Stop
            }
            Result::Ok(_) => {
                if socket_open {
                    SyncAction::RequestNext
                } else {
                    self.state = RunState::Stopped;
                    SyncAction::Stop
                }
            }
        }
    }

    /// A transport failure while running ends the loop as Failed; after a
    /// shutdown has already stopped it, the failure of the request the
    /// shutdown interrupted changes nothing.
    pub fn on_transport_error(&mut self, e: OgmiosError) -> (r: SyncAction)
        ensures
            r == SyncAction::Stop,
            final(self).forward_dispatches == old(self).forward_dispatches,
            final(self).backward_dispatches == old(self).backward_dispatches,
            old(self).state is Running ==> final(self).state == RunState::Failed(e),
            !(old(self).state is Running) ==> *final(self) == *old(self),
    {
        match self.state {
            RunState::Running => {
                self.state = RunState::Failed(e);
            }
            _ => {}
        }
        SyncAction::Stop
    }

    /// Stop the loop deliberately.  Stopping a loop that is not running —
    /// a second shutdown included — changes nothing.
    pub fn shutdown(&mut self)
        ensures
            final(self).forward_dispatches == old(self).forward_dispatches,
            final(self).backward_dispatches == old(self).backward_dispatches,
            old(self).state is Running ==> final(self).state is Stopped,
            !(old(self).state is Running) ==> *final(self) == *old(self),
    {
        match self.state {
            RunState::Running => {
                self.state = RunState::Stopped;
            }
            _ => {}
        }
    }
}

/// A handler that collects blocks and rollback points, for testing or batch
/// processing.
pub struct CollectingHandler {
    /// Collected blocks.
    pub blocks: Vec<Block>,
    /// Points where rollbacks occurred.
    pub rollbacks: Vec<Point>,
    /// Maximum blocks to collect (`None` for unlimited).
    pub max_blocks: Option<usize>,
}

impl CollectingHandler {
    /// Create a new collecting handler.
    pub fn new(max_blocks: Option<usize>) -> (r: Self)
        ensures
            r.blocks@.len() == 0,
            r.rollbacks@.len() == 0,
            r.max_blocks == max_blocks,
    {
        CollectingHandler { blocks: Vec::new(), rollbacks: Vec::new(), max_blocks }
    }

    /// Whether the handler has collected its maximum block count.
    pub fn is_complete(&self) -> (r: bool)
        ensures
            r == match self.max_blocks {
                Option::Some(max) => self.blocks@.len() >= max,
                Option::None => false,
            },
    {
        match self.max_blocks {
            Option::Some(max) => self.blocks.len() >= max,
            Option::None => false,
        }
    }
}

impl ChainSynchronizationMessageHandlers for CollectingHandler {
    fn on_roll_forward(&mut self, block: Block, tip: Tip) -> Result<(), OgmiosError> {
        self.blocks.push(block);
        Ok(())
    }

    fn on_roll_backward(&mut self, point: Point, tip: Tip) -> Result<(), OgmiosError> {
        self.rollbacks.push(point);
        Ok(())
    }
}

} // verus!
