//! Canonical wire codec for the protocol's values.
//!
//! Every value has one canonical text: the encoder produces it and the parser
//! reads exactly it back, so decoding an encoded value is proved to return
//! the value itself.

use vstd::prelude::*;
use vstd::string::StringExecFns;
use vstd::string::StrSliceExecFns;
use crate::block::{Block, BlockEBB, BlockBFT, BlockPraos, BlockKind, BlockV};
use crate::numeral::{dec_at, dec_rep, is_digit, parse_u64, u64_to_string};
use crate::parse::{expect_lit, lemma_join, lemma_split, lit_at, lemma_str_end_exact, parse_str_rest, str_end};
use crate::primitives::{plain_str, Point, PointV, Tip, TipV};
use crate::responses::{NextBlockResponse, NextBlockV};

verus! {

/// Canonical text of a point.
pub open spec fn point_enc(p: PointV) -> Seq<char> {
    match p {
        PointV::Origin => "\"origin\""@,
        PointV::At { slot, id } => "{\"slot\":"@ + dec_rep(slot as nat) + ",\"id\":\""@ + id
            + "\"}"@,
    }
}

/// Canonical text of a tip.
pub open spec fn tip_enc(t: TipV) -> Seq<char> {
    match t {
        TipV::Origin => "\"origin\""@,
        TipV::At { slot, id, height } => "{\"slot\":"@ + dec_rep(slot as nat) + ",\"id\":\""@
            + id + "\",\"height\":"@ + dec_rep(height as nat) + "}"@,
    }
}

/// The canonical text of a point stands in `s` at position `i`.
pub open spec fn point_at(s: Seq<char>, i: int, p: PointV) -> bool {
    p.wf() && lit_at(s, i, point_enc(p))
}

/// The canonical text of a tip stands in `s` at position `i`.
pub open spec fn tip_at(s: Seq<char>, i: int, t: TipV) -> bool {
    t.wf() && lit_at(s, i, tip_enc(t))
}

/// Encode a point as its canonical text.
pub fn encode_point(p: &Point) -> (r: String)
    ensures
        r@ == point_enc(p@),
{
    match p {
        Point::Origin(_) => "\"origin\"".to_owned(),
        Point::Point { slot, id } => {
            let mut r = "{\"slot\":".to_owned();
            let slot_str = u64_to_string(*slot);
            r.append(slot_str.as_str());
            r.append(",\"id\":\"");
            r.append(id.as_str());
            r.append("\"}");
            proof {
                assert(r@ =~= point_enc(p@));
            }
            r
        }
    }
}

/// Encode a tip as its canonical text.
pub fn encode_tip(t: &Tip) -> (r: String)
    ensures
        r@ == tip_enc(t@),
{
    match t {
        Tip::Origin(_) => "\"origin\"".to_owned(),
        Tip::Tip { slot, id, height } => {
            let mut r = "{\"slot\":".to_owned();
            let slot_str = u64_to_string(*slot);
            r.append(slot_str.as_str());
            r.append(",\"id\":\"");
            r.append(id.as_str());
            r.append("\",\"height\":");
            let height_str = u64_to_string(*height);
            r.append(height_str.as_str());
            r.append("}");
            proof {
                assert(r@ =~= tip_enc(t@));
            }
            r
        }
    }
}

/// Where a non-origin point stands at `i`, its pieces stand at their
/// canonical positions.
proof fn lemma_point_at_parts(s: Seq<char>, i: int, slot: u64, id: Seq<char>)
    requires
        point_at(s, i, PointV::At { slot, id }),
    ensures
        ({
            let dl = dec_rep(slot as nat).len() as int;
            let il = id.len() as int;
            &&& lit_at(s, i, "{\"slot\":"@)
            &&& dec_at(s, i + 8, slot)
            &&& lit_at(s, i + 8 + dl, ",\"id\":\""@)
            &&& s.subrange(i + 15 + dl, i + 15 + dl + il) == id
            &&& s[i + 15 + dl + il] == '"'
            &&& s[i + 16 + dl + il] == '}'
            &&& point_enc(PointV::At { slot, id }).len() == 17 + dl + il
        }),
{
    reveal_strlit("{\"slot\":");
    reveal_strlit(",\"id\":\"");
    reveal_strlit("\"}");
    let p1 = "{\"slot\":"@;
    let p2 = ",\"id\":\""@;
    let p3 = "\"}"@;
    let d = dec_rep(slot as nat);
    let dl = d.len() as int;
    let il = id.len() as int;
    let enc = point_enc(PointV::At { slot, id });
    assert(enc.len() == 17 + dl + il);
    assert(enc =~= p1 + (d + (p2 + (id + p3))));
    lemma_split(s, i, p1, d + (p2 + (id + p3)));
    lemma_split(s, i + 8, d, p2 + (id + p3));
    lemma_split(s, i + 8 + dl, p2, id + p3);
    lemma_split(s, i + 15 + dl, id, p3);
    let p3_pos = i + 15 + dl + il;
    assert(s.subrange(p3_pos, p3_pos + 2) == p3);
    assert(s[p3_pos] == s.subrange(p3_pos, p3_pos + 2)[0]);
    assert(s[p3_pos + 1] == s.subrange(p3_pos, p3_pos + 2)[1]);
    // the character after the numeral is the comma opening the id key
    assert(s[i + 8 + dl] == s.subrange(i + 8 + dl, i + 15 + dl)[0]);
    assert(s[i + 8 + dl] == ',');
    assert(!is_digit(','));
}

/// Parse a point at position `i`.
pub fn parse_point(s: &str, n: usize, i: usize) -> (r: Option<(Point, usize)>)
    requires
        i <= n == s@.len(),
    ensures
        (r matches Some((p, j)) ==> i <= j <= s@.len() && p@.wf()
            && s@.subrange(i as int, j as int) == point_enc(p@)),
        (forall|pv: PointV| point_at(s@, i as int, pv) ==>
            (r matches Some((p, j)) && p@ == pv && j == i + point_enc(pv).len())),
{
    proof {
        reveal_strlit("\"origin\"");
        reveal_strlit("{\"slot\":");
        reveal_strlit(",\"id\":\"");
        reveal_strlit("\"}");
        reveal_strlit("}");
    }
    if let Some(j) = expect_lit(s, n, i, "\"origin\"") {
        let p = Point::origin();
        proof {
            assert forall|pv: PointV| point_at(s@, i as int, pv) implies
                (p@ == pv && j == i + point_enc(pv).len()) by {
                if let PointV::At { slot, id } = pv {
                    lemma_point_at_parts(s@, i as int, slot, id);
                    assert(s@[i as int] == s@.subrange(i as int, i + 8)[0]);
                    assert(s@[i as int] == '{');
                    assert(s@[i as int] == s@.subrange(i as int, j as int)[0]);
                    assert(false);
                }
            }
        }
        return Some((p, j));
    }
    let j1 = match expect_lit(s, n, i, "{\"slot\":") {
        Some(j1) => j1,
        None => {
            proof {
                assert forall|pv: PointV| !point_at(s@, i as int, pv) by {
                    if point_at(s@, i as int, pv) {
                        match pv {
                            PointV::Origin => {
                                assert(lit_at(s@, i as int, "\"origin\""@));
                            }
                            PointV::At { slot, id } => {
                                lemma_point_at_parts(s@, i as int, slot, id);
                            }
                        }
                        assert(false);
                    }
                }
            }
            return None;
        }
    };
    let (v, j2) = match parse_u64(s, n, j1) {
        Some(x) => x,
        None => {
            proof {
                assert forall|pv: PointV| !point_at(s@, i as int, pv) by {
                    if point_at(s@, i as int, pv) {
                        match pv {
                            PointV::Origin => {
                                assert(s@[i as int] == s@.subrange(i as int, j1 as int)[0]);
                                assert(s@[i as int] == s@.subrange(i as int, i + 8)[0]);
                            }
                            PointV::At { slot, id } => {
                                lemma_point_at_parts(s@, i as int, slot, id);
                            }
                        }
                        assert(false);
                    }
                }
            }
            return None;
        }
    };
    let j3 = match expect_lit(s, n, j2, ",\"id\":\"") {
        Some(j3) => j3,
        None => {
            proof {
                assert forall|pv: PointV| !point_at(s@, i as int, pv) by {
                    if point_at(s@, i as int, pv) {
                        match pv {
                            PointV::Origin => {
                                assert(s@[i as int] == s@.subrange(i as int, j1 as int)[0]);
                                assert(s@[i as int] == s@.subrange(i as int, i + 8)[0]);
                            }
                            PointV::At { slot, id } => {
                                lemma_point_at_parts(s@, i as int, slot, id);
                                assert(j2 == i + 8 + dec_rep(slot as nat).len());
                            }
                        }
                        assert(false);
                    }
                }
            }
            return None;
        }
    };
    let (t, j4) = match parse_str_rest(s, n, j3) {
        Some(x) => x,
        None => {
            proof {
                assert forall|pv: PointV| !point_at(s@, i as int, pv) by {
                    if point_at(s@, i as int, pv) {
                        match pv {
                            PointV::Origin => {
                                assert(s@[i as int] == s@.subrange(i as int, j1 as int)[0]);
                                assert(s@[i as int] == s@.subrange(i as int, i + 8)[0]);
                            }
                            PointV::At { slot, id } => {
                                lemma_point_at_parts(s@, i as int, slot, id);
                                let dl = dec_rep(slot as nat).len() as int;
                                let il = id.len() as int;
                                assert(j2 == i + 8 + dl);
                                assert(j3 == i + 15 + dl);
                                assert forall|k: int| j3 <= k < i + 15 + dl + il implies s@[k] != '"' by {
                                    assert(s@[k] == s@.subrange(i + 15 + dl, i + 15 + dl + il)[k - j3]);
                                    assert(s@[k] == id[k - j3]);
                                }
                                lemma_str_end_exact(s@, j3 as int, i + 15 + dl + il);
                            }
                        }
                        assert(false);
                    }
                }
            }
            return None;
        }
    };
    let j5 = match expect_lit(s, n, j4, "}") {
        Some(j5) => j5,
        None => {
            proof {
                assert forall|pv: PointV| !point_at(s@, i as int, pv) by {
                    if point_at(s@, i as int, pv) {
                        match pv {
                            PointV::Origin => {
                                assert(s@[i as int] == s@.subrange(i as int, j1 as int)[0]);
                                assert(s@[i as int] == s@.subrange(i as int, i + 8)[0]);
                            }
                            PointV::At { slot, id } => {
                                lemma_point_at_parts(s@, i as int, slot, id);
                                let dl = dec_rep(slot as nat).len() as int;
                                let il = id.len() as int;
                                assert(j2 == i + 8 + dl);
                                assert(j3 == i + 15 + dl);
                                assert forall|k: int| j3 <= k < i + 15 + dl + il implies s@[k] != '"' by {
                                    assert(s@[k] == s@.subrange(i + 15 + dl, i + 15 + dl + il)[k - j3]);
                                    assert(s@[k] == id[k - j3]);
                                }
                                lemma_str_end_exact(s@, j3 as int, i + 15 + dl + il);
                                assert(j4 == i + 16 + dl + il);
                                assert(s@.subrange(j4 as int, j4 + 1) =~= seq![s@[j4 as int]]);
                                assert(s@.subrange(j4 as int, j4 + 1) == "}"@);
                            }
                        }
                        assert(false);
                    }
                }
            }
            return None;
        }
    };
    let p = Point::Point { slot: v, id: t };
    proof {
        // the consumed range is the canonical text of the returned point
        lemma_join(s@, i as int, j1 as int, j2 as int);
        lemma_join(s@, i as int, j2 as int, j3 as int);
        lemma_join(s@, i as int, j3 as int, j4 as int);
        lemma_join(s@, i as int, j4 as int, j5 as int);
        assert(s@.subrange(i as int, j5 as int) =~= point_enc(p@));
        // and any point standing at `i` is that same point
        assert forall|pv: PointV| point_at(s@, i as int, pv) implies
            (p@ == pv && j5 == i + point_enc(pv).len()) by {
            match pv {
                PointV::Origin => {
                    assert(s@[i as int] == s@.subrange(i as int, j1 as int)[0]);
                    assert(s@[i as int] == s@.subrange(i as int, i + 8)[0]);
                    assert(false);
                }
                PointV::At { slot, id } => {
                    lemma_point_at_parts(s@, i as int, slot, id);
                    let dl = dec_rep(slot as nat).len() as int;
                    let il = id.len() as int;
                    assert(v == slot && j2 == i + 8 + dl);
                    assert(j3 == i + 15 + dl);
                    assert forall|k: int| j3 <= k < i + 15 + dl + il implies s@[k] != '"' by {
                        assert(s@[k] == s@.subrange(i + 15 + dl, i + 15 + dl + il)[k - j3]);
                        assert(s@[k] == id[k - j3]);
                    }
                    lemma_str_end_exact(s@, j3 as int, i + 15 + dl + il);
                    assert(t@ =~= id);
                }
            }
        }
    }
    Some((p, j5))
}

/// Where a non-origin tip stands at `i`, its pieces stand at their canonical
/// positions.
proof fn lemma_tip_at_parts(s: Seq<char>, i: int, slot: u64, id: Seq<char>, height: u64)
    requires
        tip_at(s, i, TipV::At { slot, id, height }),
    ensures
        ({
            let dl = dec_rep(slot as nat).len() as int;
            let il = id.len() as int;
            let hl = dec_rep(height as nat).len() as int;
            &&& lit_at(s, i, "{\"slot\":"@)
            &&& dec_at(s, i + 8, slot)
            &&& lit_at(s, i + 8 + dl, ",\"id\":\""@)
            &&& s.subrange(i + 15 + dl, i + 15 + dl + il) == id
            &&& s[i + 15 + dl + il] == '"'
            &&& lit_at(s, i + 16 + dl + il, ",\"height\":"@)
            &&& dec_at(s, i + 26 + dl + il, height)
            &&& s[i + 26 + dl + il + hl] == '}'
            &&& tip_enc(TipV::At { slot, id, height }).len() == 27 + dl + il + hl
        }),
{
    reveal_strlit("{\"slot\":");
    reveal_strlit(",\"id\":\"");
    reveal_strlit("\",\"height\":");
    reveal_strlit(",\"height\":");
    reveal_strlit("}");
    let p1 = "{\"slot\":"@;
    let p2 = ",\"id\":\""@;
    let h1 = "\",\"height\":"@;
    let h2 = ",\"height\":"@;
    let z = "}"@;
    assert(h1 =~= seq!['"'] + h2);
    let d = dec_rep(slot as nat);
    let g = dec_rep(height as nat);
    let dl = d.len() as int;
    let il = id.len() as int;
    let hl = g.len() as int;
    let enc = tip_enc(TipV::At { slot, id, height });
    assert(enc.len() == 27 + dl + il + hl);
    assert(enc =~= p1 + (d + (p2 + (id + ((seq!['"'] + h2) + (g + z))))));
    lemma_split(s, i, p1, d + (p2 + (id + ((seq!['"'] + h2) + (g + z)))));
    lemma_split(s, i + 8, d, p2 + (id + ((seq!['"'] + h2) + (g + z))));
    lemma_split(s, i + 8 + dl, p2, id + ((seq!['"'] + h2) + (g + z)));
    lemma_split(s, i + 15 + dl, id, (seq!['"'] + h2) + (g + z));
    lemma_split(s, i + 15 + dl + il, seq!['"'] + h2, g + z);
    lemma_split(s, i + 15 + dl + il, seq!['"'], h2);
    lemma_split(s, i + 26 + dl + il, g, z);
    let q1 = i + 15 + dl + il;
    assert(s.subrange(q1, q1 + 1) == seq!['"']);
    assert(s[q1] == s.subrange(q1, q1 + 1)[0]);
    let z0 = i + 26 + dl + il + hl;
    assert(s.subrange(z0, z0 + 1) == z);
    assert(s[z0] == s.subrange(z0, z0 + 1)[0]);
    // the character after the slot numeral is the comma opening the id key
    assert(s[i + 8 + dl] == s.subrange(i + 8 + dl, i + 15 + dl)[0]);
    assert(s[i + 8 + dl] == ',');
    assert(!is_digit(','));
    // the character after the height numeral is the closing brace
    assert(!is_digit('}'));
}

/// Parse a tip at position `i`.
pub fn parse_tip(s: &str, n: usize, i: usize) -> (r: Option<(Tip, usize)>)
    requires
        i <= n == s@.len(),
    ensures
        (r matches Some((t, j)) ==> i <= j <= s@.len() && t@.wf()
            && s@.subrange(i as int, j as int) == tip_enc(t@)),
        (forall|tv: TipV| tip_at(s@, i as int, tv) ==>
            (r matches Some((t, j)) && t@ == tv && j == i + tip_enc(tv).len())),
{
    proof {
        reveal_strlit("\"origin\"");
        reveal_strlit("{\"slot\":");
        reveal_strlit(",\"id\":\"");
        reveal_strlit(",\"height\":");
        reveal_strlit("}");
    }
    if let Some(j) = expect_lit(s, n, i, "\"origin\"") {
        let t = Tip::origin();
        proof {
            assert forall|tv: TipV| tip_at(s@, i as int, tv) implies
                (t@ == tv && j == i + tip_enc(tv).len()) by {
                if let TipV::At { slot, id, height } = tv {
                    lemma_tip_at_parts(s@, i as int, slot, id, height);
                    assert(s@[i as int] == s@.subrange(i as int, i + 8)[0]);
                    assert(s@[i as int] == '{');
                    assert(s@[i as int] == s@.subrange(i as int, j as int)[0]);
                    assert(false);
                }
            }
        }
        return Some((t, j));
    }
    let j1 = match expect_lit(s, n, i, "{\"slot\":") {
        Some(j1) => j1,
        None => {
            proof {
                assert forall|tv: TipV| !tip_at(s@, i as int, tv) by {
                    if tip_at(s@, i as int, tv) {
                        match tv {
                            TipV::Origin => {
                                assert(lit_at(s@, i as int, "\"origin\""@));
                            }
                            TipV::At { slot, id, height } => {
                                lemma_tip_at_parts(s@, i as int, slot, id, height);
                            }
                        }
                        assert(false);
                    }
                }
            }
            return None;
        }
    };
    let (v, j2) = match parse_u64(s, n, j1) {
        Some(x) => x,
        None => {
            proof {
                assert forall|tv: TipV| !tip_at(s@, i as int, tv) by {
                    if tip_at(s@, i as int, tv) {
                        match tv {
                            TipV::Origin => {
                                assert(s@[i as int] == s@.subrange(i as int, j1 as int)[0]);
                                assert(s@[i as int] == s@.subrange(i as int, i + 8)[0]);
                            }
                            TipV::At { slot, id, height } => {
                                lemma_tip_at_parts(s@, i as int, slot, id, height);
                            }
                        }
                        assert(false);
                    }
                }
            }
            return None;
        }
    };
    let j3 = match expect_lit(s, n, j2, ",\"id\":\"") {
        Some(j3) => j3,
        None => {
            proof {
                assert forall|tv: TipV| !tip_at(s@, i as int, tv) by {
                    if tip_at(s@, i as int, tv) {
                        match tv {
                            TipV::Origin => {
                                assert(s@[i as int] == s@.subrange(i as int, j1 as int)[0]);
                                assert(s@[i as int] == s@.subrange(i as int, i + 8)[0]);
                            }
                            TipV::At { slot, id, height } => {
                                lemma_tip_at_parts(s@, i as int, slot, id, height);
                                assert(j2 == i + 8 + dec_rep(slot as nat).len());
                            }
                        }
                        assert(false);
                    }
                }
            }
            return None;
        }
    };
    let (t, j4) = match parse_str_rest(s, n, j3) {
        Some(x) => x,
        None => {
            proof {
                assert forall|tv: TipV| !tip_at(s@, i as int, tv) by {
                    if tip_at(s@, i as int, tv) {
                        match tv {
                            TipV::Origin => {
                                assert(s@[i as int] == s@.subrange(i as int, j1 as int)[0]);
                                assert(s@[i as int] == s@.subrange(i as int, i + 8)[0]);
                            }
                            TipV::At { slot, id, height } => {
                                lemma_tip_at_parts(s@, i as int, slot, id, height);
                                let dl = dec_rep(slot as nat).len() as int;
                                let il = id.len() as int;
                                assert(j2 == i + 8 + dl);
                                assert(j3 == i + 15 + dl);
                                assert forall|k: int| j3 <= k < i + 15 + dl + il implies s@[k] != '"' by {
                                    assert(s@[k] == s@.subrange(i + 15 + dl, i + 15 + dl + il)[k - j3]);
                                    assert(s@[k] == id[k - j3]);
                                }
                                lemma_str_end_exact(s@, j3 as int, i + 15 + dl + il);
                            }
                        }
                        assert(false);
                    }
                }
            }
            return None;
        }
    };
    let j5 = match expect_lit(s, n, j4, ",\"height\":") {
        Some(j5) => j5,
        None => {
            proof {
                assert forall|tv: TipV| !tip_at(s@, i as int, tv) by {
                    if tip_at(s@, i as int, tv) {
                        match tv {
                            TipV::Origin => {
                                assert(s@[i as int] == s@.subrange(i as int, j1 as int)[0]);
                                assert(s@[i as int] == s@.subrange(i as int, i + 8)[0]);
                            }
                            TipV::At { slot, id, height } => {
                                lemma_tip_at_parts(s@, i as int, slot, id, height);
                                let dl = dec_rep(slot as nat).len() as int;
                                let il = id.len() as int;
                                assert(j2 == i + 8 + dl);
                                assert(j3 == i + 15 + dl);
                                assert forall|k: int| j3 <= k < i + 15 + dl + il implies s@[k] != '"' by {
                                    assert(s@[k] == s@.subrange(i + 15 + dl, i + 15 + dl + il)[k - j3]);
                                    assert(s@[k] == id[k - j3]);
                                }
                                lemma_str_end_exact(s@, j3 as int, i + 15 + dl + il);
                                assert(j4 == i + 16 + dl + il);
                            }
                        }
                        assert(false);
                    }
                }
            }
            return None;
        }
    };
    let (h, j6) = match parse_u64(s, n, j5) {
        Some(x) => x,
        None => {
            proof {
                assert forall|tv: TipV| !tip_at(s@, i as int, tv) by {
                    if tip_at(s@, i as int, tv) {
                        match tv {
                            TipV::Origin => {
                                assert(s@[i as int] == s@.subrange(i as int, j1 as int)[0]);
                                assert(s@[i as int] == s@.subrange(i as int, i + 8)[0]);
                            }
                            TipV::At { slot, id, height } => {
                                lemma_tip_at_parts(s@, i as int, slot, id, height);
                                let dl = dec_rep(slot as nat).len() as int;
                                let il = id.len() as int;
                                assert(j2 == i + 8 + dl);
                                assert(j3 == i + 15 + dl);
                                assert forall|k: int| j3 <= k < i + 15 + dl + il implies s@[k] != '"' by {
                                    assert(s@[k] == s@.subrange(i + 15 + dl, i + 15 + dl + il)[k - j3]);
                                    assert(s@[k] == id[k - j3]);
                                }
                                lemma_str_end_exact(s@, j3 as int, i + 15 + dl + il);
                                assert(j4 == i + 16 + dl + il);
                                assert(j5 == i + 26 + dl + il);
                            }
                        }
                        assert(false);
                    }
                }
            }
            return None;
        }
    };
    let j7 = match expect_lit(s, n, j6, "}") {
        Some(j7) => j7,
        None => {
            proof {
                assert forall|tv: TipV| !tip_at(s@, i as int, tv) by {
                    if tip_at(s@, i as int, tv) {
                        match tv {
                            TipV::Origin => {
                                assert(s@[i as int] == s@.subrange(i as int, j1 as int)[0]);
                                assert(s@[i as int] == s@.subrange(i as int, i + 8)[0]);
                            }
                            TipV::At { slot, id, height } => {
                                lemma_tip_at_parts(s@, i as int, slot, id, height);
                                let dl = dec_rep(slot as nat).len() as int;
                                let il = id.len() as int;
                                let hl = dec_rep(height as nat).len() as int;
                                assert(j2 == i + 8 + dl);
                                assert(j3 == i + 15 + dl);
                                assert forall|k: int| j3 <= k < i + 15 + dl + il implies s@[k] != '"' by {
                                    assert(s@[k] == s@.subrange(i + 15 + dl, i + 15 + dl + il)[k - j3]);
                                    assert(s@[k] == id[k - j3]);
                                }
                                lemma_str_end_exact(s@, j3 as int, i + 15 + dl + il);
                                assert(j4 == i + 16 + dl + il);
                                assert(j5 == i + 26 + dl + il);
                                assert(j6 == i + 26 + dl + il + hl);
                                assert(s@.subrange(j6 as int, j6 + 1) =~= seq![s@[j6 as int]]);
                                assert(s@.subrange(j6 as int, j6 + 1) == "}"@);
                            }
                        }
                        assert(false);
                    }
                }
            }
            return None;
        }
    };
    let tip = Tip::Tip { slot: v, id: t, height: h };
    proof {
        reveal_strlit("\",\"height\":");
        assert("\",\"height\":"@ =~= seq!['"'] + ",\"height\":"@);
        lemma_join(s@, i as int, j1 as int, j2 as int);
        lemma_join(s@, i as int, j2 as int, j3 as int);
        lemma_join(s@, i as int, j3 as int, j4 as int);
        lemma_join(s@, i as int, j4 as int, j5 as int);
        lemma_join(s@, i as int, j5 as int, j6 as int);
        lemma_join(s@, i as int, j6 as int, j7 as int);
        assert(s@.subrange(i as int, j7 as int) =~= tip_enc(tip@));
        assert forall|tv: TipV| tip_at(s@, i as int, tv) implies
            (tip@ == tv && j7 == i + tip_enc(tv).len()) by {
            match tv {
                TipV::Origin => {
                    assert(s@[i as int] == s@.subrange(i as int, j1 as int)[0]);
                    assert(s@[i as int] == s@.subrange(i as int, i + 8)[0]);
                    assert(false);
                }
                TipV::At { slot, id, height } => {
                    lemma_tip_at_parts(s@, i as int, slot, id, height);
                    let dl = dec_rep(slot as nat).len() as int;
                    let il = id.len() as int;
                    let hl = dec_rep(height as nat).len() as int;
                    assert(v == slot && j2 == i + 8 + dl);
                    assert(j3 == i + 15 + dl);
                    assert forall|k: int| j3 <= k < i + 15 + dl + il implies s@[k] != '"' by {
                        assert(s@[k] == s@.subrange(i + 15 + dl, i + 15 + dl + il)[k - j3]);
                        assert(s@[k] == id[k - j3]);
                    }
                    lemma_str_end_exact(s@, j3 as int, i + 15 + dl + il);
                    assert(t@ =~= id);
                    assert(j4 == i + 16 + dl + il);
                    assert(j5 == i + 26 + dl + il);
                    assert(h == height && j6 == i + 26 + dl + il + hl);
                }
            }
        }
    }
    Some((tip, j7))
}

/// Decode a whole text as a tip.
///
/// The second clause is the round-trip law: the canonical encoding of any
/// tip decodes back to that tip.
pub fn decode_tip(s: &str) -> (r: Option<Tip>)
    ensures
        (r matches Some(t) ==> t@.wf() && s@ == tip_enc(t@)),
        (forall|tv: TipV| tv.wf() && s@ == tip_enc(tv) ==>
            (r matches Some(t) && t@ == tv)),
{
    let n = s.unicode_len();
    match parse_tip(s, n, 0) {
        Some((t, j)) => {
            if j == n {
                proof {
                    assert(s@.subrange(0, n as int) =~= s@);
                    assert forall|tv: TipV| tv.wf() && s@ == tip_enc(tv) implies t@ == tv by {
                        assert(tip_at(s@, 0, tv));
                    }
                }
                Some(t)
            } else {
                proof {
                    assert forall|tv: TipV| !(tv.wf() && s@ == tip_enc(tv)) by {
                        if tv.wf() && s@ == tip_enc(tv) {
                            assert(s@.subrange(0, s@.len() as int) =~= s@);
                            assert(tip_at(s@, 0, tv));
                            assert(false);
                        }
                    }
                }
                None
            }
        }
        None => {
            proof {
                assert forall|tv: TipV| !(tv.wf() && s@ == tip_enc(tv)) by {
                    if tv.wf() && s@ == tip_enc(tv) {
                        assert(s@.subrange(0, s@.len() as int) =~= s@);
                        assert(tip_at(s@, 0, tv));
                        assert(false);
                    }
                }
            }
            None
        }
    }
}

/// Opening text of a block of the given flavour, through the era key.
pub open spec fn kind_head(k: BlockKind) -> Seq<char> {
    match k {
        BlockKind::Ebb => "{\"type\":\"ebb\",\"era\":\""@,
        BlockKind::Bft => "{\"type\":\"bft\",\"era\":\""@,
        BlockKind::Praos => "{\"type\":\"praos\",\"era\":\""@,
    }
}

/// Canonical text of a block's fields after its flavour head.
pub open spec fn block_tail_enc(
    era: Seq<char>,
    id: Seq<char>,
    ancestor: Seq<char>,
    slot: u64,
    height: u64,
) -> Seq<char> {
    era + "\",\"id\":\""@ + id + "\",\"ancestor\":\""@ + ancestor + "\",\"slot\":"@
        + dec_rep(slot as nat) + ",\"height\":"@ + dec_rep(height as nat) + "}"@
}

/// Canonical text of a block.
pub open spec fn block_enc(b: BlockV) -> Seq<char> {
    kind_head(b.kind) + block_tail_enc(b.era, b.id, b.ancestor, b.slot, b.height)
}

/// The canonical tail of a block stands in `s` at position `i`.
pub open spec fn block_tail_at(
    s: Seq<char>,
    i: int,
    era: Seq<char>,
    id: Seq<char>,
    ancestor: Seq<char>,
    slot: u64,
    height: u64,
) -> bool {
    &&& plain_str(era)
    &&& plain_str(id)
    &&& plain_str(ancestor)
    &&& lit_at(s, i, block_tail_enc(era, id, ancestor, slot, height))
}

/// The canonical text of a block stands in `s` at position `i`.
pub open spec fn block_at(s: Seq<char>, i: int, b: BlockV) -> bool {
    b.wf() && lit_at(s, i, block_enc(b))
}

/// Encode a block as its canonical text.
pub fn encode_block(b: &Block) -> (r: String)
    ensures
        r@ == block_enc(b@),
{
    let mut r = match b {
        Block::EBB(_) => "{\"type\":\"ebb\",\"era\":\"".to_owned(),
        Block::BFT(_) => "{\"type\":\"bft\",\"era\":\"".to_owned(),
        Block::Praos(_) => "{\"type\":\"praos\",\"era\":\"".to_owned(),
    };
    let (era, id, ancestor, slot, height) = match b {
        Block::EBB(x) => (&x.era, &x.id, &x.ancestor, x.slot, x.height),
        Block::BFT(x) => (&x.era, &x.id, &x.ancestor, x.slot, x.height),
        Block::Praos(x) => (&x.era, &x.id, &x.ancestor, x.slot, x.height),
    };
    r.append(era.as_str());
    r.append("\",\"id\":\"");
    r.append(id.as_str());
    r.append("\",\"ancestor\":\"");
    r.append(ancestor.as_str());
    r.append("\",\"slot\":");
    let slot_str = u64_to_string(slot);
    r.append(slot_str.as_str());
    r.append(",\"height\":");
    let height_str = u64_to_string(height);
    r.append(height_str.as_str());
    r.append("}");
    proof {
        assert(r@ =~= block_enc(b@));
    }
    r
}

/// Where a block tail stands at `i`, its pieces stand at their canonical
/// positions.
proof fn lemma_block_tail_at_parts(
    s: Seq<char>,
    i: int,
    era: Seq<char>,
    id: Seq<char>,
    ancestor: Seq<char>,
    slot: u64,
    height: u64,
)
    requires
        block_tail_at(s, i, era, id, ancestor, slot, height),
    ensures
        ({
            let el = era.len() as int;
            let il = id.len() as int;
            let al = ancestor.len() as int;
            let dl = dec_rep(slot as nat).len() as int;
            let hl = dec_rep(height as nat).len() as int;
            &&& s.subrange(i, i + el) == era
            &&& str_end(s, i) == i + el
            &&& i + el < s.len()
            &&& lit_at(s, i + el + 1, ",\"id\":\""@)
            &&& s.subrange(i + el + 8, i + el + 8 + il) == id
            &&& str_end(s, i + el + 8) == i + el + 8 + il
            &&& i + el + 8 + il < s.len()
            &&& lit_at(s, i + el + 9 + il, ",\"ancestor\":\""@)
            &&& s.subrange(i + el + 22 + il, i + el + 22 + il + al) == ancestor
            &&& str_end(s, i + el + 22 + il) == i + el + 22 + il + al
            &&& i + el + 22 + il + al < s.len()
            &&& lit_at(s, i + el + 23 + il + al, ",\"slot\":"@)
            &&& dec_at(s, i + el + 31 + il + al, slot)
            &&& lit_at(s, i + el + 31 + il + al + dl, ",\"height\":"@)
            &&& dec_at(s, i + el + 41 + il + al + dl, height)
            &&& lit_at(s, i + el + 41 + il + al + dl + hl, "}"@)
            &&& block_tail_enc(era, id, ancestor, slot, height).len() == el + il + al + dl + hl + 42
        }),
{
    reveal_strlit("\",\"id\":\"");
    reveal_strlit(",\"id\":\"");
    reveal_strlit("\",\"ancestor\":\"");
    reveal_strlit(",\"ancestor\":\"");
    reveal_strlit("\",\"slot\":");
    reveal_strlit(",\"slot\":");
    reveal_strlit(",\"height\":");
    reveal_strlit("}");
    let p2 = ",\"id\":\""@;
    let a2 = ",\"ancestor\":\""@;
    let s2 = ",\"slot\":"@;
    let h2 = ",\"height\":"@;
    let z = "}"@;
    assert("\",\"id\":\""@ =~= seq!['"'] + p2);
    assert("\",\"ancestor\":\""@ =~= seq!['"'] + a2);
    assert("\",\"slot\":"@ =~= seq!['"'] + s2);
    let d = dec_rep(slot as nat);
    let g = dec_rep(height as nat);
    let el = era.len() as int;
    let il = id.len() as int;
    let al = ancestor.len() as int;
    let dl = d.len() as int;
    let hl = g.len() as int;
    let enc = block_tail_enc(era, id, ancestor, slot, height);
    assert(enc.len() == el + il + al + dl + hl + 42);
    assert(enc =~= era + (seq!['"'] + (p2 + (id + (seq!['"'] + (a2 + (ancestor + (seq!['"'] + (s2
        + (d + (h2 + (g + z))))))))))));
    lemma_split(s, i, era,
        seq!['"'] + (p2 + (id + (seq!['"'] + (a2 + (ancestor + (seq!['"'] + (s2 + (d + (h2 + (g + z)))))))))));
    lemma_split(s, i + el, seq!['"'],
        p2 + (id + (seq!['"'] + (a2 + (ancestor + (seq!['"'] + (s2 + (d + (h2 + (g + z)))))))))) ;
    lemma_split(s, i + el + 1, p2,
        id + (seq!['"'] + (a2 + (ancestor + (seq!['"'] + (s2 + (d + (h2 + (g + z)))))))));
    lemma_split(s, i + el + 8, id,
        seq!['"'] + (a2 + (ancestor + (seq!['"'] + (s2 + (d + (h2 + (g + z))))))));
    lemma_split(s, i + el + 8 + il, seq!['"'],
        a2 + (ancestor + (seq!['"'] + (s2 + (d + (h2 + (g + z)))))));
    lemma_split(s, i + el + 9 + il, a2,
        ancestor + (seq!['"'] + (s2 + (d + (h2 + (g + z))))));
    lemma_split(s, i + el + 22 + il, ancestor,
        seq!['"'] + (s2 + (d + (h2 + (g + z)))));
    lemma_split(s, i + el + 22 + il + al, seq!['"'],
        s2 + (d + (h2 + (g + z))));
    lemma_split(s, i + el + 23 + il + al, s2, d + (h2 + (g + z)));
    lemma_split(s, i + el + 31 + il + al, d, h2 + (g + z));
    lemma_split(s, i + el + 31 + il + al + dl, h2, g + z);
    lemma_split(s, i + el + 41 + il + al + dl, g, z);
    // the single quote characters closing each string field
    assert(s[i + el] == s.subrange(i + el, i + el + 1)[0]);
    assert(s[i + el + 8 + il] == s.subrange(i + el + 8 + il, i + el + 9 + il)[0]);
    assert(s[i + el + 22 + il + al] == s.subrange(i + el + 22 + il + al, i + el + 23 + il + al)[0]);
    // each string field scans to exactly its closing quote
    assert forall|k: int| i <= k < i + el implies s[k] != '"' by {
        assert(s[k] == era[k - i]);
    }
    lemma_str_end_exact(s, i, i + el);
    assert forall|k: int| i + el + 8 <= k < i + el + 8 + il implies s[k] != '"' by {
        assert(s[k] == id[k - (i + el + 8)]);
    }
    lemma_str_end_exact(s, i + el + 8, i + el + 8 + il);
    assert forall|k: int| i + el + 22 + il <= k < i + el + 22 + il + al implies s[k] != '"' by {
        assert(s[k] == ancestor[k - (i + el + 22 + il)]);
    }
    lemma_str_end_exact(s, i + el + 22 + il, i + el + 22 + il + al);
    // the characters after the numerals are not digits
    assert(s[i + el + 31 + il + al + dl] == s.subrange(i + el + 31 + il + al + dl,
        i + el + 41 + il + al + dl)[0]);
    assert(s[i + el + 31 + il + al + dl] == ',');
    assert(!is_digit(','));
    let z0 = i + el + 41 + il + al + dl + hl;
    assert(s[z0] == s.subrange(z0, z0 + 1)[0]);
    assert(s[z0] == '}');
    assert(!is_digit('}'));
}

/// Parse a block tail (the fields after the flavour head) at position `i`.
#[verifier::rlimit(80)]
fn parse_block_tail(s: &str, n: usize, i: usize) -> (r: Option<
    ((String, String, String, u64, u64), usize),
>)
    requires
        i <= n == s@.len(),
    ensures
        (r matches Some(((era, id, ancestor, slot, height), j)) ==> i <= j <= s@.len()
            && plain_str(era@) && plain_str(id@) && plain_str(ancestor@)
            && s@.subrange(i as int, j as int) == block_tail_enc(era@, id@, ancestor@, slot, height)),
        (forall|era: Seq<char>, id: Seq<char>, ancestor: Seq<char>, slot: u64, height: u64|
            block_tail_at(s@, i as int, era, id, ancestor, slot, height) ==>
            (r matches Some(((e2, i2, a2, s2, h2), j)) && e2@ == era && i2@ == id
                && a2@ == ancestor && s2 == slot && h2 == height
                && j == i + block_tail_enc(era, id, ancestor, slot, height).len())),
{
    proof {
        reveal_strlit(",\"id\":\"");
        reveal_strlit(",\"ancestor\":\"");
        reveal_strlit(",\"slot\":");
        reveal_strlit(",\"height\":");
        reveal_strlit("}");
    }
    let (era, ja) = match parse_str_rest(s, n, i) {
        Some(x) => x,
        None => {
            proof {
                assert forall|ev: Seq<char>, iv: Seq<char>, av: Seq<char>, sv: u64, hv: u64|
                    !block_tail_at(s@, i as int, ev, iv, av, sv, hv) by {
                    if block_tail_at(s@, i as int, ev, iv, av, sv, hv) {
                        lemma_block_tail_at_parts(s@, i as int, ev, iv, av, sv, hv);
                        assert(false);
                    }
                }
            }
            return None;
        }
    };
    let jb = match expect_lit(s, n, ja, ",\"id\":\"") {
        Some(x) => x,
        None => {
            proof {
                assert forall|ev: Seq<char>, iv: Seq<char>, av: Seq<char>, sv: u64, hv: u64|
                    !block_tail_at(s@, i as int, ev, iv, av, sv, hv) by {
                    if block_tail_at(s@, i as int, ev, iv, av, sv, hv) {
                        lemma_block_tail_at_parts(s@, i as int, ev, iv, av, sv, hv);
                        assert(ja == i + ev.len() + 1);
                        assert(false);
                    }
                }
            }
            return None;
        }
    };
    let (id, jc) = match parse_str_rest(s, n, jb) {
        Some(x) => x,
        None => {
            proof {
                assert forall|ev: Seq<char>, iv: Seq<char>, av: Seq<char>, sv: u64, hv: u64|
                    !block_tail_at(s@, i as int, ev, iv, av, sv, hv) by {
                    if block_tail_at(s@, i as int, ev, iv, av, sv, hv) {
                        lemma_block_tail_at_parts(s@, i as int, ev, iv, av, sv, hv);
                        assert(ja == i + ev.len() + 1);
                        assert(jb == i + ev.len() + 8);
                        assert(false);
                    }
                }
            }
            return None;
        }
    };
    let jd = match expect_lit(s, n, jc, ",\"ancestor\":\"") {
        Some(x) => x,
        None => {
            proof {
                assert forall|ev: Seq<char>, iv: Seq<char>, av: Seq<char>, sv: u64, hv: u64|
                    !block_tail_at(s@, i as int, ev, iv, av, sv, hv) by {
                    if block_tail_at(s@, i as int, ev, iv, av, sv, hv) {
                        lemma_block_tail_at_parts(s@, i as int, ev, iv, av, sv, hv);
                        assert(ja == i + ev.len() + 1);
                        assert(jb == i + ev.len() + 8);
                        assert(jc == i + ev.len() + 9 + iv.len());
                        assert(false);
                    }
                }
            }
            return None;
        }
    };
    let (ancestor, je) = match parse_str_rest(s, n, jd) {
        Some(x) => x,
        None => {
            proof {
                assert forall|ev: Seq<char>, iv: Seq<char>, av: Seq<char>, sv: u64, hv: u64|
                    !block_tail_at(s@, i as int, ev, iv, av, sv, hv) by {
                    if block_tail_at(s@, i as int, ev, iv, av, sv, hv) {
                        lemma_block_tail_at_parts(s@, i as int, ev, iv, av, sv, hv);
                        assert(ja == i + ev.len() + 1);
                        assert(jb == i + ev.len() + 8);
                        assert(jc == i + ev.len() + 9 + iv.len());
                        assert(jd == i + ev.len() + 22 + iv.len());
                        assert(false);
                    }
                }
            }
            return None;
        }
    };
    let jf = match expect_lit(s, n, je, ",\"slot\":") {
        Some(x) => x,
        None => {
            proof {
                assert forall|ev: Seq<char>, iv: Seq<char>, av: Seq<char>, sv: u64, hv: u64|
                    !block_tail_at(s@, i as int, ev, iv, av, sv, hv) by {
                    if block_tail_at(s@, i as int, ev, iv, av, sv, hv) {
                        lemma_block_tail_at_parts(s@, i as int, ev, iv, av, sv, hv);
                        assert(ja == i + ev.len() + 1);
                        assert(jb == i + ev.len() + 8);
                        assert(jc == i + ev.len() + 9 + iv.len());
                        assert(jd == i + ev.len() + 22 + iv.len());
                        assert(je == i + ev.len() + 23 + iv.len() + av.len());
                        assert(false);
                    }
                }
            }
            return None;
        }
    };
    let (slot, jg) = match parse_u64(s, n, jf) {
        Some(x) => x,
        None => {
            proof {
                assert forall|ev: Seq<char>, iv: Seq<char>, av: Seq<char>, sv: u64, hv: u64|
                    !block_tail_at(s@, i as int, ev, iv, av, sv, hv) by {
                    if block_tail_at(s@, i as int, ev, iv, av, sv, hv) {
                        lemma_block_tail_at_parts(s@, i as int, ev, iv, av, sv, hv);
                        assert(ja == i + ev.len() + 1);
                        assert(jb == i + ev.len() + 8);
                        assert(jc == i + ev.len() + 9 + iv.len());
                        assert(jd == i + ev.len() + 22 + iv.len());
                        assert(je == i + ev.len() + 23 + iv.len() + av.len());
                        assert(jf == i + ev.len() + 31 + iv.len() + av.len());
                        assert(false);
                    }
                }
            }
            return None;
        }
    };
    let jh = match expect_lit(s, n, jg, ",\"height\":") {
        Some(x) => x,
        None => {
            proof {
                assert forall|ev: Seq<char>, iv: Seq<char>, av: Seq<char>, sv: u64, hv: u64|
                    !block_tail_at(s@, i as int, ev, iv, av, sv, hv) by {
                    if block_tail_at(s@, i as int, ev, iv, av, sv, hv) {
                        lemma_block_tail_at_parts(s@, i as int, ev, iv, av, sv, hv);
                        assert(ja == i + ev.len() + 1);
                        assert(jb == i + ev.len() + 8);
                        assert(jc == i + ev.len() + 9 + iv.len());
                        assert(jd == i + ev.len() + 22 + iv.len());
                        assert(je == i + ev.len() + 23 + iv.len() + av.len());
                        assert(jf == i + ev.len() + 31 + iv.len() + av.len());
                        assert(slot == sv && jg == jf + dec_rep(sv as nat).len());
                        assert(false);
                    }
                }
            }
            return None;
        }
    };
    let (height, ji) = match parse_u64(s, n, jh) {
        Some(x) => x,
        None => {
            proof {
                assert forall|ev: Seq<char>, iv: Seq<char>, av: Seq<char>, sv: u64, hv: u64|
                    !block_tail_at(s@, i as int, ev, iv, av, sv, hv) by {
                    if block_tail_at(s@, i as int, ev, iv, av, sv, hv) {
                        lemma_block_tail_at_parts(s@, i as int, ev, iv, av, sv, hv);
                        assert(ja == i + ev.len() + 1);
                        assert(jb == i + ev.len() + 8);
                        assert(jc == i + ev.len() + 9 + iv.len());
                        assert(jd == i + ev.len() + 22 + iv.len());
                        assert(je == i + ev.len() + 23 + iv.len() + av.len());
                        assert(jf == i + ev.len() + 31 + iv.len() + av.len());
                        assert(slot == sv && jg == jf + dec_rep(sv as nat).len());
                        assert(jh == jg + 10);
                        assert(false);
                    }
                }
            }
            return None;
        }
    };
    let jj = match expect_lit(s, n, ji, "}") {
        Some(x) => x,
        None => {
            proof {
                reveal_strlit("}");
                assert forall|ev: Seq<char>, iv: Seq<char>, av: Seq<char>, sv: u64, hv: u64|
                    !block_tail_at(s@, i as int, ev, iv, av, sv, hv) by {
                    if block_tail_at(s@, i as int, ev, iv, av, sv, hv) {
                        lemma_block_tail_at_parts(s@, i as int, ev, iv, av, sv, hv);
                        assert(ja == i + ev.len() + 1);
                        assert(jb == i + ev.len() + 8);
                        assert(jc == i + ev.len() + 9 + iv.len());
                        assert(jd == i + ev.len() + 22 + iv.len());
                        assert(je == i + ev.len() + 23 + iv.len() + av.len());
                        assert(jf == i + ev.len() + 31 + iv.len() + av.len());
                        assert(slot == sv && jg == jf + dec_rep(sv as nat).len());
                        assert(jh == jg + 10);
                        assert(height == hv && ji == jh + dec_rep(hv as nat).len());
                        assert(false);
                    }
                }
            }
            return None;
        }
    };
    proof {
        reveal_strlit("\",\"id\":\"");
        reveal_strlit("\",\"ancestor\":\"");
        reveal_strlit("\",\"slot\":");
        assert("\",\"id\":\""@ =~= seq!['"'] + ",\"id\":\""@);
        assert("\",\"ancestor\":\""@ =~= seq!['"'] + ",\"ancestor\":\""@);
        assert("\",\"slot\":"@ =~= seq!['"'] + ",\"slot\":"@);
        lemma_join(s@, i as int, ja as int, jb as int);
        lemma_join(s@, i as int, jb as int, jc as int);
        lemma_join(s@, i as int, jc as int, jd as int);
        lemma_join(s@, i as int, jd as int, je as int);
        lemma_join(s@, i as int, je as int, jf as int);
        lemma_join(s@, i as int, jf as int, jg as int);
        lemma_join(s@, i as int, jg as int, jh as int);
        lemma_join(s@, i as int, jh as int, ji as int);
        lemma_join(s@, i as int, ji as int, jj as int);
        assert(s@.subrange(i as int, jj as int)
            =~= block_tail_enc(era@, id@, ancestor@, slot, height));
        assert forall|ev: Seq<char>, iv: Seq<char>, av: Seq<char>, sv: u64, hv: u64|
            block_tail_at(s@, i as int, ev, iv, av, sv, hv) implies
            (era@ == ev && id@ == iv && ancestor@ == av && slot == sv && height == hv
                && jj == i + block_tail_enc(ev, iv, av, sv, hv).len()) by {
            lemma_block_tail_at_parts(s@, i as int, ev, iv, av, sv, hv);
            assert(era@ =~= ev);
            assert(ja == i + ev.len() + 1);
            assert(jb == i + ev.len() + 8);
            assert(id@ =~= iv);
            assert(jc == i + ev.len() + 9 + iv.len());
            assert(jd == i + ev.len() + 22 + iv.len());
            assert(ancestor@ =~= av);
            assert(je == i + ev.len() + 23 + iv.len() + av.len());
            assert(jf == i + ev.len() + 31 + iv.len() + av.len());
            assert(slot == sv && jg == jf + dec_rep(sv as nat).len());
            assert(jh == jg + 10);
            assert(height == hv && ji == jh + dec_rep(hv as nat).len());
        }
    }
    Some(((era, id, ancestor, slot, height), jj))
}

/// Parse a block at position `i`.
pub fn parse_block(s: &str, n: usize, i: usize) -> (r: Option<(Block, usize)>)
    requires
        i <= n == s@.len(),
    ensures
        (r matches Some((b, j)) ==> i <= j <= s@.len() && b@.wf()
            && s@.subrange(i as int, j as int) == block_enc(b@)),
        (forall|bv: BlockV| block_at(s@, i as int, bv) ==>
            (r matches Some((b, j)) && b@ == bv && j == i + block_enc(bv).len())),
{
    proof {
        reveal_strlit("{\"type\":\"ebb\",\"era\":\"");
        reveal_strlit("{\"type\":\"bft\",\"era\":\"");
        reveal_strlit("{\"type\":\"praos\",\"era\":\"");
        reveal_strlit("ebb");
        reveal_strlit("bft");
        reveal_strlit("praos");
    }
    let (head_end, is_ebb, is_bft) = if let Some(j0) = expect_lit(s, n, i, "{\"type\":\"ebb\",\"era\":\"") {
        (j0, true, false)
    } else if let Some(j0) = expect_lit(s, n, i, "{\"type\":\"bft\",\"era\":\"") {
        (j0, false, true)
    } else if let Some(j0) = expect_lit(s, n, i, "{\"type\":\"praos\",\"era\":\"") {
        (j0, false, false)
    } else {
        proof {
            assert forall|bv: BlockV| !block_at(s@, i as int, bv) by {
                if block_at(s@, i as int, bv) {
                    lemma_split(s@, i as int, kind_head(bv.kind),
                        block_tail_enc(bv.era, bv.id, bv.ancestor, bv.slot, bv.height));
                    assert(lit_at(s@, i as int, kind_head(bv.kind)));
                    assert(false);
                }
            }
        }
        return None;
    };
    let ghost my_kind: BlockKind = if is_ebb { BlockKind::Ebb } else if is_bft { BlockKind::Bft }
        else { BlockKind::Praos };
    proof {
        assert(lit_at(s@, i as int, kind_head(my_kind)));
        assert(head_end == i + kind_head(my_kind).len());
        // any block standing at `i` has this same flavour: the heads differ
        // at the character after the opening type quote
        assert forall|bv: BlockV| block_at(s@, i as int, bv) implies bv.kind == my_kind by {
            lemma_split(s@, i as int, kind_head(bv.kind),
                block_tail_enc(bv.era, bv.id, bv.ancestor, bv.slot, bv.height));
            if bv.kind != my_kind {
                assert(s@[i + 9] == kind_head(bv.kind)[9]);
                assert(s@[i + 9] == kind_head(my_kind)[9]);
                assert(false);
            }
        }
    }
    let tail = parse_block_tail(s, n, head_end);
    match tail {
        Some(((era, id, ancestor, slot, height), j)) => {
            let b = if is_ebb {
                Block::EBB(BlockEBB {
                    block_type: "ebb".to_owned(),
                    era, id, ancestor, slot, height,
                })
            } else if is_bft {
                Block::BFT(BlockBFT {
                    block_type: "bft".to_owned(),
                    era, id, ancestor, slot, height,
                })
            } else {
                Block::Praos(BlockPraos {
                    block_type: "praos".to_owned(),
                    era, id, ancestor, slot, height,
                })
            };
            proof {
                assert(b@.kind == my_kind);
                lemma_join(s@, i as int, head_end as int, j as int);
                assert(s@.subrange(i as int, j as int) =~= block_enc(b@));
                assert forall|bv: BlockV| block_at(s@, i as int, bv) implies
                    (b@ == bv && j == i + block_enc(bv).len()) by {
                    lemma_split(s@, i as int, kind_head(bv.kind),
                        block_tail_enc(bv.era, bv.id, bv.ancestor, bv.slot, bv.height));
                    assert(bv.kind == my_kind);
                    assert(block_tail_at(s@, head_end as int, bv.era, bv.id, bv.ancestor,
                        bv.slot, bv.height));
                }
            }
            Some((b, j))
        }
        None => {
            proof {
                assert forall|bv: BlockV| !block_at(s@, i as int, bv) by {
                    if block_at(s@, i as int, bv) {
                        lemma_split(s@, i as int, kind_head(bv.kind),
                            block_tail_enc(bv.era, bv.id, bv.ancestor, bv.slot, bv.height));
                        assert(bv.kind == my_kind);
                        assert(block_tail_at(s@, head_end as int, bv.era, bv.id, bv.ancestor,
                            bv.slot, bv.height));
                        assert(false);
                    }
                }
            }
            None
        }
    }
}

/// Canonical text of a chain-synchronization event.
pub open spec fn event_enc(e: NextBlockV) -> Seq<char> {
    match e {
        NextBlockV::Forward { block, tip } => "{\"direction\":\"forward\",\"block\":"@
            + block_enc(block) + ",\"tip\":"@ + tip_enc(tip) + "}"@,
        NextBlockV::Backward { point, tip } => "{\"direction\":\"backward\",\"point\":"@
            + point_enc(point) + ",\"tip\":"@ + tip_enc(tip) + "}"@,
    }
}

/// The canonical text of an event stands in `s` at position `i`.
pub open spec fn event_at(s: Seq<char>, i: int, e: NextBlockV) -> bool {
    e.wf() && lit_at(s, i, event_enc(e))
}

/// Encode a chain-synchronization event as its canonical text.
pub fn encode_next_block(e: &NextBlockResponse) -> (r: String)
    ensures
        r@ == event_enc(e@),
{
    match e {
        NextBlockResponse::Forward { block, tip } => {
            let mut r = "{\"direction\":\"forward\",\"block\":".to_owned();
            let block_str = encode_block(block);
            r.append(block_str.as_str());
            r.append(",\"tip\":");
            let tip_str = encode_tip(tip);
            r.append(tip_str.as_str());
            r.append("}");
            proof {
                assert(r@ =~= event_enc(e@));
            }
            r
        }
        NextBlockResponse::Backward { point, tip } => {
            let mut r = "{\"direction\":\"backward\",\"point\":".to_owned();
            let point_str = encode_point(point);
            r.append(point_str.as_str());
            r.append(",\"tip\":");
            let tip_str = encode_tip(tip);
            r.append(tip_str.as_str());
            r.append("}");
            proof {
                assert(r@ =~= event_enc(e@));
            }
            r
        }
    }
}

/// Where a forward event stands at `i`, its pieces stand at their canonical
/// positions.
proof fn lemma_event_forward_parts(s: Seq<char>, i: int, block: BlockV, tip: TipV)
    requires
        event_at(s, i, NextBlockV::Forward { block, tip }),
    ensures
        ({
            let hl = "{\"direction\":\"forward\",\"block\":"@.len() as int;
            let bl = block_enc(block).len() as int;
            let tl = tip_enc(tip).len() as int;
            &&& lit_at(s, i, "{\"direction\":\"forward\",\"block\":"@)
            &&& block_at(s, i + hl, block)
            &&& lit_at(s, i + hl + bl, ",\"tip\":"@)
            &&& tip_at(s, i + hl + bl + 7, tip)
            &&& lit_at(s, i + hl + bl + 7 + tl, "}"@)
            &&& event_enc(NextBlockV::Forward { block, tip }).len() == hl + bl + 7 + tl + 1
        }),
{
    reveal_strlit(",\"tip\":");
    reveal_strlit("}");
    let h = "{\"direction\":\"forward\",\"block\":"@;
    let t2 = ",\"tip\":"@;
    let z = "}"@;
    let b = block_enc(block);
    let t = tip_enc(tip);
    let hl = h.len() as int;
    let bl = b.len() as int;
    let tl = t.len() as int;
    let enc = event_enc(NextBlockV::Forward { block, tip });
    assert(enc =~= h + (b + (t2 + (t + z))));
    lemma_split(s, i, h, b + (t2 + (t + z)));
    lemma_split(s, i + hl, b, t2 + (t + z));
    lemma_split(s, i + hl + bl, t2, t + z);
    lemma_split(s, i + hl + bl + 7, t, z);
}

/// Where a backward event stands at `i`, its pieces stand at their canonical
/// positions.
proof fn lemma_event_backward_parts(s: Seq<char>, i: int, point: PointV, tip: TipV)
    requires
        event_at(s, i, NextBlockV::Backward { point, tip }),
    ensures
        ({
            let hl = "{\"direction\":\"backward\",\"point\":"@.len() as int;
            let pl = point_enc(point).len() as int;
            let tl = tip_enc(tip).len() as int;
            &&& lit_at(s, i, "{\"direction\":\"backward\",\"point\":"@)
            &&& point_at(s, i + hl, point)
            &&& lit_at(s, i + hl + pl, ",\"tip\":"@)
            &&& tip_at(s, i + hl + pl + 7, tip)
            &&& lit_at(s, i + hl + pl + 7 + tl, "}"@)
            &&& event_enc(NextBlockV::Backward { point, tip }).len() == hl + pl + 7 + tl + 1
        }),
{
    reveal_strlit(",\"tip\":");
    reveal_strlit("}");
    let h = "{\"direction\":\"backward\",\"point\":"@;
    let t2 = ",\"tip\":"@;
    let z = "}"@;
    let p = point_enc(point);
    let t = tip_enc(tip);
    let hl = h.len() as int;
    let pl = p.len() as int;
    let tl = t.len() as int;
    let enc = event_enc(NextBlockV::Backward { point, tip });
    assert(enc =~= h + (p + (t2 + (t + z))));
    lemma_split(s, i, h, p + (t2 + (t + z)));
    lemma_split(s, i + hl, p, t2 + (t + z));
    lemma_split(s, i + hl + pl, t2, t + z);
    lemma_split(s, i + hl + pl + 7, t, z);
}

/// Parse a chain-synchronization event at position `i`.
pub fn parse_next_block(s: &str, n: usize, i: usize) -> (r: Option<(NextBlockResponse, usize)>)
    requires
        i <= n == s@.len(),
    ensures
        (r matches Some((e, j)) ==> i <= j <= s@.len() && e@.wf()
            && s@.subrange(i as int, j as int) == event_enc(e@)),
        (forall|ev: NextBlockV| event_at(s@, i as int, ev) ==>
            (r matches Some((e, j)) && e@ == ev && j == i + event_enc(ev).len())),
{
    proof {
        reveal_strlit("{\"direction\":\"forward\",\"block\":");
        reveal_strlit("{\"direction\":\"backward\",\"point\":");
        reveal_strlit(",\"tip\":");
        reveal_strlit("}");
    }
    if let Some(j0) = expect_lit(s, n, i, "{\"direction\":\"forward\",\"block\":") {
        proof {
            // any event standing at `i` rolls forward: the heads differ
            // after the opening direction quote
            assert forall|ev: NextBlockV| event_at(s@, i as int, ev) implies ev is Forward by {
                if let NextBlockV::Backward { point, tip } = ev {
                    lemma_event_backward_parts(s@, i as int, point, tip);
                    assert(s@[i + 14] == "{\"direction\":\"backward\",\"point\":"@[14]);
                    assert(s@[i + 14] == s@.subrange(i as int, j0 as int)[14]);
                    assert(false);
                }
            }
        }
        let (b, j1) = match parse_block(s, n, j0) {
            Some(x) => x,
            None => {
                proof {
                    assert forall|ev: NextBlockV| !event_at(s@, i as int, ev) by {
                        if let NextBlockV::Forward { block, tip } = ev {
                            if event_at(s@, i as int, ev) {
                                lemma_event_forward_parts(s@, i as int, block, tip);
                                assert(false);
                            }
                        }
                    }
                }
                return None;
            }
        };
        let j2 = match expect_lit(s, n, j1, ",\"tip\":") {
            Some(x) => x,
            None => {
                proof {
                    assert forall|ev: NextBlockV| !event_at(s@, i as int, ev) by {
                        if let NextBlockV::Forward { block, tip } = ev {
                            if event_at(s@, i as int, ev) {
                                lemma_event_forward_parts(s@, i as int, block, tip);
                                assert(j1 == j0 + block_enc(block).len());
                                assert(false);
                            }
                        }
                    }
                }
                return None;
            }
        };
        let (t, j3) = match parse_tip(s, n, j2) {
            Some(x) => x,
            None => {
                proof {
                    assert forall|ev: NextBlockV| !event_at(s@, i as int, ev) by {
                        if let NextBlockV::Forward { block, tip } = ev {
                            if event_at(s@, i as int, ev) {
                                lemma_event_forward_parts(s@, i as int, block, tip);
                                assert(j1 == j0 + block_enc(block).len());
                                assert(j2 == j1 + 7);
                                assert(false);
                            }
                        }
                    }
                }
                return None;
            }
        };
        let j4 = match expect_lit(s, n, j3, "}") {
            Some(x) => x,
            None => {
                proof {
                    assert forall|ev: NextBlockV| !event_at(s@, i as int, ev) by {
                        if let NextBlockV::Forward { block, tip } = ev {
                            if event_at(s@, i as int, ev) {
                                lemma_event_forward_parts(s@, i as int, block, tip);
                                assert(j1 == j0 + block_enc(block).len());
                                assert(j2 == j1 + 7);
                                assert(j3 == j2 + tip_enc(tip).len());
                                assert(false);
                            }
                        }
                    }
                }
                return None;
            }
        };
        let e = NextBlockResponse::Forward { block: b, tip: t };
        proof {
            lemma_join(s@, i as int, j0 as int, j1 as int);
            lemma_join(s@, i as int, j1 as int, j2 as int);
            lemma_join(s@, i as int, j2 as int, j3 as int);
            lemma_join(s@, i as int, j3 as int, j4 as int);
            assert(s@.subrange(i as int, j4 as int) =~= event_enc(e@));
            assert forall|ev: NextBlockV| event_at(s@, i as int, ev) implies
                (e@ == ev && j4 == i + event_enc(ev).len()) by {
                if let NextBlockV::Forward { block, tip } = ev {
                    lemma_event_forward_parts(s@, i as int, block, tip);
                    assert(b@ == block && j1 == j0 + block_enc(block).len());
                    assert(j2 == j1 + 7);
                    assert(t@ == tip && j3 == j2 + tip_enc(tip).len());
                }
            }
        }
        return Some((e, j4));
    }
    if let Some(j0) = expect_lit(s, n, i, "{\"direction\":\"backward\",\"point\":") {
        proof {
            assert forall|ev: NextBlockV| event_at(s@, i as int, ev) implies ev is Backward by {
                if let NextBlockV::Forward { block, tip } = ev {
                    lemma_event_forward_parts(s@, i as int, block, tip);
                    assert(s@[i + 14] == "{\"direction\":\"forward\",\"block\":"@[14]);
                    assert(s@[i + 14] == s@.subrange(i as int, j0 as int)[14]);
                    assert(false);
                }
            }
        }
        let (p, j1) = match parse_point(s, n, j0) {
            Some(x) => x,
            None => {
                proof {
                    assert forall|ev: NextBlockV| !event_at(s@, i as int, ev) by {
                        if let NextBlockV::Backward { point, tip } = ev {
                            if event_at(s@, i as int, ev) {
                                lemma_event_backward_parts(s@, i as int, point, tip);
                                assert(false);
                            }
                        }
                    }
                }
                return None;
            }
        };
        let j2 = match expect_lit(s, n, j1, ",\"tip\":") {
            Some(x) => x,
            None => {
                proof {
                    assert forall|ev: NextBlockV| !event_at(s@, i as int, ev) by {
                        if let NextBlockV::Backward { point, tip } = ev {
                            if event_at(s@, i as int, ev) {
                                lemma_event_backward_parts(s@, i as int, point, tip);
                                assert(j1 == j0 + point_enc(point).len());
                                assert(false);
                            }
                        }
                    }
                }
                return None;
            }
        };
        let (t, j3) = match parse_tip(s, n, j2) {
            Some(x) => x,
            None => {
                proof {
                    assert forall|ev: NextBlockV| !event_at(s@, i as int, ev) by {
                        if let NextBlockV::Backward { point, tip } = ev {
                            if event_at(s@, i as int, ev) {
                                lemma_event_backward_parts(s@, i as int, point, tip);
                                assert(j1 == j0 + point_enc(point).len());
                                assert(j2 == j1 + 7);
                                assert(false);
                            }
                        }
                    }
                }
                return None;
            }
        };
        let j4 = match expect_lit(s, n, j3, "}") {
            Some(x) => x,
            None => {
                proof {
                    assert forall|ev: NextBlockV| !event_at(s@, i as int, ev) by {
                        if let NextBlockV::Backward { point, tip } = ev {
                            if event_at(s@, i as int, ev) {
                                lemma_event_backward_parts(s@, i as int, point, tip);
                                assert(j1 == j0 + point_enc(point).len());
                                assert(j2 == j1 + 7);
                                assert(j3 == j2 + tip_enc(tip).len());
                                assert(false);
                            }
                        }
                    }
                }
                return None;
            }
        };
        let e = NextBlockResponse::Backward { point: p, tip: t };
        proof {
            lemma_join(s@, i as int, j0 as int, j1 as int);
            lemma_join(s@, i as int, j1 as int, j2 as int);
            lemma_join(s@, i as int, j2 as int, j3 as int);
            lemma_join(s@, i as int, j3 as int, j4 as int);
            assert(s@.subrange(i as int, j4 as int) =~= event_enc(e@));
            assert forall|ev: NextBlockV| event_at(s@, i as int, ev) implies
                (e@ == ev && j4 == i + event_enc(ev).len()) by {
                if let NextBlockV::Backward { point, tip } = ev {
                    lemma_event_backward_parts(s@, i as int, point, tip);
                    assert(p@ == point && j1 == j0 + point_enc(point).len());
                    assert(j2 == j1 + 7);
                    assert(t@ == tip && j3 == j2 + tip_enc(tip).len());
                }
            }
        }
        return Some((e, j4));
    }
    proof {
        assert forall|ev: NextBlockV| !event_at(s@, i as int, ev) by {
            if event_at(s@, i as int, ev) {
                match ev {
                    NextBlockV::Forward { block, tip } => {
                        lemma_event_forward_parts(s@, i as int, block, tip);
                    }
                    NextBlockV::Backward { point, tip } => {
                        lemma_event_backward_parts(s@, i as int, point, tip);
                    }
                }
                assert(false);
            }
        }
    }
    None
}

/// Decode a whole text as a block.
///
/// The second clause is the round-trip law: the canonical encoding of any
/// block decodes back to that block.
pub fn decode_block(s: &str) -> (r: Option<Block>)
    ensures
        (r matches Some(b) ==> b@.wf() && s@ == block_enc(b@)),
        (forall|bv: BlockV| bv.wf() && s@ == block_enc(bv) ==>
            (r matches Some(b) && b@ == bv)),
{
    let n = s.unicode_len();
    match parse_block(s, n, 0) {
        Some((b, j)) => {
            if j == n {
                proof {
                    assert(s@.subrange(0, n as int) =~= s@);
                    assert forall|bv: BlockV| bv.wf() && s@ == block_enc(bv) implies b@ == bv by {
                        assert(block_at(s@, 0, bv));
                    }
                }
                Some(b)
            } else {
                proof {
                    assert forall|bv: BlockV| !(bv.wf() && s@ == block_enc(bv)) by {
                        if bv.wf() && s@ == block_enc(bv) {
                            assert(s@.subrange(0, s@.len() as int) =~= s@);
                            assert(block_at(s@, 0, bv));
                            assert(false);
                        }
                    }
                }
                None
            }
        }
        None => {
            proof {
                assert forall|bv: BlockV| !(bv.wf() && s@ == block_enc(bv)) by {
                    if bv.wf() && s@ == block_enc(bv) {
                        assert(s@.subrange(0, s@.len() as int) =~= s@);
                        assert(block_at(s@, 0, bv));
                        assert(false);
                    }
                }
            }
            None
        }
    }
}

/// Decode a whole text as a chain-synchronization event.
///
/// The second clause is the round-trip law: the canonical encoding of any
/// event decodes back to that event.
pub fn decode_next_block(s: &str) -> (r: Option<NextBlockResponse>)
    ensures
        (r matches Some(e) ==> e@.wf() && s@ == event_enc(e@)),
        (forall|ev: NextBlockV| ev.wf() && s@ == event_enc(ev) ==>
            (r matches Some(e) && e@ == ev)),
{
    let n = s.unicode_len();
    match parse_next_block(s, n, 0) {
        Some((e, j)) => {
            if j == n {
                proof {
                    assert(s@.subrange(0, n as int) =~= s@);
                    assert forall|ev: NextBlockV| ev.wf() && s@ == event_enc(ev) implies e@ == ev by {
                        assert(event_at(s@, 0, ev));
                    }
                }
                Some(e)
            } else {
                proof {
                    assert forall|ev: NextBlockV| !(ev.wf() && s@ == event_enc(ev)) by {
                        if ev.wf() && s@ == event_enc(ev) {
                            assert(s@.subrange(0, s@.len() as int) =~= s@);
                            assert(event_at(s@, 0, ev));
                            assert(false);
                        }
                    }
                }
                None
            }
        }
        None => {
            proof {
                assert forall|ev: NextBlockV| !(ev.wf() && s@ == event_enc(ev)) by {
                    if ev.wf() && s@ == event_enc(ev) {
                        assert(s@.subrange(0, s@.len() as int) =~= s@);
                        assert(event_at(s@, 0, ev));
                        assert(false);
                    }
                }
            }
            None
        }
    }
}

/// Decode a whole text as a point.
///
/// The second clause is the round-trip law: the canonical encoding of any
/// point decodes back to that point.
pub fn decode_point(s: &str) -> (r: Option<Point>)
    ensures
        (r matches Some(p) ==> p@.wf() && s@ == point_enc(p@)),
        (forall|pv: PointV| pv.wf() && s@ == point_enc(pv) ==>
            (r matches Some(p) && p@ == pv)),
{
    let n = s.unicode_len();
    match parse_point(s, n, 0) {
        Some((p, j)) => {
            if j == n {
                proof {
                    assert(s@.subrange(0, n as int) =~= s@);
                    assert forall|pv: PointV| pv.wf() && s@ == point_enc(pv) implies p@ == pv by {
                        assert(point_at(s@, 0, pv));
                    }
                }
                Some(p)
            } else {
                proof {
                    assert forall|pv: PointV| !(pv.wf() && s@ == point_enc(pv)) by {
                        if pv.wf() && s@ == point_enc(pv) {
                            assert(s@.subrange(0, s@.len() as int) =~= s@);
                            assert(point_at(s@, 0, pv));
                            assert(false);
                        }
                    }
                }
                None
            }
        }
        None => {
            proof {
                assert forall|pv: PointV| !(pv.wf() && s@ == point_enc(pv)) by {
                    if pv.wf() && s@ == point_enc(pv) {
                        assert(s@.subrange(0, s@.len() as int) =~= s@);
                        assert(point_at(s@, 0, pv));
                        assert(false);
                    }
                }
            }
            None
        }
    }
}

} // verus!
