//! Transaction submission and evaluation: request parameters and reply
//! interpretation.

use vstd::prelude::*;
use vstd::string::StringExecFns;
use crate::error::OgmiosError;
use crate::jsonrpc::{
    encode_request, i32_enc, is_error_reply, is_result_reply, parse_error_object,
    parse_reply_prelude, reply_error_enc, reply_result_enc, JsonRpcRequest,
};
use crate::numeral::{dec_at, dec_rep, parse_u64};
use crate::parse::{expect_lit, lemma_join, lemma_split, lit_at, lemma_str_end_exact, parse_str_rest, str_end};
use crate::primitives::{plain_str, TransactionId};
use crate::transaction::{EvaluationResult, ExUnits, ScriptPurpose, ValidatorIndex};

verus! {

/// Canonical text of the transaction parameters.
pub open spec fn tx_params_enc(cbor: Seq<char>) -> Seq<char> {
    "{\"transaction\":{\"cbor\":\""@ + cbor + "\"}}"@
}

/// Encode the transaction parameters.
pub fn transaction_params(cbor: &str) -> (r: String)
    ensures
        r@ == tx_params_enc(cbor@),
{
    let mut r = "{\"transaction\":{\"cbor\":\"".to_owned();
    r.append(cbor);
    r.append("\"}}");
    proof {
        assert(r@ =~= tx_params_enc(cbor@));
    }
    r
}

/// Build a submit request for a signed transaction.
pub fn submit_transaction_request(id: u64, cbor: &str) -> (r: String)
    ensures
        r@ == crate::jsonrpc::request_enc("submitTransaction"@, Some(tx_params_enc(cbor@)),
            Some(id)),
{
    let params = transaction_params(cbor);
    let req = JsonRpcRequest::with_id("submitTransaction", Some(params), id);
    encode_request(&req)
}

/// Build an evaluation request for a transaction.
pub fn evaluate_transaction_request(id: u64, cbor: &str) -> (r: String)
    ensures
        r@ == crate::jsonrpc::request_enc("evaluateTransaction"@, Some(tx_params_enc(cbor@)),
            Some(id)),
{
    let params = transaction_params(cbor);
    let req = JsonRpcRequest::with_id("evaluateTransaction", Some(params), id);
    encode_request(&req)
}

/// Canonical text of the submission result: the accepted transaction's
/// identifier.
pub open spec fn submit_result_enc(tx_id: Seq<char>) -> Seq<char> {
    "{\"transaction\":{\"id\":\""@ + tx_id + "\"}}"@
}

/// The canonical text of a submission result stands in `s` at position `i`.
pub open spec fn submit_at(s: Seq<char>, i: int, tx_id: Seq<char>) -> bool {
    plain_str(tx_id) && lit_at(s, i, submit_result_enc(tx_id))
}

/// Where a submission result stands at `i`, its pieces stand at their
/// canonical positions.
proof fn lemma_submit_parts(s: Seq<char>, i: int, tx_id: Seq<char>)
    requires
        submit_at(s, i, tx_id),
    ensures
        ({
            let il = tx_id.len() as int;
            &&& lit_at(s, i, "{\"transaction\":{\"id\":\""@)
            &&& s.subrange(i + 22, i + 22 + il) == tx_id
            &&& str_end(s, i + 22) == i + 22 + il
            &&& i + 22 + il < s.len()
            &&& lit_at(s, i + 23 + il, "}}"@)
            &&& submit_result_enc(tx_id).len() == 25 + il
        }),
{
    reveal_strlit("{\"transaction\":{\"id\":\"");
    reveal_strlit("\"}}");
    reveal_strlit("}}");
    let h = "{\"transaction\":{\"id\":\""@;
    let z = "}}"@;
    assert("\"}}"@ =~= seq!['"'] + z);
    let il = tx_id.len() as int;
    let enc = submit_result_enc(tx_id);
    assert(enc.len() == 25 + il);
    assert(enc =~= h + (tx_id + (seq!['"'] + z)));
    lemma_split(s, i, h, tx_id + (seq!['"'] + z));
    lemma_split(s, i + 22, tx_id, seq!['"'] + z);
    lemma_split(s, i + 22 + il, seq!['"'], z);
    assert(s[i + 22 + il] == s.subrange(i + 22 + il, i + 23 + il)[0]);
    assert forall|k: int| i + 22 <= k < i + 22 + il implies s[k] != '"' by {
        assert(s[k] == tx_id[k - (i + 22)]);
    }
    lemma_str_end_exact(s, i + 22, i + 22 + il);
}

/// Parse a submission result at position `i`.
pub fn parse_submit_result(s: &str, n: usize, i: usize) -> (r: Option<(TransactionId, usize)>)
    requires
        i <= n == s@.len(),
    ensures
        (r matches Some((t, j)) ==> i <= j <= s@.len() && plain_str(t@)
            && s@.subrange(i as int, j as int) == submit_result_enc(t@)),
        (forall|tx_id: Seq<char>| submit_at(s@, i as int, tx_id) ==>
            (r matches Some((t, j)) && t@ == tx_id && j == i + submit_result_enc(tx_id).len())),
{
    proof {
        reveal_strlit("{\"transaction\":{\"id\":\"");
        reveal_strlit("}}");
    }
    let j0 = match expect_lit(s, n, i, "{\"transaction\":{\"id\":\"") {
        Some(x) => x,
        None => {
            proof {
                assert forall|tx_id: Seq<char>| !submit_at(s@, i as int, tx_id) by {
                    if submit_at(s@, i as int, tx_id) {
                        lemma_submit_parts(s@, i as int, tx_id);
                        assert(false);
                    }
                }
            }
            return None;
        }
    };
    let (t, j1) = match parse_str_rest(s, n, j0) {
        Some(x) => x,
        None => {
            proof {
                assert forall|tx_id: Seq<char>| !submit_at(s@, i as int, tx_id) by {
                    if submit_at(s@, i as int, tx_id) {
                        lemma_submit_parts(s@, i as int, tx_id);
                        assert(false);
                    }
                }
            }
            return None;
        }
    };
    let j2 = match expect_lit(s, n, j1, "}}") {
        Some(x) => x,
        None => {
            proof {
                assert forall|tx_id: Seq<char>| !submit_at(s@, i as int, tx_id) by {
                    if submit_at(s@, i as int, tx_id) {
                        lemma_submit_parts(s@, i as int, tx_id);
                        assert(j1 == i + 23 + tx_id.len());
                        assert(false);
                    }
                }
            }
            return None;
        }
    };
    proof {
        reveal_strlit("\"}}");
        assert("\"}}"@ =~= seq!['"'] + "}}"@);
        lemma_join(s@, i as int, j0 as int, j1 as int);
        lemma_join(s@, i as int, j1 as int, j2 as int);
        assert(s@.subrange(i as int, j2 as int) =~= submit_result_enc(t@));
        assert forall|tx_id: Seq<char>| submit_at(s@, i as int, tx_id) implies
            (t@ == tx_id && j2 == i + submit_result_enc(tx_id).len()) by {
            lemma_submit_parts(s@, i as int, tx_id);
            assert(t@ =~= tx_id);
        }
    }
    Some((t, j2))
}

/// Decode and interpret the reply to a submit request: the accepted
/// transaction's identifier, or the remote's error.
///
/// An identifier is returned only where the reply carried exactly it, so no
/// transaction identifier is ever invented.
#[verifier::rlimit(60)]
pub fn interpret_submit_transaction_reply(s: &str) -> (r: Result<TransactionId, OgmiosError>)
    ensures
        (forall|id: u64, tx_id: Seq<char>| plain_str(tx_id)
            && s@ == reply_result_enc(id, submit_result_enc(tx_id)) ==>
            (r matches Ok(t) && t@ == tx_id)),
        (forall|id: u64, code: i32, msg: Seq<char>| plain_str(msg)
            && s@ == reply_error_enc(id, code as int, msg) ==>
            (r matches Err(e) && e matches OgmiosError::InvalidResponse { message }
                && message@ == "JSON-RPC error "@ + i32_enc(code as int) + ": "@ + msg)),
        (r matches Ok(t) ==> plain_str(t@) && is_result_reply(s@, submit_result_enc(t@))),
        (r matches Err(e) ==> match e {
            OgmiosError::InvalidResponse { message } => is_error_reply(s@, message@),
            OgmiosError::Json(_) => true,
            _ => false,
        }),
{
    proof {
        reveal_strlit("}");
    }
    let n = s.unicode_len();
    match parse_reply_prelude(s, n) {
        Some((id, j, true)) => {
            match parse_submit_result(s, n, j) {
                Some((t, j2)) => {
                    match expect_lit(s, n, j2, "}") {
                        Some(j3) => {
                            if j3 == n {
                                proof {
                                    lemma_join(s@, 0, j as int, j2 as int);
                                    lemma_join(s@, 0, j2 as int, j3 as int);
                                    assert(s@.subrange(0, j3 as int) =~= s@);
                                    assert(s@.subrange(0, j3 as int) =~= reply_result_enc(
                                        id,
                                        submit_result_enc(t@),
                                    ));
                                    assert(is_result_reply(s@, submit_result_enc(t@))) by {
                                        assert(s@ == reply_result_enc(id, submit_result_enc(t@)));
                                    };
                                    assert forall|id2: u64, tx_id: Seq<char>| plain_str(tx_id)
                                        && s@ == reply_result_enc(id2, submit_result_enc(tx_id))
                                        implies t@ == tx_id by {
                                        crate::jsonrpc::lemma_reply_result_parts(
                                            s@,
                                            id2,
                                            submit_result_enc(tx_id),
                                        );
                                        let dl = dec_rep(id2 as nat).len() as int;
                                        assert(submit_at(s@, 32 + dl, tx_id));
                                        assert(j == 32 + dl);
                                    }
                                }
                                Ok(t)
                            } else {
                                proof {
                                    assert forall|id2: u64, tx_id: Seq<char>| !(plain_str(tx_id)
                                        && s@ == reply_result_enc(id2, submit_result_enc(tx_id)))
                                        by {
                                        if plain_str(tx_id) && s@ == reply_result_enc(
                                            id2,
                                            submit_result_enc(tx_id),
                                        ) {
                                            crate::jsonrpc::lemma_reply_result_parts(
                                                s@,
                                                id2,
                                                submit_result_enc(tx_id),
                                            );
                                            let dl = dec_rep(id2 as nat).len() as int;
                                            assert(submit_at(s@, 32 + dl, tx_id));
                                            assert(j == 32 + dl);
                                            assert(j2 == j + submit_result_enc(tx_id).len());
                                            assert(s@.len() == 33 + dl + submit_result_enc(
                                                tx_id,
                                            ).len());
                                            assert(false);
                                        }
                                    }
                                }
                                Err(OgmiosError::Json("malformed reply".to_owned()))
                            }
                        }
                        None => {
                            proof {
                                assert forall|id2: u64, tx_id: Seq<char>| !(plain_str(tx_id)
                                    && s@ == reply_result_enc(id2, submit_result_enc(tx_id))) by {
                                    if plain_str(tx_id) && s@ == reply_result_enc(
                                        id2,
                                        submit_result_enc(tx_id),
                                    ) {
                                        crate::jsonrpc::lemma_reply_result_parts(
                                            s@,
                                            id2,
                                            submit_result_enc(tx_id),
                                        );
                                        let dl = dec_rep(id2 as nat).len() as int;
                                        assert(submit_at(s@, 32 + dl, tx_id));
                                        assert(j == 32 + dl);
                                        assert(j2 == j + submit_result_enc(tx_id).len());
                                        assert(false);
                                    }
                                }
                            }
                            Err(OgmiosError::Json("malformed reply".to_owned()))
                        }
                    }
                }
                None => {
                    proof {
                        assert forall|id2: u64, tx_id: Seq<char>| !(plain_str(tx_id)
                            && s@ == reply_result_enc(id2, submit_result_enc(tx_id))) by {
                            if plain_str(tx_id) && s@ == reply_result_enc(
                                id2,
                                submit_result_enc(tx_id),
                            ) {
                                crate::jsonrpc::lemma_reply_result_parts(
                                    s@,
                                    id2,
                                    submit_result_enc(tx_id),
                                );
                                let dl = dec_rep(id2 as nat).len() as int;
                                assert(submit_at(s@, 32 + dl, tx_id));
                                assert(j == 32 + dl);
                                assert(false);
                            }
                        }
                    }
                    Err(OgmiosError::Json("malformed reply".to_owned()))
                }
            }
        }
        Some((id, j, false)) => {
            match parse_error_object(s, n, j) {
                Some((e, j2)) => {
                    match expect_lit(s, n, j2, "}") {
                        Some(j3) => {
                            if j3 == n {
                                let message = crate::chain_sync::json_rpc_error_message(&e);
                                proof {
                                    assert forall|id2: u64, code: i32, msg: Seq<char>|
                                        (plain_str(msg) && s@ == reply_error_enc(
                                            id2,
                                            code as int,
                                            msg,
                                        )) implies (e.code == code && e.message@ == msg) by {
                                        crate::jsonrpc::lemma_reply_error_parts(s@, id2, code, msg);
                                        let dl = dec_rep(id2 as nat).len() as int;
                                        assert(crate::jsonrpc::err_obj_at(s@, 31 + dl, code, msg));
                                        assert(j == 31 + dl);
                                    }
                                }
                                proof {
                                    lemma_join(s@, 0, j as int, j2 as int);
                                    lemma_join(s@, 0, j2 as int, j3 as int);
                                    assert(s@.subrange(0, j3 as int) =~= s@);
                                    assert(s@.subrange(0, j3 as int) =~= reply_error_enc(
                                        id,
                                        e.code as int,
                                        e.message@,
                                    ));
                                    assert(is_error_reply(s@, message@)) by {
                                        assert(plain_str(e.message@)
                                            && s@ == reply_error_enc(id, e.code as int, e.message@)
                                            && message@ == "JSON-RPC error "@
                                                + i32_enc(e.code as int) + ": "@ + e.message@);
                                    };
                                }
                                Err(OgmiosError::InvalidResponse { message })
                            } else {
                                proof {
                                    assert forall|id2: u64, code: i32, msg: Seq<char>|
                                        !(plain_str(msg) && s@ == reply_error_enc(
                                            id2,
                                            code as int,
                                            msg,
                                        )) by {
                                        if plain_str(msg) && s@ == reply_error_enc(
                                            id2,
                                            code as int,
                                            msg,
                                        ) {
                                            crate::jsonrpc::lemma_reply_error_parts(s@, id2, code, msg);
                                            let dl = dec_rep(id2 as nat).len() as int;
                                            assert(crate::jsonrpc::err_obj_at(s@, 31 + dl, code, msg));
                                            assert(j == 31 + dl);
                                            assert(j2 == j + crate::jsonrpc::err_obj_enc(
                                                code as int,
                                                msg,
                                            ).len());
                                            assert(s@.len() == 32 + dl + crate::jsonrpc::err_obj_enc(
                                                code as int,
                                                msg,
                                            ).len());
                                            assert(false);
                                        }
                                    }
                                }
                                Err(OgmiosError::Json("malformed reply".to_owned()))
                            }
                        }
                        None => {
                            proof {
                                assert forall|id2: u64, code: i32, msg: Seq<char>|
                                    !(plain_str(msg) && s@ == reply_error_enc(id2, code as int, msg))
                                    by {
                                    if plain_str(msg) && s@ == reply_error_enc(
                                        id2,
                                        code as int,
                                        msg,
                                    ) {
                                        crate::jsonrpc::lemma_reply_error_parts(s@, id2, code, msg);
                                        let dl = dec_rep(id2 as nat).len() as int;
                                        assert(crate::jsonrpc::err_obj_at(s@, 31 + dl, code, msg));
                                        assert(j == 31 + dl);
                                        assert(j2 == j + crate::jsonrpc::err_obj_enc(
                                            code as int,
                                            msg,
                                        ).len());
                                        assert(false);
                                    }
                                }
                            }
                            Err(OgmiosError::Json("malformed reply".to_owned()))
                        }
                    }
                }
                None => {
                    proof {
                        assert forall|id2: u64, code: i32, msg: Seq<char>|
                            !(plain_str(msg) && s@ == reply_error_enc(id2, code as int, msg)) by {
                            if plain_str(msg) && s@ == reply_error_enc(id2, code as int, msg) {
                                crate::jsonrpc::lemma_reply_error_parts(s@, id2, code, msg);
                                let dl = dec_rep(id2 as nat).len() as int;
                                assert(crate::jsonrpc::err_obj_at(s@, 31 + dl, code, msg));
                                assert(j == 31 + dl);
                                assert(false);
                            }
                        }
                    }
                    Err(OgmiosError::Json("malformed reply".to_owned()))
                }
            }
        }
        None => Err(OgmiosError::Json("malformed reply".to_owned())),
    }
}

/// The wire spelling of a script purpose.
pub open spec fn purpose_str(p: ScriptPurpose) -> Seq<char> {
    match p {
        ScriptPurpose::Spend => "spend"@,
        ScriptPurpose::Mint => "mint"@,
        ScriptPurpose::Publish => "publish"@,
        ScriptPurpose::Withdraw => "withdraw"@,
        ScriptPurpose::Propose => "propose"@,
        ScriptPurpose::Vote => "vote"@,
    }
}

/// Canonical text of one evaluation result.
pub open spec fn eval_item_enc(e: EvaluationResult) -> Seq<char> {
    "{\"validator\":{\"purpose\":\""@ + purpose_str(e.validator.purpose) + "\",\"index\":"@
        + dec_rep(e.validator.index as nat) + "},\"budget\":{\"memory\":"@
        + dec_rep(e.budget.memory as nat) + ",\"cpu\":"@ + dec_rep(e.budget.cpu as nat) + "}}"@
}

/// The items of an evaluation result list, comma separated, first item
/// first.
pub open spec fn eval_items_enc(es: Seq<EvaluationResult>) -> Seq<char>
    decreases es.len(),
{
    if es.len() == 0 {
        Seq::empty()
    } else if es.len() == 1 {
        eval_item_enc(es[0])
    } else {
        eval_item_enc(es[0]) + seq![','] + eval_items_enc(es.drop_first())
    }
}

/// Canonical text of an evaluation result list.
pub open spec fn eval_list_enc(es: Seq<EvaluationResult>) -> Seq<char> {
    seq!['['] + eval_items_enc(es) + seq![']']
}

/// The canonical text of one evaluation result stands in `s` at position
/// `i`.
pub open spec fn eval_item_at(s: Seq<char>, i: int, e: EvaluationResult) -> bool {
    lit_at(s, i, eval_item_enc(e))
}

/// Canonical text of an evaluation result's validator part.
pub open spec fn validator_enc(v: ValidatorIndex) -> Seq<char> {
    "{\"validator\":{\"purpose\":\""@ + purpose_str(v.purpose) + "\",\"index\":"@
        + dec_rep(v.index as nat)
}

/// Canonical text of an evaluation result's budget part.
pub open spec fn budget_enc(b: ExUnits) -> Seq<char> {
    "},\"budget\":{\"memory\":"@ + dec_rep(b.memory as nat) + ",\"cpu\":"@
        + dec_rep(b.cpu as nat) + "}}"@
}

/// The validator part stands in `s` at position `i`, with no digit directly
/// after it.
pub open spec fn validator_at(s: Seq<char>, i: int, v: ValidatorIndex) -> bool {
    &&& lit_at(s, i, validator_enc(v))
    &&& (i + validator_enc(v).len() < s.len() ==> !crate::numeral::is_digit(
        s[i + validator_enc(v).len()],
    ))
}

/// The budget part stands in `s` at position `i`.
pub open spec fn budget_at(s: Seq<char>, i: int, b: ExUnits) -> bool {
    lit_at(s, i, budget_enc(b))
}

/// Where a validator part stands at `i`, its pieces stand at their
/// canonical positions.
proof fn lemma_validator_parts(s: Seq<char>, i: int, v: ValidatorIndex)
    requires
        validator_at(s, i, v),
    ensures
        ({
            let pl = purpose_str(v.purpose).len() as int;
            let il = dec_rep(v.index as nat).len() as int;
            &&& lit_at(s, i, "{\"validator\":{\"purpose\":\""@)
            &&& s.subrange(i + 25, i + 25 + pl) == purpose_str(v.purpose)
            &&& str_end(s, i + 25) == i + 25 + pl
            &&& i + 25 + pl < s.len()
            &&& lit_at(s, i + 26 + pl, ",\"index\":"@)
            &&& dec_at(s, i + 35 + pl, v.index as u64)
            &&& validator_enc(v).len() == 35 + pl + il
        }),
{
    reveal_strlit("{\"validator\":{\"purpose\":\"");
    reveal_strlit("\",\"index\":");
    reveal_strlit(",\"index\":");
    reveal_strlit("spend");
    reveal_strlit("mint");
    reveal_strlit("publish");
    reveal_strlit("withdraw");
    reveal_strlit("propose");
    reveal_strlit("vote");
    let h = "{\"validator\":{\"purpose\":\""@;
    let q1 = ",\"index\":"@;
    assert("\",\"index\":"@ =~= seq!['"'] + q1);
    let p = purpose_str(v.purpose);
    let d1 = dec_rep(v.index as nat);
    let pl = p.len() as int;
    let il = d1.len() as int;
    let enc = validator_enc(v);
    assert(enc.len() == 35 + pl + il);
    assert(enc =~= h + (p + ((seq!['"'] + q1) + d1)));
    lemma_split(s, i, h, p + ((seq!['"'] + q1) + d1));
    lemma_split(s, i + 25, p, (seq!['"'] + q1) + d1);
    lemma_split(s, i + 25 + pl, seq!['"'] + q1, d1);
    lemma_split(s, i + 25 + pl, seq!['"'], q1);
    assert forall|k: int| 0 <= k < pl implies p[k] != '"' by {
    }
    assert forall|k: int| i + 25 <= k < i + 25 + pl implies s[k] != '"' by {
        assert(s[k] == p[k - (i + 25)]);
    }
    assert(s[i + 25 + pl] == s.subrange(i + 25 + pl, i + 26 + pl)[0]);
    lemma_str_end_exact(s, i + 25, i + 25 + pl);
}

/// Where a budget part stands at `i`, its pieces stand at their canonical
/// positions.
proof fn lemma_budget_parts(s: Seq<char>, i: int, b: ExUnits)
    requires
        budget_at(s, i, b),
    ensures
        ({
            let ml = dec_rep(b.memory as nat).len() as int;
            let cl = dec_rep(b.cpu as nat).len() as int;
            &&& lit_at(s, i, "},\"budget\":{\"memory\":"@)
            &&& dec_at(s, i + 21, b.memory)
            &&& lit_at(s, i + 21 + ml, ",\"cpu\":"@)
            &&& dec_at(s, i + 28 + ml, b.cpu)
            &&& lit_at(s, i + 28 + ml + cl, "}}"@)
            &&& budget_enc(b).len() == 30 + ml + cl
        }),
{
    reveal_strlit("},\"budget\":{\"memory\":");
    reveal_strlit(",\"cpu\":");
    reveal_strlit("}}");
    let h = "},\"budget\":{\"memory\":"@;
    let q3 = ",\"cpu\":"@;
    let z = "}}"@;
    let d2 = dec_rep(b.memory as nat);
    let d3 = dec_rep(b.cpu as nat);
    let ml = d2.len() as int;
    let cl = d3.len() as int;
    let enc = budget_enc(b);
    assert(enc.len() == 30 + ml + cl);
    assert(enc =~= h + (d2 + (q3 + (d3 + z))));
    lemma_split(s, i, h, d2 + (q3 + (d3 + z)));
    lemma_split(s, i + 21, d2, q3 + (d3 + z));
    lemma_split(s, i + 21 + ml, q3, d3 + z);
    lemma_split(s, i + 28 + ml, d3, z);
    assert(s[i + 21 + ml] == s.subrange(i + 21 + ml, i + 28 + ml)[0]);
    assert(s[i + 21 + ml] == ',');
    assert(!crate::numeral::is_digit(','));
    assert(s[i + 28 + ml + cl] == s.subrange(i + 28 + ml + cl, i + 30 + ml + cl)[0]);
    assert(s[i + 28 + ml + cl] == '}');
    assert(!crate::numeral::is_digit('}'));
}

/// An evaluation result's text splits into its validator and budget parts.
proof fn lemma_eval_item_split(s: Seq<char>, i: int, e: EvaluationResult)
    requires
        eval_item_at(s, i, e),
    ensures
        validator_at(s, i, e.validator),
        budget_at(s, i + validator_enc(e.validator).len(), e.budget),
        eval_item_enc(e).len() == validator_enc(e.validator).len() + budget_enc(e.budget).len(),
{
    reveal_strlit("},\"budget\":{\"memory\":");
    let ve = validator_enc(e.validator);
    let be = budget_enc(e.budget);
    assert(eval_item_enc(e) =~= ve + be);
    lemma_split(s, i, ve, be);
    let vl = ve.len() as int;
    // the budget part opens with a closing brace, which is no digit
    assert(s[i + vl] == s.subrange(i + vl, i + vl + be.len())[0]);
    assert(s[i + vl] == be[0]);
    assert(be[0] == "},\"budget\":{\"memory\":"@[0]);
    assert(!crate::numeral::is_digit('}'));
}

/// Read a script purpose from its wire spelling.
fn purpose_of_text(t: &str) -> (r: Option<ScriptPurpose>)
    ensures
        (r matches Some(p) ==> t@ == purpose_str(p)),
        (forall|p: ScriptPurpose| t@ == purpose_str(p) ==> r == Some(p)),
{
    proof {
        reveal_strlit("spend");
        reveal_strlit("mint");
        reveal_strlit("publish");
        reveal_strlit("withdraw");
        reveal_strlit("propose");
        reveal_strlit("vote");
    }
    let n = t.unicode_len();
    proof {
        assert(purpose_str(ScriptPurpose::Spend).len() == 5);
        assert(purpose_str(ScriptPurpose::Mint).len() == 4);
        assert(purpose_str(ScriptPurpose::Publish).len() == 7);
        assert(purpose_str(ScriptPurpose::Withdraw).len() == 8);
        assert(purpose_str(ScriptPurpose::Propose).len() == 7);
        assert(purpose_str(ScriptPurpose::Vote).len() == 4);
        assert(purpose_str(ScriptPurpose::Publish)[1] == 'u');
        assert(purpose_str(ScriptPurpose::Propose)[1] == 'r');
        assert(purpose_str(ScriptPurpose::Mint)[0] == 'm');
        assert(purpose_str(ScriptPurpose::Vote)[0] == 'v');
    }
    if expect_lit(t, n, 0, "spend").is_some() && n == 5 {
        proof {
            assert(t@.subrange(0, 5) =~= t@);
        }
        Some(ScriptPurpose::Spend)
    } else if expect_lit(t, n, 0, "mint").is_some() && n == 4 {
        proof {
            assert(t@.subrange(0, 4) =~= t@);
        }
        Some(ScriptPurpose::Mint)
    } else if expect_lit(t, n, 0, "publish").is_some() && n == 7 {
        proof {
            assert(t@.subrange(0, 7) =~= t@);
        }
        Some(ScriptPurpose::Publish)
    } else if expect_lit(t, n, 0, "withdraw").is_some() && n == 8 {
        proof {
            assert(t@.subrange(0, 8) =~= t@);
        }
        Some(ScriptPurpose::Withdraw)
    } else if expect_lit(t, n, 0, "propose").is_some() && n == 7 {
        proof {
            assert(t@.subrange(0, 7) =~= t@);
        }
        Some(ScriptPurpose::Propose)
    } else if expect_lit(t, n, 0, "vote").is_some() && n == 4 {
        proof {
            assert(t@.subrange(0, 4) =~= t@);
        }
        Some(ScriptPurpose::Vote)
    } else {
        proof {
            assert forall|p: ScriptPurpose| t@ != purpose_str(p) by {
                if t@ == purpose_str(p) {
                    assert(t@.subrange(0, t@.len() as int) =~= t@);
                    assert(false);
                }
            }
        }
        None
    }
}

/// Parse the validator part of an evaluation result at position `i`.
fn parse_validator(s: &str, n: usize, i: usize) -> (r: Option<(ValidatorIndex, usize)>)
    requires
        i <= n == s@.len(),
    ensures
        (r matches Some((v, j)) ==> i <= j <= s@.len()
            && s@.subrange(i as int, j as int) == validator_enc(v)),
        (forall|v: ValidatorIndex| validator_at(s@, i as int, v) ==>
            (r matches Some((v2, j)) && v2 == v && j == i + validator_enc(v).len())),
{
    proof {
        reveal_strlit("{\"validator\":{\"purpose\":\"");
        reveal_strlit(",\"index\":");
    }
    let j0 = match expect_lit(s, n, i, "{\"validator\":{\"purpose\":\"") {
        Some(x) => x,
        None => {
            proof {
                assert forall|v: ValidatorIndex| !validator_at(s@, i as int, v) by {
                    if validator_at(s@, i as int, v) {
                        lemma_validator_parts(s@, i as int, v);
                        assert(false);
                    }
                }
            }
            return None;
        }
    };
    let (ptext, j1) = match parse_str_rest(s, n, j0) {
        Some(x) => x,
        None => {
            proof {
                assert forall|v: ValidatorIndex| !validator_at(s@, i as int, v) by {
                    if validator_at(s@, i as int, v) {
                        lemma_validator_parts(s@, i as int, v);
                        assert(false);
                    }
                }
            }
            return None;
        }
    };
    let purpose = match purpose_of_text(ptext.as_str()) {
        Some(p) => p,
        None => {
            proof {
                assert forall|v: ValidatorIndex| !validator_at(s@, i as int, v) by {
                    if validator_at(s@, i as int, v) {
                        lemma_validator_parts(s@, i as int, v);
                        assert(ptext@ =~= purpose_str(v.purpose));
                        assert(false);
                    }
                }
            }
            return None;
        }
    };
    let j2 = match expect_lit(s, n, j1, ",\"index\":") {
        Some(x) => x,
        None => {
            proof {
                assert forall|v: ValidatorIndex| !validator_at(s@, i as int, v) by {
                    if validator_at(s@, i as int, v) {
                        lemma_validator_parts(s@, i as int, v);
                        assert(ptext@ =~= purpose_str(v.purpose));
                        assert(j1 == i + 26 + purpose_str(v.purpose).len());
                        assert(false);
                    }
                }
            }
            return None;
        }
    };
    let (index64, j3) = match parse_u64(s, n, j2) {
        Some(x) => x,
        None => {
            proof {
                assert forall|v: ValidatorIndex| !validator_at(s@, i as int, v) by {
                    if validator_at(s@, i as int, v) {
                        lemma_validator_parts(s@, i as int, v);
                        assert(ptext@ =~= purpose_str(v.purpose));
                        assert(j1 == i + 26 + purpose_str(v.purpose).len());
                        assert(false);
                    }
                }
            }
            return None;
        }
    };
    if index64 > 0xffff_ffff {
        proof {
            assert forall|v: ValidatorIndex| !validator_at(s@, i as int, v) by {
                if validator_at(s@, i as int, v) {
                    lemma_validator_parts(s@, i as int, v);
                    assert(ptext@ =~= purpose_str(v.purpose));
                    assert(j1 == i + 26 + purpose_str(v.purpose).len());
                    assert(index64 == v.index as u64);
                    assert(false);
                }
            }
        }
        return None;
    }
    let index: u32 = index64 as u32;
    let result = ValidatorIndex { purpose, index };
    proof {
        reveal_strlit("\",\"index\":");
        assert("\",\"index\":"@ =~= seq!['"'] + ",\"index\":"@);
        lemma_join(s@, i as int, j0 as int, j1 as int);
        lemma_join(s@, i as int, j1 as int, j2 as int);
        lemma_join(s@, i as int, j2 as int, j3 as int);
        assert(dec_rep((index64 as u32) as nat) == dec_rep(index64 as nat));
        assert(s@.subrange(i as int, j3 as int) =~= validator_enc(result));
        assert forall|v: ValidatorIndex| validator_at(s@, i as int, v) implies
            (result == v && j3 == i + validator_enc(v).len()) by {
            lemma_validator_parts(s@, i as int, v);
            assert(ptext@ =~= purpose_str(v.purpose));
            assert(purpose == v.purpose);
            assert(j1 == i + 26 + purpose_str(v.purpose).len());
            assert(index64 == v.index as u64);
        }
    }
    Some((result, j3))
}

/// Parse the budget part of an evaluation result at position `i`.
fn parse_budget(s: &str, n: usize, i: usize) -> (r: Option<(ExUnits, usize)>)
    requires
        i <= n == s@.len(),
    ensures
        (r matches Some((b, j)) ==> i <= j <= s@.len()
            && s@.subrange(i as int, j as int) == budget_enc(b)),
        (forall|b: ExUnits| budget_at(s@, i as int, b) ==>
            (r matches Some((b2, j)) && b2 == b && j == i + budget_enc(b).len())),
{
    proof {
        reveal_strlit("},\"budget\":{\"memory\":");
        reveal_strlit(",\"cpu\":");
        reveal_strlit("}}");
    }
    let j0 = match expect_lit(s, n, i, "},\"budget\":{\"memory\":") {
        Some(x) => x,
        None => {
            proof {
                assert forall|b: ExUnits| !budget_at(s@, i as int, b) by {
                    if budget_at(s@, i as int, b) {
                        lemma_budget_parts(s@, i as int, b);
                        assert(false);
                    }
                }
            }
            return None;
        }
    };
    let (memory, j1) = match parse_u64(s, n, j0) {
        Some(x) => x,
        None => {
            proof {
                assert forall|b: ExUnits| !budget_at(s@, i as int, b) by {
                    if budget_at(s@, i as int, b) {
                        lemma_budget_parts(s@, i as int, b);
                        assert(false);
                    }
                }
            }
            return None;
        }
    };
    let j2 = match expect_lit(s, n, j1, ",\"cpu\":") {
        Some(x) => x,
        None => {
            proof {
                assert forall|b: ExUnits| !budget_at(s@, i as int, b) by {
                    if budget_at(s@, i as int, b) {
                        lemma_budget_parts(s@, i as int, b);
                        assert(memory == b.memory);
                        assert(j1 == j0 + dec_rep(b.memory as nat).len());
                        assert(false);
                    }
                }
            }
            return None;
        }
    };
    let (cpu, j3) = match parse_u64(s, n, j2) {
        Some(x) => x,
        None => {
            proof {
                assert forall|b: ExUnits| !budget_at(s@, i as int, b) by {
                    if budget_at(s@, i as int, b) {
                        lemma_budget_parts(s@, i as int, b);
                        assert(memory == b.memory);
                        assert(j1 == j0 + dec_rep(b.memory as nat).len());
                        assert(j2 == j1 + 7);
                        assert(false);
                    }
                }
            }
            return None;
        }
    };
    let j4 = match expect_lit(s, n, j3, "}}") {
        Some(x) => x,
        None => {
            proof {
                assert forall|b: ExUnits| !budget_at(s@, i as int, b) by {
                    if budget_at(s@, i as int, b) {
                        lemma_budget_parts(s@, i as int, b);
                        assert(memory == b.memory);
                        assert(j1 == j0 + dec_rep(b.memory as nat).len());
                        assert(j2 == j1 + 7);
                        assert(cpu == b.cpu);
                        assert(j3 == j2 + dec_rep(b.cpu as nat).len());
                        assert(false);
                    }
                }
            }
            return None;
        }
    };
    let result = ExUnits { memory, cpu };
    proof {
        lemma_join(s@, i as int, j0 as int, j1 as int);
        lemma_join(s@, i as int, j1 as int, j2 as int);
        lemma_join(s@, i as int, j2 as int, j3 as int);
        lemma_join(s@, i as int, j3 as int, j4 as int);
        assert(s@.subrange(i as int, j4 as int) =~= budget_enc(result));
        assert forall|b: ExUnits| budget_at(s@, i as int, b) implies
            (result == b && j4 == i + budget_enc(b).len()) by {
            lemma_budget_parts(s@, i as int, b);
            assert(memory == b.memory);
            assert(j1 == j0 + dec_rep(b.memory as nat).len());
            assert(j2 == j1 + 7);
            assert(cpu == b.cpu);
        }
    }
    Some((result, j4))
}

/// Parse one evaluation result at position `i`.
fn parse_eval_item(s: &str, n: usize, i: usize) -> (r: Option<(EvaluationResult, usize)>)
    requires
        i <= n == s@.len(),
    ensures
        (r matches Some((e, j)) ==> i <= j <= s@.len()
            && s@.subrange(i as int, j as int) == eval_item_enc(e)),
        (forall|e: EvaluationResult| eval_item_at(s@, i as int, e) ==>
            (r matches Some((e2, j)) && e2 == e && j == i + eval_item_enc(e).len())),
{
    let (validator, j1) = match parse_validator(s, n, i) {
        Some(x) => x,
        None => {
            proof {
                assert forall|e: EvaluationResult| !eval_item_at(s@, i as int, e) by {
                    if eval_item_at(s@, i as int, e) {
                        lemma_eval_item_split(s@, i as int, e);
                        assert(false);
                    }
                }
            }
            return None;
        }
    };
    let (budget, j2) = match parse_budget(s, n, j1) {
        Some(x) => x,
        None => {
            proof {
                assert forall|e: EvaluationResult| !eval_item_at(s@, i as int, e) by {
                    if eval_item_at(s@, i as int, e) {
                        lemma_eval_item_split(s@, i as int, e);
                        assert(validator == e.validator);
                        assert(j1 == i + validator_enc(e.validator).len());
                        assert(false);
                    }
                }
            }
            return None;
        }
    };
    let result = EvaluationResult { validator, budget };
    proof {
        lemma_join(s@, i as int, j1 as int, j2 as int);
        assert(eval_item_enc(result) =~= validator_enc(validator) + budget_enc(budget));
        assert(s@.subrange(i as int, j2 as int) == eval_item_enc(result));
        assert forall|e: EvaluationResult| eval_item_at(s@, i as int, e) implies
            (result == e && j2 == i + eval_item_enc(e).len()) by {
            lemma_eval_item_split(s@, i as int, e);
            assert(validator == e.validator);
            assert(j1 == i + validator_enc(e.validator).len());
            assert(budget == e.budget);
        }
    }
    Some((result, j2))
}

/// Parse the items of an evaluation result list up to and including the
/// closing bracket.
fn parse_eval_items(s: &str, n: usize, i: usize) -> (r: Option<(Vec<EvaluationResult>, usize)>)
    requires
        i <= n == s@.len(),
    ensures
        (r matches Some((v, j)) ==> i <= j <= s@.len() && v@.len() >= 1
            && s@.subrange(i as int, j as int) == eval_items_enc(v@) + seq![']']),
        (forall|es: Seq<EvaluationResult>| es.len() >= 1
            && lit_at(s@, i as int, eval_items_enc(es) + seq![']']) ==>
            (r matches Some((v, j)) && v@ == es
                && j == i + eval_items_enc(es).len() + 1)),
    decreases n - i,
{
    let (first, j1) = match parse_eval_item(s, n, i) {
        Some(x) => x,
        None => {
            proof {
                assert forall|es: Seq<EvaluationResult>| !(es.len() >= 1
                    && lit_at(s@, i as int, eval_items_enc(es) + seq![']'])) by {
                    if es.len() >= 1 && lit_at(s@, i as int, eval_items_enc(es) + seq![']']) {
                        lemma_eval_head(s@, i as int, es);
                        assert(false);
                    }
                }
            }
            return None;
        }
    };
    if j1 == n {
        proof {
            assert forall|es: Seq<EvaluationResult>| !(es.len() >= 1
                && lit_at(s@, i as int, eval_items_enc(es) + seq![']'])) by {
                if es.len() >= 1 && lit_at(s@, i as int, eval_items_enc(es) + seq![']']) {
                    lemma_eval_head(s@, i as int, es);
                    assert(first == es[0] && j1 == i + eval_item_enc(es[0]).len());
                    assert(false);
                }
            }
        }
        return None;
    }
    let c = s.get_char(j1);
    if c == ']' {
        let mut v = Vec::new();
        v.push(first);
        proof {
            assert(s@.subrange(j1 as int, j1 + 1) =~= seq![']']);
            assert(v@ =~= seq![first]);
            assert(eval_items_enc(v@) == eval_item_enc(first));
            lemma_join(s@, i as int, j1 as int, (j1 + 1) as int);
            assert(s@.subrange(i as int, (j1 + 1) as int) =~= eval_items_enc(v@) + seq![']']);
            assert forall|es: Seq<EvaluationResult>| (es.len() >= 1
                && lit_at(s@, i as int, eval_items_enc(es) + seq![']'])) implies
                (v@ == es && j1 + 1 == i + eval_items_enc(es).len() + 1) by {
                lemma_eval_head(s@, i as int, es);
                assert(first == es[0] && j1 == i + eval_item_enc(es[0]).len());
                if es.len() >= 2 {
                    // a comma would follow the first item, not a bracket
                    let enc = eval_items_enc(es) + seq![']'];
                    assert(s@[j1 as int] == enc[eval_item_enc(es[0]).len() as int]);
                    assert(enc[eval_item_enc(es[0]).len() as int] == ',');
                    assert(false);
                }
                assert(es =~= seq![es[0]]);
            }
        }
        return Some((v, j1 + 1));
    }
    if c != ',' {
        proof {
            assert forall|es: Seq<EvaluationResult>| !(es.len() >= 1
                && lit_at(s@, i as int, eval_items_enc(es) + seq![']'])) by {
                if es.len() >= 1 && lit_at(s@, i as int, eval_items_enc(es) + seq![']']) {
                    lemma_eval_head(s@, i as int, es);
                    assert(first == es[0] && j1 == i + eval_item_enc(es[0]).len());
                    let enc = eval_items_enc(es) + seq![']'];
                    assert(s@[j1 as int] == enc[eval_item_enc(es[0]).len() as int]);
                    if es.len() == 1 {
                        assert(enc[eval_item_enc(es[0]).len() as int] == ']');
                    } else {
                        assert(enc[eval_item_enc(es[0]).len() as int] == ',');
                    }
                    assert(false);
                }
            }
        }
        return None;
    }
    let rest = match parse_eval_items(s, n, j1 + 1) {
        Some(x) => x,
        None => {
            proof {
                assert forall|es: Seq<EvaluationResult>| !(es.len() >= 1
                    && lit_at(s@, i as int, eval_items_enc(es) + seq![']'])) by {
                    if es.len() >= 1 && lit_at(s@, i as int, eval_items_enc(es) + seq![']']) {
                        lemma_eval_head(s@, i as int, es);
                        assert(first == es[0] && j1 == i + eval_item_enc(es[0]).len());
                        if es.len() == 1 {
                            let enc = eval_items_enc(es) + seq![']'];
                            assert(s@[j1 as int] == enc[eval_item_enc(es[0]).len() as int]);
                            assert(enc[eval_item_enc(es[0]).len() as int] == ']');
                            assert(false);
                        }
                        lemma_eval_tail(s@, i as int, es);
                        assert(false);
                    }
                }
            }
            return None;
        }
    };
    let (mut v, j2) = rest;
    let ghost rest_view = v@;
    v.insert(0, first);
    proof {
        assert(v@ =~= seq![first] + rest_view);
        assert(v@.drop_first() =~= rest_view);
        assert(v@[0] == first);
        assert(eval_items_enc(v@) == eval_item_enc(first) + seq![','] + eval_items_enc(
            v@.drop_first(),
        ));
        assert(s@.subrange(j1 as int, j1 + 1) =~= seq![',']);
        lemma_join(s@, i as int, j1 as int, (j1 + 1) as int);
        lemma_join(s@, i as int, (j1 + 1) as int, j2 as int);
        assert(s@.subrange(i as int, j2 as int) =~= eval_items_enc(v@) + seq![']']);
        assert forall|es: Seq<EvaluationResult>| (es.len() >= 1
            && lit_at(s@, i as int, eval_items_enc(es) + seq![']'])) implies
            (v@ == es && j2 == i + eval_items_enc(es).len() + 1) by {
            lemma_eval_head(s@, i as int, es);
            assert(first == es[0] && j1 == i + eval_item_enc(es[0]).len());
            if es.len() == 1 {
                let enc = eval_items_enc(es) + seq![']'];
                assert(s@[j1 as int] == enc[eval_item_enc(es[0]).len() as int]);
                assert(enc[eval_item_enc(es[0]).len() as int] == ']');
                assert(false);
            }
            lemma_eval_tail(s@, i as int, es);
            assert(v@.drop_first() == es.drop_first());
            assert(v@ =~= es);
        }
    }
    Some((v, j2))
}

/// Where a non-empty list's items stand at `i`, the first item stands at
/// `i`.
proof fn lemma_eval_head(s: Seq<char>, i: int, es: Seq<EvaluationResult>)
    requires
        es.len() >= 1,
        lit_at(s, i, eval_items_enc(es) + seq![']']),
    ensures
        eval_item_at(s, i, es[0]),
        es.len() == 1 ==> (eval_items_enc(es) + seq![']'])[eval_item_enc(es[0]).len() as int]
            == ']',
        es.len() >= 2 ==> (eval_items_enc(es) + seq![']'])[eval_item_enc(es[0]).len() as int]
            == ',',
{
    let enc = eval_items_enc(es) + seq![']'];
    let fl = eval_item_enc(es[0]).len() as int;
    if es.len() == 1 {
        assert(enc =~= eval_item_enc(es[0]) + seq![']']);
        lemma_split(s, i, eval_item_enc(es[0]), seq![']']);
        assert(enc[fl] == ']');
    } else {
        assert(enc =~= eval_item_enc(es[0]) + (seq![','] + (eval_items_enc(es.drop_first())
            + seq![']'])));
        lemma_split(s, i, eval_item_enc(es[0]), seq![','] + (eval_items_enc(es.drop_first())
            + seq![']']));
        assert(enc[fl] == ',');
    }
}

/// Where a list of two or more items stands at `i`, the remaining items
/// stand after the first item's comma.
proof fn lemma_eval_tail(s: Seq<char>, i: int, es: Seq<EvaluationResult>)
    requires
        es.len() >= 2,
        lit_at(s, i, eval_items_enc(es) + seq![']']),
    ensures
        lit_at(s, i + eval_item_enc(es[0]).len() + 1, eval_items_enc(es.drop_first())
            + seq![']']),
        es.drop_first().len() >= 1,
{
    let fl = eval_item_enc(es[0]).len() as int;
    let enc = eval_items_enc(es) + seq![']'];
    assert(enc =~= (eval_item_enc(es[0]) + seq![',']) + (eval_items_enc(es.drop_first())
        + seq![']']));
    lemma_split(s, i, eval_item_enc(es[0]) + seq![','], eval_items_enc(es.drop_first())
        + seq![']']);
}

/// Parse an evaluation result list at position `i`.
pub fn parse_eval_list(s: &str, n: usize, i: usize) -> (r: Option<(Vec<EvaluationResult>, usize)>)
    requires
        i <= n == s@.len(),
    ensures
        (r matches Some((v, j)) ==> i <= j <= s@.len()
            && s@.subrange(i as int, j as int) == eval_list_enc(v@)),
        (forall|es: Seq<EvaluationResult>| lit_at(s@, i as int, eval_list_enc(es)) ==>
            (r matches Some((v, j)) && v@ == es && j == i + eval_list_enc(es).len())),
{
    proof {
        reveal_strlit("[");
        reveal_strlit("[]");
        reveal_strlit("{\"validator\":{\"purpose\":\"");
    }
    if let Some(j0) = expect_lit(s, n, i, "[]") {
        let v: Vec<EvaluationResult> = Vec::new();
        proof {
            assert(v@ =~= Seq::<EvaluationResult>::empty());
            assert(eval_list_enc(v@) =~= "[]"@);
            assert forall|es: Seq<EvaluationResult>| lit_at(s@, i as int, eval_list_enc(es))
                implies (v@ == es && j0 == i + eval_list_enc(es).len()) by {
                if es.len() >= 1 {
                    let enc = eval_list_enc(es);
                    assert(enc =~= seq!['['] + (eval_items_enc(es) + seq![']']));
                    lemma_split(s@, i as int, seq!['['], eval_items_enc(es) + seq![']']);
                    lemma_eval_head(s@, i + 1, es);
                    lemma_eval_item_split(s@, i + 1, es[0]);
                    lemma_validator_parts(s@, i + 1, es[0].validator);
                    // the second character of the text is both a bracket and
                    // the opening brace of the first item
                    assert(s@[i + 1] == s@.subrange(i as int, i + 2)[1]);
                    assert(s@[i + 1] == ']');
                    assert(s@[i + 1] == s@.subrange(i + 1, i + 26)[0]);
                    assert(s@[i + 1] == '{');
                    assert(false);
                }
                assert(es =~= Seq::<EvaluationResult>::empty());
            }
        }
        return Some((v, j0));
    }
    let j0 = match expect_lit(s, n, i, "[") {
        Some(x) => x,
        None => {
            proof {
                assert forall|es: Seq<EvaluationResult>| !lit_at(s@, i as int, eval_list_enc(es))
                    by {
                    if lit_at(s@, i as int, eval_list_enc(es)) {
                        let enc = eval_list_enc(es);
                        assert(enc =~= seq!['['] + (eval_items_enc(es) + seq![']']));
                        lemma_split(s@, i as int, seq!['['], eval_items_enc(es) + seq![']']);
                        assert(s@.subrange(i as int, i + 1) == seq!['[']);
                        assert(s@.subrange(i as int, i + 1) =~= "["@);
                        assert(false);
                    }
                }
            }
            return None;
        }
    };
    match parse_eval_items(s, n, j0) {
        Some((v, j)) => {
            proof {
                lemma_join(s@, i as int, j0 as int, j as int);
                assert(s@.subrange(i as int, j as int) =~= eval_list_enc(v@));
                assert forall|es: Seq<EvaluationResult>| lit_at(s@, i as int, eval_list_enc(es))
                    implies (v@ == es && j == i + eval_list_enc(es).len()) by {
                    if es.len() == 0 {
                        assert(eval_list_enc(es) =~= "[]"@);
                        assert(false);
                    } else {
                        let enc = eval_list_enc(es);
                        assert(enc =~= seq!['['] + (eval_items_enc(es) + seq![']']));
                        lemma_split(s@, i as int, seq!['['], eval_items_enc(es) + seq![']']);
                    }
                }
            }
            Some((v, j))
        }
        None => {
            proof {
                assert forall|es: Seq<EvaluationResult>| !lit_at(s@, i as int, eval_list_enc(es))
                    by {
                    if lit_at(s@, i as int, eval_list_enc(es)) {
                        let enc = eval_list_enc(es);
                        assert(enc =~= seq!['['] + (eval_items_enc(es) + seq![']']));
                        lemma_split(s@, i as int, seq!['['], eval_items_enc(es) + seq![']']);
                        if es.len() == 0 {
                            assert(eval_list_enc(es) =~= "[]"@);
                            assert(lit_at(s@, i as int, "[]"@));
                        }
                        assert(false);
                    }
                }
            }
            None
        }
    }
}

/// Decode and interpret the reply to an evaluation request: the execution
/// budgets of the transaction's scripts, or the remote's error as an
/// evaluation failure.
///
/// Deliberately, only the array-shaped result is accepted: it is the shape
/// the evaluation request elicits, and a remote-reported evaluation failure
/// arrives as the error envelope, which this interpreter types as the
/// evaluation failure.  A result of any other shape is answered with the
/// typed decode failure.
#[verifier::rlimit(60)]
pub fn interpret_evaluate_transaction_reply(s: &str) -> (r: Result<
    Vec<EvaluationResult>,
    OgmiosError,
>)
    ensures
        (forall|id: u64, es: Seq<EvaluationResult>|
            s@ == reply_result_enc(id, eval_list_enc(es)) ==>
            (r matches Ok(v) && v@ == es)),
        (forall|id: u64, code: i32, msg: Seq<char>| plain_str(msg)
            && s@ == reply_error_enc(id, code as int, msg) ==>
            (r matches Err(e) && e matches OgmiosError::EvaluationError(message)
                && message@ == "JSON-RPC error "@ + i32_enc(code as int) + ": "@ + msg)),
        (r matches Ok(v) ==> is_result_reply(s@, eval_list_enc(v@))),
        (r matches Err(e) ==> match e {
            OgmiosError::EvaluationError(message) => is_error_reply(s@, message@),
            OgmiosError::Json(_) => true,
            _ => false,
        }),
{
    proof {
        reveal_strlit("}");
    }
    let n = s.unicode_len();
    match parse_reply_prelude(s, n) {
        Some((id, j, true)) => {
            match parse_eval_list(s, n, j) {
                Some((v, j2)) => {
                    match expect_lit(s, n, j2, "}") {
                        Some(j3) => {
                            if j3 == n {
                                proof {
                                    lemma_join(s@, 0, j as int, j2 as int);
                                    lemma_join(s@, 0, j2 as int, j3 as int);
                                    assert(s@.subrange(0, j3 as int) =~= s@);
                                    assert(s@.subrange(0, j3 as int) =~= reply_result_enc(
                                        id,
                                        eval_list_enc(v@),
                                    ));
                                    assert(is_result_reply(s@, eval_list_enc(v@))) by {
                                        assert(s@ == reply_result_enc(id, eval_list_enc(v@)));
                                    };
                                    assert forall|id2: u64, es: Seq<EvaluationResult>|
                                        s@ == reply_result_enc(id2, eval_list_enc(es)) implies
                                        v@ == es by {
                                        crate::jsonrpc::lemma_reply_result_parts(
                                            s@,
                                            id2,
                                            eval_list_enc(es),
                                        );
                                        let dl = dec_rep(id2 as nat).len() as int;
                                        assert(lit_at(s@, 32 + dl, eval_list_enc(es)));
                                        assert(j == 32 + dl);
                                    }
                                }
                                Ok(v)
                            } else {
                                proof {
                                    assert forall|id2: u64, es: Seq<EvaluationResult>|
                                        s@ != reply_result_enc(id2, eval_list_enc(es)) by {
                                        if s@ == reply_result_enc(id2, eval_list_enc(es)) {
                                            crate::jsonrpc::lemma_reply_result_parts(
                                                s@,
                                                id2,
                                                eval_list_enc(es),
                                            );
                                            let dl = dec_rep(id2 as nat).len() as int;
                                            assert(lit_at(s@, 32 + dl, eval_list_enc(es)));
                                            assert(j == 32 + dl);
                                            assert(j2 == j + eval_list_enc(es).len());
                                            assert(s@.len() == 33 + dl + eval_list_enc(es).len());
                                            assert(false);
                                        }
                                    }
                                }
                                Err(OgmiosError::Json("malformed reply".to_owned()))
                            }
                        }
                        None => {
                            proof {
                                assert forall|id2: u64, es: Seq<EvaluationResult>|
                                    s@ != reply_result_enc(id2, eval_list_enc(es)) by {
                                    if s@ == reply_result_enc(id2, eval_list_enc(es)) {
                                        crate::jsonrpc::lemma_reply_result_parts(
                                            s@,
                                            id2,
                                            eval_list_enc(es),
                                        );
                                        let dl = dec_rep(id2 as nat).len() as int;
                                        assert(lit_at(s@, 32 + dl, eval_list_enc(es)));
                                        assert(j == 32 + dl);
                                        assert(j2 == j + eval_list_enc(es).len());
                                        assert(false);
                                    }
                                }
                            }
                            Err(OgmiosError::Json("malformed reply".to_owned()))
                        }
                    }
                }
                None => {
                    proof {
                        assert forall|id2: u64, es: Seq<EvaluationResult>|
                            s@ != reply_result_enc(id2, eval_list_enc(es)) by {
                            if s@ == reply_result_enc(id2, eval_list_enc(es)) {
                                crate::jsonrpc::lemma_reply_result_parts(s@, id2, eval_list_enc(es));
                                let dl = dec_rep(id2 as nat).len() as int;
                                assert(lit_at(s@, 32 + dl, eval_list_enc(es)));
                                assert(j == 32 + dl);
                                assert(false);
                            }
                        }
                    }
                    Err(OgmiosError::Json("malformed reply".to_owned()))
                }
            }
        }
        Some((id, j, false)) => {
            match parse_error_object(s, n, j) {
                Some((e, j2)) => {
                    match expect_lit(s, n, j2, "}") {
                        Some(j3) => {
                            if j3 == n {
                                let message = crate::chain_sync::json_rpc_error_message(&e);
                                proof {
                                    assert forall|id2: u64, code: i32, msg: Seq<char>|
                                        (plain_str(msg) && s@ == reply_error_enc(
                                            id2,
                                            code as int,
                                            msg,
                                        )) implies (e.code == code && e.message@ == msg) by {
                                        crate::jsonrpc::lemma_reply_error_parts(s@, id2, code, msg);
                                        let dl = dec_rep(id2 as nat).len() as int;
                                        assert(crate::jsonrpc::err_obj_at(s@, 31 + dl, code, msg));
                                        assert(j == 31 + dl);
                                    }
                                }
                                proof {
                                    lemma_join(s@, 0, j as int, j2 as int);
                                    lemma_join(s@, 0, j2 as int, j3 as int);
                                    assert(s@.subrange(0, j3 as int) =~= s@);
                                    assert(s@.subrange(0, j3 as int) =~= reply_error_enc(
                                        id,
                                        e.code as int,
                                        e.message@,
                                    ));
                                    assert(is_error_reply(s@, message@)) by {
                                        assert(plain_str(e.message@)
                                            && s@ == reply_error_enc(id, e.code as int, e.message@)
                                            && message@ == "JSON-RPC error "@
                                                + i32_enc(e.code as int) + ": "@ + e.message@);
                                    };
                                }
                                Err(OgmiosError::EvaluationError(message))
                            } else {
                                proof {
                                    assert forall|id2: u64, code: i32, msg: Seq<char>|
                                        !(plain_str(msg) && s@ == reply_error_enc(
                                            id2,
                                            code as int,
                                            msg,
                                        )) by {
                                        if plain_str(msg) && s@ == reply_error_enc(
                                            id2,
                                            code as int,
                                            msg,
                                        ) {
                                            crate::jsonrpc::lemma_reply_error_parts(s@, id2, code, msg);
                                            let dl = dec_rep(id2 as nat).len() as int;
                                            assert(crate::jsonrpc::err_obj_at(s@, 31 + dl, code, msg));
                                            assert(j == 31 + dl);
                                            assert(j2 == j + crate::jsonrpc::err_obj_enc(
                                                code as int,
                                                msg,
                                            ).len());
                                            assert(s@.len() == 32 + dl + crate::jsonrpc::err_obj_enc(
                                                code as int,
                                                msg,
                                            ).len());
                                            assert(false);
                                        }
                                    }
                                }
                                Err(OgmiosError::Json("malformed reply".to_owned()))
                            }
                        }
                        None => {
                            proof {
                                assert forall|id2: u64, code: i32, msg: Seq<char>|
                                    !(plain_str(msg) && s@ == reply_error_enc(id2, code as int, msg))
                                    by {
                                    if plain_str(msg) && s@ == reply_error_enc(
                                        id2,
                                        code as int,
                                        msg,
                                    ) {
                                        crate::jsonrpc::lemma_reply_error_parts(s@, id2, code, msg);
                                        let dl = dec_rep(id2 as nat).len() as int;
                                        assert(crate::jsonrpc::err_obj_at(s@, 31 + dl, code, msg));
                                        assert(j == 31 + dl);
                                        assert(j2 == j + crate::jsonrpc::err_obj_enc(
                                            code as int,
                                            msg,
                                        ).len());
                                        assert(false);
                                    }
                                }
                            }
                            Err(OgmiosError::Json("malformed reply".to_owned()))
                        }
                    }
                }
                None => {
                    proof {
                        assert forall|id2: u64, code: i32, msg: Seq<char>|
                            !(plain_str(msg) && s@ == reply_error_enc(id2, code as int, msg)) by {
                            if plain_str(msg) && s@ == reply_error_enc(id2, code as int, msg) {
                                crate::jsonrpc::lemma_reply_error_parts(s@, id2, code, msg);
                                let dl = dec_rep(id2 as nat).len() as int;
                                assert(crate::jsonrpc::err_obj_at(s@, 31 + dl, code, msg));
                                assert(j == 31 + dl);
                                assert(false);
                            }
                        }
                    }
                    Err(OgmiosError::Json("malformed reply".to_owned()))
                }
            }
        }
        None => Err(OgmiosError::Json("malformed reply".to_owned())),
    }
}

} // verus!
