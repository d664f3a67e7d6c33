//! Mempool monitoring: request parameters and reply interpretation.

use vstd::prelude::*;
use vstd::string::StringExecFns;
use crate::error::OgmiosError;
use crate::jsonrpc::{
    encode_request, i32_enc, is_error_reply, is_result_reply, parse_error_object,
    parse_reply_prelude, reply_error_enc, reply_result_enc, JsonRpcRequest,
};
use crate::numeral::{dec_at, dec_rep, parse_u64};
use crate::parse::{
    expect_lit, lemma_join, lemma_split, lit_at, lemma_str_end_exact, parse_str_rest, str_end,
};
use crate::primitives::{plain_str, Slot, TransactionId};
use crate::responses::AcquireMempoolResponse;

verus! {

/// Build an acquire request for a mempool snapshot.
pub fn acquire_mempool_request(id: u64) -> (r: String)
    ensures
        r@ == crate::jsonrpc::request_enc("acquireMempool"@, None, Some(id)),
{
    let req = JsonRpcRequest::with_id("acquireMempool", None, id);
    encode_request(&req)
}

/// Build a release request for the acquired snapshot.
pub fn release_mempool_request(id: u64) -> (r: String)
    ensures
        r@ == crate::jsonrpc::request_enc("releaseMempool"@, None, Some(id)),
{
    let req = JsonRpcRequest::with_id("releaseMempool", None, id);
    encode_request(&req)
}

/// Canonical text of the transaction-lookup parameters.
pub open spec fn has_tx_params_enc(tx_id: Seq<char>) -> Seq<char> {
    "{\"id\":\""@ + tx_id + "\"}"@
}

/// Encode the transaction-lookup parameters.
pub fn has_transaction_params(tx_id: &str) -> (r: String)
    ensures
        r@ == has_tx_params_enc(tx_id@),
{
    let mut params = "{\"id\":\"".to_owned();
    params.append(tx_id);
    params.append("\"}");
    proof {
        assert(params@ =~= has_tx_params_enc(tx_id@));
    }
    params
}

/// Build a transaction-lookup request.
pub fn has_transaction_request(id: u64, tx_id: &str) -> (r: String)
    ensures
        r@ == crate::jsonrpc::request_enc("hasTransaction"@, Some(has_tx_params_enc(tx_id@)),
            Some(id)),
{
    let params = has_transaction_params(tx_id);
    let req = JsonRpcRequest::with_id("hasTransaction", Some(params), id);
    encode_request(&req)
}

/// Build a next-transaction request, asking for identifiers alone.
pub fn next_transaction_id_request(id: u64) -> (r: String)
    ensures
        r@ == crate::jsonrpc::request_enc("nextTransaction"@, None, Some(id)),
{
    let req = JsonRpcRequest::with_id("nextTransaction", None, id);
    encode_request(&req)
}

/// Build a mempool size request.
pub fn size_of_mempool_request(id: u64) -> (r: String)
    ensures
        r@ == crate::jsonrpc::request_enc("sizeOfMempool"@, None, Some(id)),
{
    let req = JsonRpcRequest::with_id("sizeOfMempool", None, id);
    encode_request(&req)
}

/// Canonical text of an acquire result: what was acquired, and at which
/// slot.
pub open spec fn acquire_enc(acquired: Seq<char>, slot: u64) -> Seq<char> {
    "{\"acquired\":\""@ + acquired + "\",\"slot\":"@ + dec_rep(slot as nat) + "}"@
}

/// The canonical text of an acquire result stands in `s` at position `i`.
pub open spec fn acquire_at(s: Seq<char>, i: int, acquired: Seq<char>, slot: u64) -> bool {
    plain_str(acquired) && lit_at(s, i, acquire_enc(acquired, slot))
}

/// Where an acquire result stands at `i`, its pieces stand at their
/// canonical positions.
proof fn lemma_acquire_parts(s: Seq<char>, i: int, acquired: Seq<char>, slot: u64)
    requires
        acquire_at(s, i, acquired, slot),
    ensures
        ({
            let al = acquired.len() as int;
            let dl = dec_rep(slot as nat).len() as int;
            &&& lit_at(s, i, "{\"acquired\":\""@)
            &&& s.subrange(i + 13, i + 13 + al) == acquired
            &&& str_end(s, i + 13) == i + 13 + al
            &&& i + 13 + al < s.len()
            &&& lit_at(s, i + 14 + al, ",\"slot\":"@)
            &&& dec_at(s, i + 22 + al, slot)
            &&& lit_at(s, i + 22 + al + dl, "}"@)
            &&& acquire_enc(acquired, slot).len() == 23 + al + dl
        }),
{
    reveal_strlit("{\"acquired\":\"");
    reveal_strlit("\",\"slot\":");
    reveal_strlit(",\"slot\":");
    reveal_strlit("}");
    let h = "{\"acquired\":\""@;
    let m = ",\"slot\":"@;
    let z = "}"@;
    assert("\",\"slot\":"@ =~= seq!['"'] + m);
    let d = dec_rep(slot as nat);
    let al = acquired.len() as int;
    let dl = d.len() as int;
    let enc = acquire_enc(acquired, slot);
    assert(enc.len() == 23 + al + dl);
    assert(enc =~= h + (acquired + ((seq!['"'] + m) + (d + z))));
    lemma_split(s, i, h, acquired + ((seq!['"'] + m) + (d + z)));
    lemma_split(s, i + 13, acquired, (seq!['"'] + m) + (d + z));
    lemma_split(s, i + 13 + al, seq!['"'] + m, d + z);
    lemma_split(s, i + 13 + al, seq!['"'], m);
    lemma_split(s, i + 22 + al, d, z);
    assert(s[i + 13 + al] == s.subrange(i + 13 + al, i + 14 + al)[0]);
    assert forall|k: int| i + 13 <= k < i + 13 + al implies s[k] != '"' by {
        assert(s[k] == acquired[k - (i + 13)]);
    }
    lemma_str_end_exact(s, i + 13, i + 13 + al);
    let z0 = i + 22 + al + dl;
    assert(s[z0] == s.subrange(z0, z0 + 1)[0]);
    assert(s[z0] == '}');
    assert(!crate::numeral::is_digit('}'));
}

/// Parse an acquire result at position `i`.
pub fn parse_acquire_result(s: &str, n: usize, i: usize) -> (r: Option<((String, u64), usize)>)
    requires
        i <= n == s@.len(),
    ensures
        (r matches Some(((a, v), j)) ==> i <= j <= s@.len() && plain_str(a@)
            && s@.subrange(i as int, j as int) == acquire_enc(a@, v)),
        (forall|acquired: Seq<char>, slot: u64| acquire_at(s@, i as int, acquired, slot) ==>
            (r matches Some(((a, v), j)) && a@ == acquired && v == slot
                && j == i + acquire_enc(acquired, slot).len())),
{
    proof {
        reveal_strlit("{\"acquired\":\"");
        reveal_strlit(",\"slot\":");
        reveal_strlit("}");
    }
    let j0 = match expect_lit(s, n, i, "{\"acquired\":\"") {
        Some(x) => x,
        None => {
            proof {
                assert forall|a: Seq<char>, v: u64| !acquire_at(s@, i as int, a, v) by {
                    if acquire_at(s@, i as int, a, v) {
                        lemma_acquire_parts(s@, i as int, a, v);
                        assert(false);
                    }
                }
            }
            return None;
        }
    };
    let (acquired, j1) = match parse_str_rest(s, n, j0) {
        Some(x) => x,
        None => {
            proof {
                assert forall|a: Seq<char>, v: u64| !acquire_at(s@, i as int, a, v) by {
                    if acquire_at(s@, i as int, a, v) {
                        lemma_acquire_parts(s@, i as int, a, v);
                        assert(false);
                    }
                }
            }
            return None;
        }
    };
    let j2 = match expect_lit(s, n, j1, ",\"slot\":") {
        Some(x) => x,
        None => {
            proof {
                assert forall|a: Seq<char>, v: u64| !acquire_at(s@, i as int, a, v) by {
                    if acquire_at(s@, i as int, a, v) {
                        lemma_acquire_parts(s@, i as int, a, v);
                        assert(j1 == i + 14 + a.len());
                        assert(false);
                    }
                }
            }
            return None;
        }
    };
    let (slot, j3) = match parse_u64(s, n, j2) {
        Some(x) => x,
        None => {
            proof {
                assert forall|a: Seq<char>, v: u64| !acquire_at(s@, i as int, a, v) by {
                    if acquire_at(s@, i as int, a, v) {
                        lemma_acquire_parts(s@, i as int, a, v);
                        assert(j1 == i + 14 + a.len());
                        assert(j2 == j1 + 8);
                        assert(false);
                    }
                }
            }
            return None;
        }
    };
    let j4 = match expect_lit(s, n, j3, "}") {
        Some(x) => x,
        None => {
            proof {
                assert forall|a: Seq<char>, v: u64| !acquire_at(s@, i as int, a, v) by {
                    if acquire_at(s@, i as int, a, v) {
                        lemma_acquire_parts(s@, i as int, a, v);
                        assert(j1 == i + 14 + a.len());
                        assert(j2 == j1 + 8);
                        assert(slot == v);
                        assert(j3 == j2 + dec_rep(v as nat).len());
                        assert(false);
                    }
                }
            }
            return None;
        }
    };
    proof {
        reveal_strlit("\",\"slot\":");
        assert("\",\"slot\":"@ =~= seq!['"'] + ",\"slot\":"@);
        lemma_join(s@, i as int, j0 as int, j1 as int);
        lemma_join(s@, i as int, j1 as int, j2 as int);
        lemma_join(s@, i as int, j2 as int, j3 as int);
        lemma_join(s@, i as int, j3 as int, j4 as int);
        assert(s@.subrange(i as int, j4 as int) =~= acquire_enc(acquired@, slot));
        assert forall|a: Seq<char>, v: u64| acquire_at(s@, i as int, a, v) implies
            (acquired@ == a && slot == v && j4 == i + acquire_enc(a, v).len()) by {
            lemma_acquire_parts(s@, i as int, a, v);
            assert(acquired@ =~= a);
            assert(j1 == i + 14 + a.len());
            assert(j2 == j1 + 8);
        }
    }
    Some(((acquired, slot), j4))
}

/// Decode and interpret the reply to an acquire request: what was acquired
/// and the slot, or the remote's error as an acquisition failure.
pub fn interpret_acquire_reply(s: &str) -> (r: Result<(String, Slot), OgmiosError>)
    ensures
        (forall|id: u64, a: Seq<char>, v: u64| plain_str(a)
            && s@ == reply_result_enc(id, acquire_enc(a, v)) ==>
            (r matches Ok((acquired, slot)) && acquired@ == a && slot == v)),
        (forall|id: u64, code: i32, msg: Seq<char>| plain_str(msg)
            && s@ == reply_error_enc(id, code as int, msg) ==>
            (r matches Err(e) && e matches OgmiosError::AcquisitionError(message)
                && message@ == "JSON-RPC error "@ + i32_enc(code as int) + ": "@ + msg)),
        (r matches Ok(x) ==> plain_str(x.0@) && is_result_reply(s@, acquire_enc(x.0@, x.1))),
        (r matches Err(e) ==> match e {
            OgmiosError::AcquisitionError(message) => is_error_reply(s@, message@),
            OgmiosError::Json(_) => true,
            _ => false,
        }),
{
    proof {
        reveal_strlit("}");
    }
    let n = s.unicode_len();
    match parse_reply_prelude(s, n) {
        Some((id, j, true)) => {
            match parse_acquire_result(s, n, j) {
                Some((acq, j2)) => {
                    match expect_lit(s, n, j2, "}") {
                        Some(j3) => {
                            if j3 == n {
                                proof {
                                    lemma_join(s@, 0, j as int, j2 as int);
                                    lemma_join(s@, 0, j2 as int, j3 as int);
                                    assert(s@.subrange(0, j3 as int) =~= s@);
                                    assert(s@.subrange(0, j3 as int) =~= reply_result_enc(
                                        id,
                                        acquire_enc(acq.0@, acq.1),
                                    ));
                                    assert(is_result_reply(s@, acquire_enc(acq.0@, acq.1))) by {
                                        assert(s@ == reply_result_enc(id, acquire_enc(
                                            acq.0@,
                                            acq.1,
                                        )));
                                    };
                                    assert forall|id2: u64, a: Seq<char>, v: u64| plain_str(a)
                                        && s@ == reply_result_enc(id2, acquire_enc(a, v)) implies
                                        (acq.0@ == a && acq.1 == v) by {
                                        crate::jsonrpc::lemma_reply_result_parts(
                                            s@,
                                            id2,
                                            acquire_enc(a, v),
                                        );
                                        let dl = dec_rep(id2 as nat).len() as int;
                                        assert(acquire_at(s@, 32 + dl, a, v));
                                        assert(j == 32 + dl);
                                    }
                                }
                                Ok(acq)
                            } else {
                                proof {
                                    assert forall|id2: u64, a: Seq<char>, v: u64| !(plain_str(a)
                                        && s@ == reply_result_enc(id2, acquire_enc(a, v))) by {
                                        if plain_str(a) && s@ == reply_result_enc(
                                            id2,
                                            acquire_enc(a, v),
                                        ) {
                                            crate::jsonrpc::lemma_reply_result_parts(
                                                s@,
                                                id2,
                                                acquire_enc(a, v),
                                            );
                                            let dl = dec_rep(id2 as nat).len() as int;
                                            assert(acquire_at(s@, 32 + dl, a, v));
                                            assert(j == 32 + dl);
                                            assert(j2 == j + acquire_enc(a, v).len());
                                            assert(s@.len() == 33 + dl + acquire_enc(a, v).len());
                                            assert(false);
                                        }
                                    }
                                }
                                Err(OgmiosError::Json("malformed reply".to_owned()))
                            }
                        }
                        None => {
                            proof {
                                assert forall|id2: u64, a: Seq<char>, v: u64| !(plain_str(a)
                                    && s@ == reply_result_enc(id2, acquire_enc(a, v))) by {
                                    if plain_str(a) && s@ == reply_result_enc(
                                        id2,
                                        acquire_enc(a, v),
                                    ) {
                                        crate::jsonrpc::lemma_reply_result_parts(
                                            s@,
                                            id2,
                                            acquire_enc(a, v),
                                        );
                                        let dl = dec_rep(id2 as nat).len() as int;
                                        assert(acquire_at(s@, 32 + dl, a, v));
                                        assert(j == 32 + dl);
                                        assert(j2 == j + acquire_enc(a, v).len());
                                        assert(false);
                                    }
                                }
                            }
                            Err(OgmiosError::Json("malformed reply".to_owned()))
                        }
                    }
                }
                None => {
                    proof {
                        assert forall|id2: u64, a: Seq<char>, v: u64| !(plain_str(a)
                            && s@ == reply_result_enc(id2, acquire_enc(a, v))) by {
                            if plain_str(a) && s@ == reply_result_enc(id2, acquire_enc(a, v)) {
                                crate::jsonrpc::lemma_reply_result_parts(s@, id2, acquire_enc(a, v));
                                let dl = dec_rep(id2 as nat).len() as int;
                                assert(acquire_at(s@, 32 + dl, a, v));
                                assert(j == 32 + dl);
                                assert(false);
                            }
                        }
                    }
                    Err(OgmiosError::Json("malformed reply".to_owned()))
                }
            }
        }
        Some((id, j, false)) => {
            match parse_error_object(s, n, j) {
                Some((e, j2)) => {
                    match expect_lit(s, n, j2, "}") {
                        Some(j3) => {
                            if j3 == n {
                                let message = crate::chain_sync::json_rpc_error_message(&e);
                                proof {
                                    assert forall|id2: u64, code: i32, msg: Seq<char>|
                                        (plain_str(msg) && s@ == reply_error_enc(
                                            id2,
                                            code as int,
                                            msg,
                                        )) implies (e.code == code && e.message@ == msg) by {
                                        crate::jsonrpc::lemma_reply_error_parts(s@, id2, code, msg);
                                        let dl = dec_rep(id2 as nat).len() as int;
                                        assert(crate::jsonrpc::err_obj_at(s@, 31 + dl, code, msg));
                                        assert(j == 31 + dl);
                                    }
                                }
                                proof {
                                    lemma_join(s@, 0, j as int, j2 as int);
                                    lemma_join(s@, 0, j2 as int, j3 as int);
                                    assert(s@.subrange(0, j3 as int) =~= s@);
                                    assert(s@.subrange(0, j3 as int) =~= reply_error_enc(
                                        id,
                                        e.code as int,
                                        e.message@,
                                    ));
                                    assert(is_error_reply(s@, message@)) by {
                                        assert(plain_str(e.message@)
                                            && s@ == reply_error_enc(id, e.code as int, e.message@)
                                            && message@ == "JSON-RPC error "@
                                                + i32_enc(e.code as int) + ": "@ + e.message@);
                                    };
                                }
                                Err(OgmiosError::AcquisitionError(message))
                            } else {
                                proof {
                                    assert forall|id2: u64, code: i32, msg: Seq<char>|
                                        !(plain_str(msg) && s@ == reply_error_enc(
                                            id2,
                                            code as int,
                                            msg,
                                        )) by {
                                        if plain_str(msg) && s@ == reply_error_enc(
                                            id2,
                                            code as int,
                                            msg,
                                        ) {
                                            crate::jsonrpc::lemma_reply_error_parts(
                                                s@,
                                                id2,
                                                code,
                                                msg,
                                            );
                                            let dl = dec_rep(id2 as nat).len() as int;
                                            assert(crate::jsonrpc::err_obj_at(s@, 31 + dl, code, msg));
                                            assert(j == 31 + dl);
                                            assert(j2 == j + crate::jsonrpc::err_obj_enc(
                                                code as int,
                                                msg,
                                            ).len());
                                            assert(s@.len() == 32 + dl + crate::jsonrpc::err_obj_enc(
                                                code as int,
                                                msg,
                                            ).len());
                                            assert(false);
                                        }
                                    }
                                }
                                Err(OgmiosError::Json("malformed reply".to_owned()))
                            }
                        }
                        None => {
                            proof {
                                assert forall|id2: u64, code: i32, msg: Seq<char>|
                                    !(plain_str(msg) && s@ == reply_error_enc(id2, code as int, msg))
                                    by {
                                    if plain_str(msg) && s@ == reply_error_enc(
                                        id2,
                                        code as int,
                                        msg,
                                    ) {
                                        crate::jsonrpc::lemma_reply_error_parts(s@, id2, code, msg);
                                        let dl = dec_rep(id2 as nat).len() as int;
                                        assert(crate::jsonrpc::err_obj_at(s@, 31 + dl, code, msg));
                                        assert(j == 31 + dl);
                                        assert(j2 == j + crate::jsonrpc::err_obj_enc(
                                            code as int,
                                            msg,
                                        ).len());
                                        assert(false);
                                    }
                                }
                            }
                            Err(OgmiosError::Json("malformed reply".to_owned()))
                        }
                    }
                }
                None => {
                    proof {
                        assert forall|id2: u64, code: i32, msg: Seq<char>|
                            !(plain_str(msg) && s@ == reply_error_enc(id2, code as int, msg)) by {
                            if plain_str(msg) && s@ == reply_error_enc(id2, code as int, msg) {
                                crate::jsonrpc::lemma_reply_error_parts(s@, id2, code, msg);
                                let dl = dec_rep(id2 as nat).len() as int;
                                assert(crate::jsonrpc::err_obj_at(s@, 31 + dl, code, msg));
                                assert(j == 31 + dl);
                                assert(false);
                            }
                        }
                    }
                    Err(OgmiosError::Json("malformed reply".to_owned()))
                }
            }
        }
        None => Err(OgmiosError::Json("malformed reply".to_owned())),
    }
}

/// Interpret an acquire reply as a mempool acquisition.
pub fn interpret_acquire_mempool_reply(s: &str) -> (r: Result<AcquireMempoolResponse, OgmiosError>)
    ensures
        (forall|id: u64, a: Seq<char>, v: u64| plain_str(a)
            && s@ == reply_result_enc(id, acquire_enc(a, v)) ==>
            (r matches Ok(resp) && resp.acquired@ == a && resp.slot == v)),
        (forall|id: u64, code: i32, msg: Seq<char>| plain_str(msg)
            && s@ == reply_error_enc(id, code as int, msg) ==>
            (r matches Err(e) && e matches OgmiosError::AcquisitionError(message)
                && message@ == "JSON-RPC error "@ + i32_enc(code as int) + ": "@ + msg)),
        (r matches Ok(resp) ==> plain_str(resp.acquired@)
            && is_result_reply(s@, acquire_enc(resp.acquired@, resp.slot))),
        (r matches Err(e) ==> match e {
            OgmiosError::AcquisitionError(message) => is_error_reply(s@, message@),
            OgmiosError::Json(_) => true,
            _ => false,
        }),
{
    match interpret_acquire_reply(s) {
        Result::Ok((acquired, slot)) => Ok(AcquireMempoolResponse { acquired, slot }),
        Result::Err(e) => Err(e),
    }
}

/// Canonical text of a transaction-lookup result.
pub open spec fn has_tx_enc(found: bool) -> Seq<char> {
    if found {
        "{\"hasTransaction\":true}"@
    } else {
        "{\"hasTransaction\":false}"@
    }
}

/// Decode and interpret the reply to a transaction lookup: whether the
/// transaction is in the acquired snapshot.
pub fn interpret_has_transaction_reply(s: &str) -> (r: Result<bool, OgmiosError>)
    ensures
        (forall|id: u64, found: bool| s@ == reply_result_enc(id, has_tx_enc(found)) ==>
            r == Ok::<bool, OgmiosError>(found)),
        (forall|id: u64, code: i32, msg: Seq<char>| plain_str(msg)
            && s@ == reply_error_enc(id, code as int, msg) ==>
            (r matches Err(e) && e matches OgmiosError::InvalidResponse { message }
                && message@ == "JSON-RPC error "@ + i32_enc(code as int) + ": "@ + msg)),
        (r matches Ok(b) ==> is_result_reply(s@, has_tx_enc(b))),
        (r matches Err(e) ==> match e {
            OgmiosError::InvalidResponse { message } => is_error_reply(s@, message@),
            OgmiosError::Json(_) => true,
            _ => false,
        }),
{
    proof {
        reveal_strlit("{\"hasTransaction\":true}");
        reveal_strlit("{\"hasTransaction\":false}");
        reveal_strlit("}");
    }
    let n = s.unicode_len();
    match parse_reply_prelude(s, n) {
        Some((id, j, true)) => {
            let true_end = expect_lit(s, n, j, "{\"hasTransaction\":true}");
            let false_end = expect_lit(s, n, j, "{\"hasTransaction\":false}");
            let outcome: Result<bool, OgmiosError> = match (true_end, false_end) {
                (Some(j2), _) => {
                    if n - j2 == 1 && expect_lit(s, n, j2, "}").is_some() {
                        proof {
                            assert(s@.subrange(j2 as int, j2 + 1) == "}"@);
                            lemma_join(s@, 0, j as int, j2 as int);
                            lemma_join(s@, 0, j2 as int, j2 + 1);
                            assert(s@.subrange(0, j2 + 1) =~= s@);
                            assert(s@.subrange(0, j2 + 1) =~= reply_result_enc(
                                id,
                                has_tx_enc(true),
                            ));
                            assert(is_result_reply(s@, has_tx_enc(true))) by {
                                assert(s@ == reply_result_enc(id, has_tx_enc(true)));
                            };
                        }
                        Ok(true)
                    } else {
                        Err(OgmiosError::Json("malformed reply".to_owned()))
                    }
                }
                (None, Some(j2)) => {
                    if n - j2 == 1 && expect_lit(s, n, j2, "}").is_some() {
                        proof {
                            assert(s@.subrange(j2 as int, j2 + 1) == "}"@);
                            lemma_join(s@, 0, j as int, j2 as int);
                            lemma_join(s@, 0, j2 as int, j2 + 1);
                            assert(s@.subrange(0, j2 + 1) =~= s@);
                            assert(s@.subrange(0, j2 + 1) =~= reply_result_enc(
                                id,
                                has_tx_enc(false),
                            ));
                            assert(is_result_reply(s@, has_tx_enc(false))) by {
                                assert(s@ == reply_result_enc(id, has_tx_enc(false)));
                            };
                        }
                        Ok(false)
                    } else {
                        Err(OgmiosError::Json("malformed reply".to_owned()))
                    }
                }
                (None, None) => Err(OgmiosError::Json("malformed reply".to_owned())),
            };
            proof {
                assert forall|id2: u64, found: bool|
                    s@ == reply_result_enc(id2, has_tx_enc(found)) implies
                    outcome == Ok::<bool, OgmiosError>(found) by {
                    crate::jsonrpc::lemma_reply_result_parts(s@, id2, has_tx_enc(found));
                    let dl = dec_rep(id2 as nat).len() as int;
                    assert(lit_at(s@, 32 + dl, has_tx_enc(found)));
                    assert(j == 32 + dl);
                    if found {
                        assert(s@[j + 19] == s@.subrange(j as int, j + has_tx_enc(true).len() as int)[19]);
                    } else {
                        assert(s@[j + 19] == s@.subrange(j as int, j + has_tx_enc(false).len() as int)[19]);
                    }
                }
            }
            outcome
        }
        Some((id, j, false)) => {
            match parse_error_object(s, n, j) {
                Some((e, j2)) => {
                    match expect_lit(s, n, j2, "}") {
                        Some(j3) => {
                            if j3 == n {
                                let message = crate::chain_sync::json_rpc_error_message(&e);
                                proof {
                                    assert forall|id2: u64, code: i32, msg: Seq<char>|
                                        (plain_str(msg) && s@ == reply_error_enc(
                                            id2,
                                            code as int,
                                            msg,
                                        )) implies (e.code == code && e.message@ == msg) by {
                                        crate::jsonrpc::lemma_reply_error_parts(s@, id2, code, msg);
                                        let dl = dec_rep(id2 as nat).len() as int;
                                        assert(crate::jsonrpc::err_obj_at(s@, 31 + dl, code, msg));
                                        assert(j == 31 + dl);
                                    }
                                }
                                proof {
                                    lemma_join(s@, 0, j as int, j2 as int);
                                    lemma_join(s@, 0, j2 as int, j3 as int);
                                    assert(s@.subrange(0, j3 as int) =~= s@);
                                    assert(s@.subrange(0, j3 as int) =~= reply_error_enc(
                                        id,
                                        e.code as int,
                                        e.message@,
                                    ));
                                    assert(is_error_reply(s@, message@)) by {
                                        assert(plain_str(e.message@)
                                            && s@ == reply_error_enc(id, e.code as int, e.message@)
                                            && message@ == "JSON-RPC error "@
                                                + i32_enc(e.code as int) + ": "@ + e.message@);
                                    };
                                }
                                Err(OgmiosError::InvalidResponse { message })
                            } else {
                                proof {
                                    assert forall|id2: u64, code: i32, msg: Seq<char>|
                                        !(plain_str(msg) && s@ == reply_error_enc(
                                            id2,
                                            code as int,
                                            msg,
                                        )) by {
                                        if plain_str(msg) && s@ == reply_error_enc(
                                            id2,
                                            code as int,
                                            msg,
                                        ) {
                                            crate::jsonrpc::lemma_reply_error_parts(
                                                s@,
                                                id2,
                                                code,
                                                msg,
                                            );
                                            let dl = dec_rep(id2 as nat).len() as int;
                                            assert(crate::jsonrpc::err_obj_at(s@, 31 + dl, code, msg));
                                            assert(j == 31 + dl);
                                            assert(j2 == j + crate::jsonrpc::err_obj_enc(
                                                code as int,
                                                msg,
                                            ).len());
                                            assert(s@.len() == 32 + dl + crate::jsonrpc::err_obj_enc(
                                                code as int,
                                                msg,
                                            ).len());
                                            assert(false);
                                        }
                                    }
                                }
                                Err(OgmiosError::Json("malformed reply".to_owned()))
                            }
                        }
                        None => {
                            proof {
                                assert forall|id2: u64, code: i32, msg: Seq<char>|
                                    !(plain_str(msg) && s@ == reply_error_enc(id2, code as int, msg))
                                    by {
                                    if plain_str(msg) && s@ == reply_error_enc(
                                        id2,
                                        code as int,
                                        msg,
                                    ) {
                                        crate::jsonrpc::lemma_reply_error_parts(s@, id2, code, msg);
                                        let dl = dec_rep(id2 as nat).len() as int;
                                        assert(crate::jsonrpc::err_obj_at(s@, 31 + dl, code, msg));
                                        assert(j == 31 + dl);
                                        assert(j2 == j + crate::jsonrpc::err_obj_enc(
                                            code as int,
                                            msg,
                                        ).len());
                                        assert(false);
                                    }
                                }
                            }
                            Err(OgmiosError::Json("malformed reply".to_owned()))
                        }
                    }
                }
                None => {
                    proof {
                        assert forall|id2: u64, code: i32, msg: Seq<char>|
                            !(plain_str(msg) && s@ == reply_error_enc(id2, code as int, msg)) by {
                            if plain_str(msg) && s@ == reply_error_enc(id2, code as int, msg) {
                                crate::jsonrpc::lemma_reply_error_parts(s@, id2, code, msg);
                                let dl = dec_rep(id2 as nat).len() as int;
                                assert(crate::jsonrpc::err_obj_at(s@, 31 + dl, code, msg));
                                assert(j == 31 + dl);
                                assert(false);
                            }
                        }
                    }
                    Err(OgmiosError::Json("malformed reply".to_owned()))
                }
            }
        }
        None => Err(OgmiosError::Json("malformed reply".to_owned())),
    }
}

/// Canonical text of a next-transaction result: the identifier of the next
/// transaction, or null where the snapshot is exhausted.
pub open spec fn next_tx_enc(tx_id: Option<Seq<char>>) -> Seq<char> {
    match tx_id {
        Option::Some(t) => crate::transaction_submission::submit_result_enc(t),
        Option::None => "{\"transaction\":null}"@,
    }
}

/// Decode and interpret the reply to a next-transaction request: the next
/// transaction's identifier, or nothing where the snapshot is exhausted.
///
/// Deliberately, only the identifier-carrying and null result shapes are
/// accepted: they are the shapes the identifier-only request elicits.  A
/// result carrying a full transaction object is answered with the typed
/// decode failure.
pub fn interpret_next_transaction_id_reply(s: &str) -> (r: Result<
    Option<TransactionId>,
    OgmiosError,
>)
    ensures
        (forall|id: u64| s@ == reply_result_enc(id, next_tx_enc(None)) ==>
            (r matches Ok(o) && o is None)),
        (forall|id: u64, t: Seq<char>| plain_str(t)
            && s@ == reply_result_enc(id, next_tx_enc(Some(t))) ==>
            (r matches Ok(o) && o matches Some(tx) && tx@ == t)),
        (forall|id: u64, code: i32, msg: Seq<char>| plain_str(msg)
            && s@ == reply_error_enc(id, code as int, msg) ==>
            (r matches Err(e) && e matches OgmiosError::InvalidResponse { message }
                && message@ == "JSON-RPC error "@ + i32_enc(code as int) + ": "@ + msg)),
        (r matches Ok(o) ==> match o {
            Option::Some(tx) => plain_str(tx@) && is_result_reply(s@, next_tx_enc(Some(tx@))),
            Option::None => is_result_reply(s@, next_tx_enc(None)),
        }),
        (r matches Err(e) ==> match e {
            OgmiosError::InvalidResponse { message } => is_error_reply(s@, message@),
            OgmiosError::Json(_) => true,
            _ => false,
        }),
{
    proof {
        reveal_strlit("{\"transaction\":null}");
        reveal_strlit("{\"transaction\":{\"id\":\"");
        reveal_strlit("}");
    }
    let n = s.unicode_len();
    match parse_reply_prelude(s, n) {
        Some((id, j, true)) => {
            if let Some(j2) = expect_lit(s, n, j, "{\"transaction\":null}") {
                let outcome: Result<Option<TransactionId>, OgmiosError> =
                    if n - j2 == 1 && expect_lit(s, n, j2, "}").is_some() {
                    proof {
                        assert(s@.subrange(j2 as int, j2 + 1) == "}"@);
                        lemma_join(s@, 0, j as int, j2 as int);
                        lemma_join(s@, 0, j2 as int, j2 + 1);
                        assert(s@.subrange(0, j2 + 1) =~= s@);
                        assert(s@.subrange(0, j2 + 1) =~= reply_result_enc(
                            id,
                            next_tx_enc(None),
                        ));
                        assert(is_result_reply(s@, next_tx_enc(None))) by {
                            assert(s@ == reply_result_enc(id, next_tx_enc(None)));
                        };
                    }
                    Ok(None)
                } else {
                    Err(OgmiosError::Json("malformed reply".to_owned()))
                };
                proof {
                    assert forall|id2: u64| s@ == reply_result_enc(id2, next_tx_enc(None)) implies
                        (outcome matches Ok(o) && o is None) by {
                        crate::jsonrpc::lemma_reply_result_parts(s@, id2, next_tx_enc(None));
                        let dl = dec_rep(id2 as nat).len() as int;
                        assert(lit_at(s@, 32 + dl, next_tx_enc(None)));
                        assert(j == 32 + dl);
                    }
                    assert forall|id2: u64, t: Seq<char>| !(plain_str(t)
                        && s@ == reply_result_enc(id2, next_tx_enc(Some(t)))) by {
                        if plain_str(t) && s@ == reply_result_enc(id2, next_tx_enc(Some(t))) {
                            crate::jsonrpc::lemma_reply_result_parts(s@, id2, next_tx_enc(Some(t)));
                            let dl = dec_rep(id2 as nat).len() as int;
                            assert(crate::transaction_submission::submit_at(s@, 32 + dl, t));
                            assert(j == 32 + dl);
                            assert(s@[j + 15] == s@.subrange(
                                j as int,
                                j + next_tx_enc(Some(t)).len() as int,
                            )[15]);
                            assert(next_tx_enc(Some(t))[15] == '{');
                            assert(s@[j + 15] == s@.subrange(j as int, j + 20)[15]);
                            assert(next_tx_enc(None)[15] == 'n');
                            assert(false);
                        }
                    }
                }
                return outcome;
            }
            match crate::transaction_submission::parse_submit_result(s, n, j) {
                Some((t, j2)) => {
                    let outcome: Result<Option<TransactionId>, OgmiosError> =
                        if n - j2 == 1 && expect_lit(s, n, j2, "}").is_some() {
                        proof {
                            assert(s@.subrange(j2 as int, j2 + 1) == "}"@);
                            lemma_join(s@, 0, j as int, j2 as int);
                            lemma_join(s@, 0, j2 as int, j2 + 1);
                            assert(s@.subrange(0, j2 + 1) =~= s@);
                            assert(s@.subrange(0, j2 + 1) =~= reply_result_enc(
                                id,
                                next_tx_enc(Some(t@)),
                            ));
                            assert(is_result_reply(s@, next_tx_enc(Some(t@)))) by {
                                assert(s@ == reply_result_enc(id, next_tx_enc(Some(t@))));
                            };
                        }
                        Ok(Some(t))
                    } else {
                        Err(OgmiosError::Json("malformed reply".to_owned()))
                    };
                    proof {
                        assert forall|id2: u64, t2: Seq<char>| (plain_str(t2)
                            && s@ == reply_result_enc(id2, next_tx_enc(Some(t2)))) implies
                            (outcome matches Ok(o) && o matches Some(tx) && tx@ == t2) by {
                            crate::jsonrpc::lemma_reply_result_parts(s@, id2, next_tx_enc(Some(t2)));
                            let dl = dec_rep(id2 as nat).len() as int;
                            assert(crate::transaction_submission::submit_at(s@, 32 + dl, t2));
                            assert(j == 32 + dl);
                            assert(t@ == t2);
                            assert(j2 == j + next_tx_enc(Some(t2)).len());
                            assert(s@.len() == 33 + dl + next_tx_enc(Some(t2)).len());
                        }
                        assert forall|id2: u64| s@ != reply_result_enc(id2, next_tx_enc(None)) by {
                            if s@ == reply_result_enc(id2, next_tx_enc(None)) {
                                crate::jsonrpc::lemma_reply_result_parts(s@, id2, next_tx_enc(None));
                                let dl = dec_rep(id2 as nat).len() as int;
                                assert(lit_at(s@, 32 + dl, next_tx_enc(None)));
                                assert(j == 32 + dl);
                                assert(false);
                            }
                        }
                    }
                    outcome
                }
                None => {
                    proof {
                        assert forall|id2: u64| s@ != reply_result_enc(id2, next_tx_enc(None)) by {
                            if s@ == reply_result_enc(id2, next_tx_enc(None)) {
                                crate::jsonrpc::lemma_reply_result_parts(s@, id2, next_tx_enc(None));
                                let dl = dec_rep(id2 as nat).len() as int;
                                assert(lit_at(s@, 32 + dl, next_tx_enc(None)));
                                assert(j == 32 + dl);
                                assert(false);
                            }
                        }
                        assert forall|id2: u64, t: Seq<char>| !(plain_str(t)
                            && s@ == reply_result_enc(id2, next_tx_enc(Some(t)))) by {
                            if plain_str(t) && s@ == reply_result_enc(id2, next_tx_enc(Some(t))) {
                                crate::jsonrpc::lemma_reply_result_parts(s@, id2, next_tx_enc(Some(t)));
                                let dl = dec_rep(id2 as nat).len() as int;
                                assert(crate::transaction_submission::submit_at(s@, 32 + dl, t));
                                assert(j == 32 + dl);
                                assert(false);
                            }
                        }
                    }
                    Err(OgmiosError::Json("malformed reply".to_owned()))
                }
            }
        }
        Some((id, j, false)) => {
            match parse_error_object(s, n, j) {
                Some((e, j2)) => {
                    match expect_lit(s, n, j2, "}") {
                        Some(j3) => {
                            if j3 == n {
                                let message = crate::chain_sync::json_rpc_error_message(&e);
                                proof {
                                    assert forall|id2: u64, code: i32, msg: Seq<char>|
                                        (plain_str(msg) && s@ == reply_error_enc(
                                            id2,
                                            code as int,
                                            msg,
                                        )) implies (e.code == code && e.message@ == msg) by {
                                        crate::jsonrpc::lemma_reply_error_parts(s@, id2, code, msg);
                                        let dl = dec_rep(id2 as nat).len() as int;
                                        assert(crate::jsonrpc::err_obj_at(s@, 31 + dl, code, msg));
                                        assert(j == 31 + dl);
                                    }
                                }
                                proof {
                                    lemma_join(s@, 0, j as int, j2 as int);
                                    lemma_join(s@, 0, j2 as int, j3 as int);
                                    assert(s@.subrange(0, j3 as int) =~= s@);
                                    assert(s@.subrange(0, j3 as int) =~= reply_error_enc(
                                        id,
                                        e.code as int,
                                        e.message@,
                                    ));
                                    assert(is_error_reply(s@, message@)) by {
                                        assert(plain_str(e.message@)
                                            && s@ == reply_error_enc(id, e.code as int, e.message@)
                                            && message@ == "JSON-RPC error "@
                                                + i32_enc(e.code as int) + ": "@ + e.message@);
                                    };
                                }
                                Err(OgmiosError::InvalidResponse { message })
                            } else {
                                proof {
                                    assert forall|id2: u64, code: i32, msg: Seq<char>|
                                        !(plain_str(msg) && s@ == reply_error_enc(
                                            id2,
                                            code as int,
                                            msg,
                                        )) by {
                                        if plain_str(msg) && s@ == reply_error_enc(
                                            id2,
                                            code as int,
                                            msg,
                                        ) {
                                            crate::jsonrpc::lemma_reply_error_parts(
                                                s@,
                                                id2,
                                                code,
                                                msg,
                                            );
                                            let dl = dec_rep(id2 as nat).len() as int;
                                            assert(crate::jsonrpc::err_obj_at(s@, 31 + dl, code, msg));
                                            assert(j == 31 + dl);
                                            assert(j2 == j + crate::jsonrpc::err_obj_enc(
                                                code as int,
                                                msg,
                                            ).len());
                                            assert(s@.len() == 32 + dl + crate::jsonrpc::err_obj_enc(
                                                code as int,
                                                msg,
                                            ).len());
                                            assert(false);
                                        }
                                    }
                                }
                                Err(OgmiosError::Json("malformed reply".to_owned()))
                            }
                        }
                        None => {
                            proof {
                                assert forall|id2: u64, code: i32, msg: Seq<char>|
                                    !(plain_str(msg) && s@ == reply_error_enc(id2, code as int, msg))
                                    by {
                                    if plain_str(msg) && s@ == reply_error_enc(
                                        id2,
                                        code as int,
                                        msg,
                                    ) {
                                        crate::jsonrpc::lemma_reply_error_parts(s@, id2, code, msg);
                                        let dl = dec_rep(id2 as nat).len() as int;
                                        assert(crate::jsonrpc::err_obj_at(s@, 31 + dl, code, msg));
                                        assert(j == 31 + dl);
                                        assert(j2 == j + crate::jsonrpc::err_obj_enc(
                                            code as int,
                                            msg,
                                        ).len());
                                        assert(false);
                                    }
                                }
                            }
                            Err(OgmiosError::Json("malformed reply".to_owned()))
                        }
                    }
                }
                None => {
                    proof {
                        assert forall|id2: u64, code: i32, msg: Seq<char>|
                            !(plain_str(msg) && s@ == reply_error_enc(id2, code as int, msg)) by {
                            if plain_str(msg) && s@ == reply_error_enc(id2, code as int, msg) {
                                crate::jsonrpc::lemma_reply_error_parts(s@, id2, code, msg);
                                let dl = dec_rep(id2 as nat).len() as int;
                                assert(crate::jsonrpc::err_obj_at(s@, 31 + dl, code, msg));
                                assert(j == 31 + dl);
                                assert(false);
                            }
                        }
                    }
                    Err(OgmiosError::Json("malformed reply".to_owned()))
                }
            }
        }
        None => Err(OgmiosError::Json("malformed reply".to_owned())),
    }
}

/// The iteration latch of a mempool walk: once the snapshot is exhausted,
/// every further step yields nothing.
pub struct MempoolIterationState {
    /// Whether the snapshot has been exhausted.
    pub exhausted: bool,
}

impl MempoolIterationState {
    /// A fresh walk: nothing exhausted yet.
    pub fn new() -> (r: Self)
        ensures
            !r.exhausted,
    {
        MempoolIterationState { exhausted: false }
    }

    /// Decide what one step of the walk yields: the item, where one came
    /// and the walk was live; nothing once the snapshot was exhausted, and
    /// an empty answer latches the exhaustion.
    pub fn on_item<T>(&mut self, item: Option<T>) -> (r: Option<T>)
        ensures
            old(self).exhausted ==> r is None && final(self).exhausted,
            !old(self).exhausted ==> r == item && final(self).exhausted == (item is None),
    {
        if self.exhausted {
            return None;
        }
        match item {
            Option::Some(v) => Some(v),
            Option::None => {
                self.exhausted = true;
                None
            }
        }
    }
}

} // verus!
