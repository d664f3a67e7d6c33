//! Tests of the query, mempool and submission reply interpreters.

use ogmios_client::codec::{encode_point, encode_tip};
use ogmios_client::error::OgmiosError;
use ogmios_client::jsonrpc::{encode_reply_error, encode_reply_result};
use ogmios_client::ledger_state_query::{
    acquire_ledger_state_request, interpret_acquire_ledger_state_reply, interpret_point_reply,
    interpret_tip_reply, interpret_u64_reply, stake_pools_request, utxo_by_addresses_request,
};
use ogmios_client::mempool_monitoring::{
    has_transaction_request, interpret_acquire_mempool_reply, interpret_has_transaction_reply,
    interpret_next_transaction_id_reply, MempoolIterationState,
};
use ogmios_client::primitives::{Point, Tip};
use ogmios_client::transaction::{EvaluationResult, ExUnits, ScriptPurpose, ValidatorIndex};
use ogmios_client::transaction_submission::{
    evaluate_transaction_request, interpret_evaluate_transaction_reply,
};

#[test]
fn test_acquire_replies() {
    let reply = encode_reply_result(2, "{\"acquired\":\"mempool\",\"slot\":123}");
    let resp = interpret_acquire_mempool_reply(&reply).unwrap();
    assert_eq!(resp.acquired, "mempool");
    assert_eq!(resp.slot, 123);

    let reply = encode_reply_result(3, "{\"acquired\":\"ledgerState\",\"slot\":88}");
    let resp = interpret_acquire_ledger_state_reply(&reply).unwrap();
    assert_eq!(resp.acquired, "ledgerState");
    assert_eq!(resp.slot, 88);

    let failure = encode_reply_error(3, 2000, "no ledger state to acquire");
    assert!(matches!(
        interpret_acquire_ledger_state_reply(&failure),
        Err(OgmiosError::AcquisitionError(_))
    ));
}

#[test]
fn test_acquire_request_texts() {
    assert_eq!(
        acquire_ledger_state_request(4, &None),
        "{\"jsonrpc\":\"2.0\",\"method\":\"acquireLedgerState\",\"params\":{},\"id\":4}"
    );
    assert_eq!(
        acquire_ledger_state_request(4, &Some(Point::at(7, "aa"))),
        "{\"jsonrpc\":\"2.0\",\"method\":\"acquireLedgerState\",\"params\":{\"point\":{\"slot\":7,\"id\":\"aa\"}},\"id\":4}"
    );
}

#[test]
fn test_has_transaction_reply() {
    assert_eq!(
        has_transaction_request(6, "abcd"),
        "{\"jsonrpc\":\"2.0\",\"method\":\"hasTransaction\",\"params\":{\"id\":\"abcd\"},\"id\":6}"
    );
    let yes = encode_reply_result(6, "{\"hasTransaction\":true}");
    assert_eq!(interpret_has_transaction_reply(&yes), Ok(true));
    let no = encode_reply_result(6, "{\"hasTransaction\":false}");
    assert_eq!(interpret_has_transaction_reply(&no), Ok(false));
}

#[test]
fn test_next_transaction_id_reply() {
    let empty = encode_reply_result(8, "{\"transaction\":null}");
    assert_eq!(interpret_next_transaction_id_reply(&empty), Ok(None));
    let next = encode_reply_result(8, "{\"transaction\":{\"id\":\"cafe\"}}");
    assert_eq!(
        interpret_next_transaction_id_reply(&next),
        Ok(Some("cafe".to_string()))
    );
}

#[test]
fn test_mempool_iteration_latches() {
    let mut walk = MempoolIterationState::new();
    assert_eq!(walk.on_item(Some(1u64)), Some(1));
    assert_eq!(walk.on_item::<u64>(None), None);
    assert!(walk.exhausted);
    // once exhausted, later items are not delivered
    assert_eq!(walk.on_item(Some(2u64)), None);
}

#[test]
fn test_numeric_point_and_tip_replies() {
    let epoch = encode_reply_result(1, "450");
    assert_eq!(interpret_u64_reply(&epoch), Ok(450));

    let point = Point::at(12, "ab");
    let reply = encode_reply_result(2, &encode_point(&point));
    assert_eq!(interpret_point_reply(&reply), Ok(point));

    let tip = Tip::at(12, "ab", 3);
    let reply = encode_reply_result(2, &encode_tip(&tip));
    assert_eq!(interpret_tip_reply(&reply), Ok(tip));
}

#[test]
fn test_query_request_texts() {
    assert_eq!(
        utxo_by_addresses_request(9, vec!["addr1".to_string(), "addr2".to_string()]),
        "{\"jsonrpc\":\"2.0\",\"method\":\"queryLedgerState/utxo\",\"params\":{\"addresses\":[\"addr1\",\"addr2\"]},\"id\":9}"
    );
    assert_eq!(
        stake_pools_request(10, None, true),
        "{\"jsonrpc\":\"2.0\",\"method\":\"queryLedgerState/stakePools\",\"params\":{\"includeStake\":true},\"id\":10}"
    );
}

#[test]
fn test_evaluate_transaction_reply() {
    assert_eq!(
        evaluate_transaction_request(11, "84a400"),
        "{\"jsonrpc\":\"2.0\",\"method\":\"evaluateTransaction\",\"params\":{\"transaction\":{\"cbor\":\"84a400\"}},\"id\":11}"
    );

    let empty = encode_reply_result(11, "[]");
    assert_eq!(interpret_evaluate_transaction_reply(&empty), Ok(vec![]));

    let one = encode_reply_result(
        11,
        "[{\"validator\":{\"purpose\":\"spend\",\"index\":0},\"budget\":{\"memory\":100,\"cpu\":200}}]",
    );
    assert_eq!(
        interpret_evaluate_transaction_reply(&one),
        Ok(vec![EvaluationResult {
            validator: ValidatorIndex { purpose: ScriptPurpose::Spend, index: 0 },
            budget: ExUnits { memory: 100, cpu: 200 },
        }])
    );

    let two = encode_reply_result(
        11,
        "[{\"validator\":{\"purpose\":\"mint\",\"index\":1},\"budget\":{\"memory\":5,\"cpu\":6}},{\"validator\":{\"purpose\":\"withdraw\",\"index\":2},\"budget\":{\"memory\":7,\"cpu\":8}}]",
    );
    let results = interpret_evaluate_transaction_reply(&two).unwrap();
    assert_eq!(results.len(), 2);
    assert_eq!(results[0].validator.purpose, ScriptPurpose::Mint);
    assert_eq!(results[1].validator.index, 2);

    let failure = encode_reply_error(11, 3010, "script failure");
    match interpret_evaluate_transaction_reply(&failure) {
        Err(OgmiosError::EvaluationError(message)) => {
            assert_eq!(message, "JSON-RPC error 3010: script failure");
        }
        other => panic!("expected the evaluation failure, got {:?}", other),
    }
}

#[test]
fn test_malformed_replies_yield_typed_decode_failures() {
    // a result of an unexpected shape is a decode failure, never a made-up answer
    let odd = encode_reply_result(6, "{\"hasTransaction\":maybe}");
    assert!(matches!(interpret_has_transaction_reply(&odd), Err(OgmiosError::Json(_))));

    let wrong = encode_reply_result(5, "42");
    assert!(matches!(
        ogmios_client::transaction_submission::interpret_submit_transaction_reply(&wrong),
        Err(OgmiosError::Json(_))
    ));

    assert!(matches!(
        interpret_evaluate_transaction_reply("not a reply"),
        Err(OgmiosError::Json(_))
    ));

    // an unparseable frame carries no identifier to correlate on
    assert_eq!(ogmios_client::jsonrpc::response_id("nonsense"), None);
}
