//! Tests of the wire codec, the correlation table and the synchronization
//! engine.

use ogmios_client::block::{Block, BlockEBB, BlockPraos};
use ogmios_client::chain_sync::{
    encode_find_intersection_result, find_intersection_request, interpret_find_intersection,
    interpret_find_intersection_reply, interpret_next_block_reply, json_rpc_error_message,
    next_block_request, resume_points, ChainSynchronizationClientOptions, CollectingHandler,
    Intersection, RunState, SyncAction, SyncEngine,
};
use ogmios_client::codec::{
    decode_block, decode_next_block, decode_point, decode_tip, encode_block, encode_next_block,
    encode_point, encode_tip,
};
use ogmios_client::error::OgmiosError;
use ogmios_client::jsonrpc::{
    encode_reply_error, encode_reply_result, encode_request, response_id, JsonRpcError,
    JsonRpcRequest, JsonRpcResponse,
};
use ogmios_client::primitives::{Point, Tip};
use ogmios_client::responses::{FindIntersectionResponse, NextBlockResponse};
use ogmios_client::transaction_submission::{
    interpret_submit_transaction_reply, submit_transaction_request,
};
use ogmios_client::transport::{ensure_socket_is_open, prepare_request, TransportState};
use ogmios_client::chain_sync::ChainSynchronizationMessageHandlers;
use ogmios_client::numeral::{parse_u64, u64_to_string};
use ogmios_client::transport::prepare_notify;
use ogmios_client::util::{is_block_bft, is_block_ebb, is_block_praos};

#[test]
fn test_point_round_trip() {
    let origin = Point::origin();
    assert_eq!(encode_point(&origin), "\"origin\"");
    assert_eq!(decode_point(&encode_point(&origin)), Some(origin));

    let point = Point::at(42, "beef");
    assert_eq!(encode_point(&point), "{\"slot\":42,\"id\":\"beef\"}");
    assert_eq!(decode_point(&encode_point(&point)), Some(point));
}

#[test]
fn test_tip_round_trip() {
    let origin = Tip::origin();
    assert_eq!(decode_tip(&encode_tip(&origin)), Some(origin));

    let tip = Tip::at(77, "cafe", 9);
    assert_eq!(
        encode_tip(&tip),
        "{\"slot\":77,\"id\":\"cafe\",\"height\":9}"
    );
    assert_eq!(decode_tip(&encode_tip(&tip)), Some(tip));
}

#[test]
fn test_block_round_trip() {
    let block = Block::EBB(BlockEBB {
        block_type: "ebb".to_string(),
        era: "byron".to_string(),
        id: "aa11".to_string(),
        ancestor: "bb22".to_string(),
        slot: 3,
        height: 1,
    });
    assert_eq!(
        encode_block(&block),
        "{\"type\":\"ebb\",\"era\":\"byron\",\"id\":\"aa11\",\"ancestor\":\"bb22\",\"slot\":3,\"height\":1}"
    );
    assert_eq!(decode_block(&encode_block(&block)), Some(block));
}

#[test]
fn test_event_round_trip() {
    let forward = NextBlockResponse::Forward {
        block: Block::Praos(BlockPraos {
            block_type: "praos".to_string(),
            era: "conway".to_string(),
            id: "dd".to_string(),
            ancestor: "cc".to_string(),
            slot: 500,
            height: 12,
        }),
        tip: Tip::at(600, "ee", 13),
    };
    assert_eq!(decode_next_block(&encode_next_block(&forward)), Some(forward));

    let backward = NextBlockResponse::Backward {
        point: Point::at(100, "ff"),
        tip: Tip::at(600, "ee", 13),
    };
    assert_eq!(decode_next_block(&encode_next_block(&backward)), Some(backward));
}

#[test]
fn test_decode_rejects_trailing_text() {
    assert_eq!(decode_point("\"origin\"x"), None);
    assert_eq!(decode_point("{\"slot\":01,\"id\":\"a\"}"), None);
}

#[test]
fn test_request_encoding() {
    let req = JsonRpcRequest::with_id("nextBlock", None, 7);
    assert_eq!(
        encode_request(&req),
        "{\"jsonrpc\":\"2.0\",\"method\":\"nextBlock\",\"id\":7}"
    );
    let notify = JsonRpcRequest::new("ping", Some("{}".to_string()));
    assert_eq!(
        encode_request(&notify),
        "{\"jsonrpc\":\"2.0\",\"method\":\"ping\",\"params\":{}}"
    );
}

#[test]
fn test_into_result() {
    let ok: JsonRpcResponse<u64> = JsonRpcResponse {
        jsonrpc: "2.0".to_string(),
        result: Some(5),
        error: None,
        id: Some(1),
    };
    assert_eq!(ok.into_result(), Ok(5));

    let err: JsonRpcResponse<u64> = JsonRpcResponse {
        jsonrpc: "2.0".to_string(),
        result: None,
        error: Some(JsonRpcError { code: -32601, message: "nope".to_string() }),
        id: Some(1),
    };
    assert_eq!(
        err.into_result(),
        Err(JsonRpcError { code: -32601, message: "nope".to_string() })
    );

    let neither: JsonRpcResponse<u64> = JsonRpcResponse {
        jsonrpc: "2.0".to_string(),
        result: None,
        error: None,
        id: Some(1),
    };
    let e = neither.into_result().unwrap_err();
    assert_eq!(e.code, -32600);
}

#[test]
fn test_correlation_under_reversed_replies() {
    // three requests in flight; replies arrive in reverse order and each
    // reaches its own caller
    let mut t: TransportState<&str> = TransportState::new();
    let id1 = t.register("first").unwrap();
    let id2 = t.register("second").unwrap();
    let id3 = t.register("third").unwrap();
    assert_eq!((id1, id2, id3), (1, 2, 3));

    assert_eq!(t.on_response(id3), Some("third"));
    assert_eq!(t.on_response(id1), Some("first"));
    assert_eq!(t.on_response(id2), Some("second"));
    // an unmatched identifier is delivered to nobody
    assert_eq!(t.on_response(9), None);
}

#[test]
fn test_response_id_reads_identifier() {
    let reply = encode_reply_result(42, "\"origin\"");
    assert_eq!(response_id(&reply), Some(42));
    let err = encode_reply_error(7, -32602, "bad params");
    assert_eq!(response_id(&err), Some(7));
}

#[test]
fn test_shutdown_resolves_pending_and_is_idempotent() {
    let mut t: TransportState<&str> = TransportState::new();
    let id = t.register("waiting").unwrap();

    // closing hands the pending waiter back so it resolves with a
    // connection-closed failure instead of hanging
    let drained = t.close();
    assert_eq!(drained, vec![(id, "waiting")]);
    assert!(!t.is_open());

    // a second shutdown is a no-op
    let again = t.close();
    assert!(again.is_empty());

    // requests on the closed transport fail fast
    assert!(matches!(t.register("late"), Err(OgmiosError::SocketNotOpen { .. })));
    assert!(matches!(ensure_socket_is_open(&t), Err(OgmiosError::SocketNotOpen { .. })));
    let prepared = prepare_request(&mut t, "w", "nextBlock", None);
    assert!(matches!(prepared, Err(OgmiosError::SocketNotOpen { .. })));
}

#[test]
fn test_resume_from_origin_against_empty_chain() {
    // defaulting the points yields the origin alone
    let points = resume_points(None);
    assert_eq!(points, vec![Point::origin()]);

    let request = find_intersection_request(1, &points);
    assert_eq!(
        request,
        "{\"jsonrpc\":\"2.0\",\"method\":\"findIntersection\",\"params\":{\"points\":[\"origin\"]},\"id\":1}"
    );

    // the resolver answers with the origin intersection and origin tip
    let resp = FindIntersectionResponse { intersection: Some(Point::origin()), tip: Tip::origin() };
    let reply = encode_reply_result(1, &encode_find_intersection_result(&resp));
    let outcome = interpret_find_intersection_reply(&reply).unwrap();
    assert_eq!(outcome, Intersection { point: Point::origin(), tip: Tip::origin() });

    // the loop starts and proceeds to request the next event
    let mut engine = SyncEngine::new();
    engine.start().unwrap();
    assert!(engine.is_running());
    assert_eq!(
        next_block_request(2),
        "{\"jsonrpc\":\"2.0\",\"method\":\"nextBlock\",\"id\":2}"
    );
}

#[test]
fn test_rollback_to_origin_goes_to_backward_handler() {
    let mut engine = SyncEngine::new();
    engine.start().unwrap();

    let event = NextBlockResponse::Backward { point: Point::origin(), tip: Tip::origin() };
    let action = engine.dispatch(event);
    assert_eq!(action, SyncAction::DispatchBackward(Point::origin(), Tip::origin()));
    assert_eq!(engine.backward_dispatches, 1);
    assert_eq!(engine.forward_dispatches, 0);
}

#[test]
fn test_failure_after_fifth_block_stops_the_loop() {
    let mut engine = SyncEngine::new();
    engine.start().unwrap();
    let tip = Tip::at(100, "aa", 5);

    for n in 1..=5u64 {
        let block = Block::Praos(BlockPraos {
            block_type: "praos".to_string(),
            era: "conway".to_string(),
            id: format!("{:02}", n),
            ancestor: format!("{:02}", n - 1),
            slot: n,
            height: n,
        });
        let action = engine.dispatch(NextBlockResponse::Forward { block, tip: tip.clone() });
        assert!(matches!(action, SyncAction::DispatchForward(..)));
        if n < 5 {
            // the handler accepted the block: the loop asks for the next one
            assert_eq!(engine.after_handler(Ok(()), true), SyncAction::RequestNext);
        }
    }

    // the handler fails on the fifth block: the loop ends at once
    let failure = OgmiosError::QueryError("stop now".to_string());
    let action = engine.after_handler(Err(failure.clone()), true);
    assert_eq!(action, SyncAction::Stop);
    assert_eq!(engine.forward_dispatches, 5);
    assert_eq!(engine.state, RunState::Failed(failure));
    assert!(!engine.is_running());
}

#[test]
fn test_intersection_not_found_carries_tip() {
    let tip = Tip::at(900, "feed", 80);
    let resp = FindIntersectionResponse { intersection: None, tip: tip.clone() };
    // the interpretation is the typed not-found failure, never a decode error
    assert_eq!(
        interpret_find_intersection(resp),
        Err(OgmiosError::IntersectionNotFound { tip: Some(tip.clone()) })
    );

    let resp2 = FindIntersectionResponse { intersection: None, tip: tip.clone() };
    let reply = encode_reply_result(4, &encode_find_intersection_result(&resp2));
    match interpret_find_intersection_reply(&reply) {
        Err(OgmiosError::IntersectionNotFound { tip: Some(t) }) => assert_eq!(t, tip),
        other => panic!("expected the not-found failure, got {:?}", other),
    }
}

#[test]
fn test_remote_error_reply_is_typed() {
    let reply = encode_reply_error(3, -32602, "Invalid params");
    match interpret_next_block_reply(&reply) {
        Err(OgmiosError::InvalidResponse { message }) => {
            assert_eq!(message, "JSON-RPC error -32602: Invalid params");
        }
        other => panic!("expected the invalid-response failure, got {:?}", other),
    }
    let formatted = json_rpc_error_message(&JsonRpcError {
        code: -32700,
        message: "Parse error".to_string(),
    });
    assert_eq!(formatted, "JSON-RPC error -32700: Parse error");
}

#[test]
fn test_next_block_reply_round_trip() {
    let event = NextBlockResponse::Backward { point: Point::at(9, "ab"), tip: Tip::origin() };
    let reply = encode_reply_result(11, &encode_next_block(&event));
    assert_eq!(interpret_next_block_reply(&reply), Ok(event));
}

#[test]
fn test_submit_transaction_reply() {
    let request = submit_transaction_request(5, "84a400");
    assert_eq!(
        request,
        "{\"jsonrpc\":\"2.0\",\"method\":\"submitTransaction\",\"params\":{\"transaction\":{\"cbor\":\"84a400\"}},\"id\":5}"
    );
    let reply = encode_reply_result(5, "{\"transaction\":{\"id\":\"deadbeef\"}}");
    assert_eq!(interpret_submit_transaction_reply(&reply), Ok("deadbeef".to_string()));
}

#[test]
fn test_collecting_handler_counts() {
    let mut handler = CollectingHandler::new(Some(2));
    assert!(!handler.is_complete());
    let tip = Tip::origin();
    let block = Block::EBB(BlockEBB {
        block_type: "ebb".to_string(),
        era: "byron".to_string(),
        id: "01".to_string(),
        ancestor: "00".to_string(),
        slot: 1,
        height: 1,
    });
    handler.on_roll_forward(block, tip.clone()).unwrap();
    handler.on_roll_backward(Point::origin(), tip).unwrap();
    assert_eq!(handler.blocks.len(), 1);
    assert_eq!(handler.rollbacks.len(), 1);
    assert!(!handler.is_complete());

    let opts = ChainSynchronizationClientOptions::default();
    assert!(opts.sequential);
}

#[test]
fn test_shutdown_of_engine_is_idempotent() {
    let mut engine = SyncEngine::new();
    engine.start().unwrap();
    assert!(engine.is_running());
    engine.shutdown();
    assert_eq!(engine.state, RunState::Stopped);
    engine.shutdown();
    assert_eq!(engine.state, RunState::Stopped);
    // a second start is allowed after a stop and begins a fresh loop
    engine.start().unwrap();
    assert!(engine.is_running());
    // but a start while running is a usage error
    assert!(engine.start().is_err());
}

#[test]
fn test_prepare_request_builds_envelope_and_registers() {
    let mut t: TransportState<&str> = TransportState::new();
    let (id, payload) = prepare_request(&mut t, "caller", "nextBlock", None).unwrap();
    assert_eq!(id, 1);
    assert_eq!(payload, "{\"jsonrpc\":\"2.0\",\"method\":\"nextBlock\",\"id\":1}");
    // the registered waiter is delivered on the matching reply
    assert_eq!(t.on_response(id), Some("caller"));
    assert_eq!(t.on_response(id), None);
}

#[test]
fn test_prepare_notify_has_no_identifier() {
    let t: TransportState<&str> = TransportState::new();
    let payload = prepare_notify(&t, "releaseMempool", None).unwrap();
    assert_eq!(payload, "{\"jsonrpc\":\"2.0\",\"method\":\"releaseMempool\"}");
}

#[test]
fn test_transport_error_fails_running_loop_only() {
    let mut engine = SyncEngine::new();
    engine.start().unwrap();
    let action = engine.on_transport_error(OgmiosError::ConnectionClosed);
    assert_eq!(action, SyncAction::Stop);
    assert_eq!(engine.state, RunState::Failed(OgmiosError::ConnectionClosed));

    // after a deliberate stop, a late transport failure changes nothing
    let mut stopped = SyncEngine::new();
    stopped.start().unwrap();
    stopped.shutdown();
    stopped.on_transport_error(OgmiosError::ConnectionClosed);
    assert_eq!(stopped.state, RunState::Stopped);
}

#[test]
fn test_decode_rejects_near_misses() {
    assert_eq!(decode_point("\"orange\""), None);
    assert_eq!(decode_tip("{\"slot\":1,\"id\":\"aa\"}"), None);
    assert_eq!(decode_point(""), None);
}

#[test]
fn test_block_accessors() {
    let block = Block::BFT(ogmios_client::block::BlockBFT {
        block_type: "bft".to_string(),
        era: "byron".to_string(),
        id: "id01".to_string(),
        ancestor: "id00".to_string(),
        slot: 44,
        height: 7,
    });
    assert_eq!(block.slot(), 44);
    assert_eq!(block.height(), 7);
    assert_eq!(block.id(), "id01");
    assert_eq!(block.ancestor(), "id00");
    assert!(is_block_bft(&block));
    assert!(!is_block_ebb(&block));
    assert!(!is_block_praos(&block));
}

#[test]
fn test_number_text_round_trip() {
    let text = u64_to_string(u64::MAX);
    assert_eq!(text, "18446744073709551615");
    let n = text.chars().count();
    assert_eq!(parse_u64(&text, n, 0), Some((u64::MAX, n)));
    // one more digit no longer fits
    let over = "18446744073709551616";
    assert_eq!(parse_u64(over, over.len(), 0), None);
    // leading zeros are not canonical
    assert_eq!(parse_u64("007", 3, 0), None);
}
