//! Ledger state queries: filters, request parameters and reply
//! interpretation.

use vstd::prelude::*;
use vstd::string::StringExecFns;
use crate::codec::{encode_point, parse_point, parse_tip, point_at, point_enc, tip_at, tip_enc};
use crate::era::{era_with_genesis_str, EraWithGenesis};
use crate::error::OgmiosError;
use crate::jsonrpc::{
    encode_request, i32_enc, is_error_reply, is_result_reply, parse_error_object,
    parse_reply_prelude, reply_error_enc, reply_result_enc, JsonRpcRequest,
};
use crate::numeral::{dec_at, dec_rep, parse_u64};
use crate::parse::{expect_lit, lemma_join, lemma_split, lit_at, lemma_str_end_exact, parse_str_rest, str_end};
use crate::primitives::{plain_str, Address, Point, PointV, Slot, StakeAddress, StakePoolId, Tip, TipV};
use crate::transaction::TransactionOutputReference;

verus! {

/// Options for creating a ledger state query client.
#[derive(Debug, Clone, PartialEq, Eq)]
pub struct LedgerStateQueryClientOptions {
    /// Automatically acquire the ledger state at this point.
    pub point: Option<Point>,
}

impl Default for LedgerStateQueryClientOptions {
    /// The default options: no point to acquire.
    fn default() -> (r: Self)
        ensures
            r.point is None,
    {
        LedgerStateQueryClientOptions { point: None }
    }
}

/// Governance proposal filter.
#[derive(Debug, Clone, PartialEq, Eq)]
pub struct GovernanceProposalFilter {
    /// Filter by proposal identifiers.
    pub proposals: Option<Vec<String>>,
    /// Filter by action kind.
    pub action_type: Option<String>,
}

impl Default for GovernanceProposalFilter {
    /// The default filter: no restriction.
    fn default() -> (r: Self)
        ensures
            r.proposals is None,
            r.action_type is None,
    {
        GovernanceProposalFilter { proposals: None, action_type: None }
    }
}

/// Projected rewards filter.
#[derive(Debug, Clone, PartialEq, Eq)]
pub struct ProjectedRewardsFilter {
    /// Stake addresses to query.
    pub stake_addresses: Vec<StakeAddress>,
}

/// Reward account summaries filter.
#[derive(Debug, Clone, PartialEq, Eq)]
pub struct RewardAccountSummariesFilter {
    /// Stake addresses to query.
    pub keys: Vec<StakeAddress>,
}

/// Stake pools filter.
#[derive(Debug, Clone, PartialEq, Eq)]
pub struct StakePoolsFilter {
    /// Specific stake pool identifiers to query.
    pub stake_pools: Option<Vec<StakePoolId>>,
}

impl Default for StakePoolsFilter {
    /// The default filter: every pool.
    fn default() -> (r: Self)
        ensures
            r.stake_pools is None,
    {
        StakePoolsFilter { stake_pools: None }
    }
}

/// Unspent-output filter.
#[derive(Debug, Clone, PartialEq, Eq)]
pub struct UtxoFilter {
    /// Filter by addresses.
    pub addresses: Option<Vec<Address>>,
    /// Filter by output references.
    pub output_references: Option<Vec<TransactionOutputReference>>,
}

impl Default for UtxoFilter {
    /// The default filter: no restriction.
    fn default() -> (r: Self)
        ensures
            r.addresses is None,
            r.output_references is None,
    {
        UtxoFilter { addresses: None, output_references: None }
    }
}

/// The views of a list of texts.
pub open spec fn strs_view(ss: Seq<String>) -> Seq<Seq<char>> {
    ss.map_values(|s: String| s@)
}

/// The items of a quoted string list, comma separated.
pub open spec fn str_items(ss: Seq<Seq<char>>) -> Seq<char>
    decreases ss.len(),
{
    if ss.len() == 0 {
        Seq::empty()
    } else if ss.len() == 1 {
        seq!['"'] + ss[0] + seq!['"']
    } else {
        str_items(ss.drop_last()) + seq![','] + (seq!['"'] + ss.last() + seq!['"'])
    }
}

/// Canonical text of a quoted string list.
pub open spec fn str_list_enc(ss: Seq<Seq<char>>) -> Seq<char> {
    seq!['['] + str_items(ss) + seq![']']
}

/// Encode a list of texts as a quoted string list.
pub fn encode_string_list(items: &Vec<String>) -> (r: String)
    ensures
        r@ == str_list_enc(strs_view(items@)),
{
    proof {
        reveal_strlit("[");
        reveal_strlit("]");
    }
    let ghost sv = strs_view(items@);
    let mut r = "[".to_owned();
    let n = items.len();
    let mut k: usize = 0;
    proof {
        assert(sv.take(0) =~= Seq::<Seq<char>>::empty());
        assert(r@ =~= seq!['['] + str_items(sv.take(0)));
    }
    while k < n
        invariant
            0 <= k <= n == items@.len(),
            sv == strs_view(items@),
            sv.len() == n,
            r@ == seq!['['] + str_items(sv.take(k as int)),
        decreases n - k,
    {
        if k > 0 {
            r.append(",");
        }
        r.append("\"");
        r.append(items[k].as_str());
        r.append("\"");
        proof {
            reveal_strlit("[");
            reveal_strlit(",");
            reveal_strlit("\"");
            assert(sv[k as int] == items@[k as int]@);
            assert(sv.take(k + 1).drop_last() =~= sv.take(k as int));
            assert(sv.take(k + 1).last() == sv[k as int]);
            if k == 0 {
                assert(sv.take(1).len() == 1);
                assert(sv.take(1)[0] == sv[0]);
                assert(r@ =~= seq!['['] + str_items(sv.take(k + 1)));
            } else {
                assert(str_items(sv.take(k + 1)) == str_items(sv.take(k as int))
                    + seq![','] + (seq!['"'] + sv[k as int] + seq!['"']));
                assert(r@ =~= seq!['['] + str_items(sv.take(k + 1)));
            }
        }
        k = k + 1;
    }
    r.append("]");
    proof {
        assert(sv.take(n as int) =~= sv);
        assert(r@ =~= str_list_enc(sv));
    }
    r
}

/// Canonical text of the acquire parameters.
pub open spec fn acquire_params_enc(point: Option<PointV>) -> Seq<char> {
    match point {
        Option::Some(p) => "{\"point\":"@ + point_enc(p) + "}"@,
        Option::None => "{}"@,
    }
}

/// Encode the acquire parameters.
pub fn acquire_ledger_state_params(point: &Option<Point>) -> (r: String)
    ensures
        r@ == acquire_params_enc(match point {
            Option::Some(p) => Some(p@),
            Option::None => None,
        }),
{
    match point {
        Option::Some(p) => {
            let mut r = "{\"point\":".to_owned();
            let p_str = encode_point(p);
            r.append(p_str.as_str());
            r.append("}");
            proof {
                assert(r@ =~= acquire_params_enc(Some(p@)));
            }
            r
        }
        Option::None => "{}".to_owned(),
    }
}

/// Build an acquire request for the ledger state.
pub fn acquire_ledger_state_request(id: u64, point: &Option<Point>) -> (r: String)
    ensures
        r@ == crate::jsonrpc::request_enc("acquireLedgerState"@, Some(acquire_params_enc(
            match point {
                Option::Some(p) => Some(p@),
                Option::None => None,
            },
        )), Some(id)),
{
    let params = acquire_ledger_state_params(point);
    let req = JsonRpcRequest::with_id("acquireLedgerState", Some(params), id);
    encode_request(&req)
}

/// Build a release request for the ledger state.
pub fn release_ledger_state_request(id: u64) -> (r: String)
    ensures
        r@ == crate::jsonrpc::request_enc("releaseLedgerState"@, None, Some(id)),
{
    let req = JsonRpcRequest::with_id("releaseLedgerState", None, id);
    encode_request(&req)
}

/// Build an epoch query request.
pub fn epoch_request(id: u64) -> (r: String)
    ensures
        r@ == crate::jsonrpc::request_enc("queryLedgerState/epoch"@, None, Some(id)),
{
    let req = JsonRpcRequest::with_id("queryLedgerState/epoch", None, id);
    encode_request(&req)
}

/// Build a ledger tip query request.
pub fn ledger_tip_request(id: u64) -> (r: String)
    ensures
        r@ == crate::jsonrpc::request_enc("queryLedgerState/tip"@, None, Some(id)),
{
    let req = JsonRpcRequest::with_id("queryLedgerState/tip", None, id);
    encode_request(&req)
}

/// Build a network tip query request.
pub fn network_tip_request(id: u64) -> (r: String)
    ensures
        r@ == crate::jsonrpc::request_enc("queryNetwork/tip"@, None, Some(id)),
{
    let req = JsonRpcRequest::with_id("queryNetwork/tip", None, id);
    encode_request(&req)
}

/// Build a network block height query request.
pub fn network_block_height_request(id: u64) -> (r: String)
    ensures
        r@ == crate::jsonrpc::request_enc("queryNetwork/blockHeight"@, None, Some(id)),
{
    let req = JsonRpcRequest::with_id("queryNetwork/blockHeight", None, id);
    encode_request(&req)
}

/// Canonical text of the genesis configuration parameters.
pub open spec fn genesis_params_enc(era: EraWithGenesis) -> Seq<char> {
    "{\"era\":\""@ + era_with_genesis_str(era) + "\"}"@
}

/// Build a genesis configuration query request.
pub fn genesis_configuration_request(id: u64, era: EraWithGenesis) -> (r: String)
    ensures
        r@ == crate::jsonrpc::request_enc("queryLedgerState/genesisConfiguration"@, Some(
            genesis_params_enc(era),
        ), Some(id)),
{
    let mut params = "{\"era\":\"".to_owned();
    params.append(era.as_str());
    params.append("\"}");
    proof {
        assert(params@ =~= genesis_params_enc(era));
    }
    let req = JsonRpcRequest::with_id("queryLedgerState/genesisConfiguration", Some(params), id);
    encode_request(&req)
}

/// Canonical text of the projected rewards parameters.
pub open spec fn projected_rewards_params_enc(addresses: Seq<Seq<char>>) -> Seq<char> {
    "{\"stakeAddresses\":"@ + str_list_enc(addresses) + "}"@
}

/// Encode the projected rewards parameters.
pub fn projected_rewards_params(filter: &ProjectedRewardsFilter) -> (r: String)
    ensures
        r@ == projected_rewards_params_enc(strs_view(filter.stake_addresses@)),
{
    let mut params = "{\"stakeAddresses\":".to_owned();
    let list = encode_string_list(&filter.stake_addresses);
    params.append(list.as_str());
    params.append("}");
    proof {
        assert(params@ =~= projected_rewards_params_enc(strs_view(filter.stake_addresses@)));
    }
    params
}

/// Build a projected rewards query request.
pub fn projected_rewards_request(id: u64, filter: &ProjectedRewardsFilter) -> (r: String)
    ensures
        r@ == crate::jsonrpc::request_enc("queryLedgerState/projectedRewards"@, Some(
            projected_rewards_params_enc(strs_view(filter.stake_addresses@)),
        ), Some(id)),
{
    let params = projected_rewards_params(filter);
    let req = JsonRpcRequest::with_id("queryLedgerState/projectedRewards", Some(params), id);
    encode_request(&req)
}

/// Canonical text of the reward account summaries parameters.
pub open spec fn reward_summaries_params_enc(keys: Seq<Seq<char>>) -> Seq<char> {
    "{\"keys\":"@ + str_list_enc(keys) + "}"@
}

/// Build a reward account summaries query request.
pub fn reward_account_summaries_request(id: u64, filter: &RewardAccountSummariesFilter) -> (r:
    String)
    ensures
        r@ == crate::jsonrpc::request_enc("queryLedgerState/rewardAccountSummaries"@, Some(
            reward_summaries_params_enc(strs_view(filter.keys@)),
        ), Some(id)),
{
    let mut params = "{\"keys\":".to_owned();
    let list = encode_string_list(&filter.keys);
    params.append(list.as_str());
    params.append("}");
    proof {
        assert(params@ =~= reward_summaries_params_enc(strs_view(filter.keys@)));
    }
    let req = JsonRpcRequest::with_id("queryLedgerState/rewardAccountSummaries", Some(params), id);
    encode_request(&req)
}

/// Canonical text of the stake pools parameters.
pub open spec fn stake_pools_params_enc(pools: Option<Seq<Seq<char>>>, include_stake: bool)
    -> Seq<char> {
    (match pools {
        Option::Some(ps) => "{\"stakePools\":"@ + str_list_enc(ps) + ",\"includeStake\":"@,
        Option::None => "{\"includeStake\":"@,
    }) + (if include_stake { "true"@ } else { "false"@ }) + "}"@
}

/// Encode the stake pools parameters.
pub fn stake_pools_params(filter: Option<&StakePoolsFilter>, include_stake: bool) -> (r: String)
    ensures
        r@ == stake_pools_params_enc(match filter {
            Option::Some(f) => match f.stake_pools {
                Option::Some(ref ps) => Some(strs_view(ps@)),
                Option::None => None,
            },
            Option::None => None,
        }, include_stake),
{
    let mut params = match filter {
        Option::Some(f) => match &f.stake_pools {
            Option::Some(ps) => {
                let mut p = "{\"stakePools\":".to_owned();
                let list = encode_string_list(ps);
                p.append(list.as_str());
                p.append(",\"includeStake\":");
                p
            }
            Option::None => "{\"includeStake\":".to_owned(),
        },
        Option::None => "{\"includeStake\":".to_owned(),
    };
    if include_stake {
        params.append("true");
    } else {
        params.append("false");
    }
    params.append("}");
    proof {
        assert(params@ =~= stake_pools_params_enc(match filter {
            Option::Some(f) => match f.stake_pools {
                Option::Some(ref ps) => Some(strs_view(ps@)),
                Option::None => None,
            },
            Option::None => None,
        }, include_stake));
    }
    params
}

/// Build a stake pools query request.
pub fn stake_pools_request(id: u64, filter: Option<&StakePoolsFilter>, include_stake: bool) -> (r:
    String)
    ensures
        r@ == crate::jsonrpc::request_enc("queryLedgerState/stakePools"@, Some(
            stake_pools_params_enc(match filter {
                Option::Some(f) => match f.stake_pools {
                    Option::Some(ref ps) => Some(strs_view(ps@)),
                    Option::None => None,
                },
                Option::None => None,
            }, include_stake),
        ), Some(id)),
{
    let params = stake_pools_params(filter, include_stake);
    let req = JsonRpcRequest::with_id("queryLedgerState/stakePools", Some(params), id);
    encode_request(&req)
}

/// The items of an output reference list, comma separated.
pub open spec fn out_ref_items(rs: Seq<(Seq<char>, u32)>) -> Seq<char>
    decreases rs.len(),
{
    if rs.len() == 0 {
        Seq::empty()
    } else if rs.len() == 1 {
        out_ref_enc(rs[0].0, rs[0].1)
    } else {
        out_ref_items(rs.drop_last()) + seq![','] + out_ref_enc(rs.last().0, rs.last().1)
    }
}

/// Canonical text of one output reference.
pub open spec fn out_ref_enc(tx_id: Seq<char>, index: u32) -> Seq<char> {
    "{\"id\":\""@ + tx_id + "\",\"index\":"@ + dec_rep(index as nat) + "}"@
}

/// The views of a list of output references.
pub open spec fn out_refs_view(rs: Seq<TransactionOutputReference>) -> Seq<(Seq<char>, u32)> {
    rs.map_values(|r: TransactionOutputReference| (r.id@, r.index))
}

/// Encode a list of output references.
pub fn encode_output_references(refs: &Vec<TransactionOutputReference>) -> (r: String)
    ensures
        r@ == seq!['['] + out_ref_items(out_refs_view(refs@)) + seq![']'],
{
    proof {
        reveal_strlit("[");
        reveal_strlit("]");
    }
    let ghost rv = out_refs_view(refs@);
    let mut r = "[".to_owned();
    let n = refs.len();
    let mut k: usize = 0;
    proof {
        assert(rv.take(0) =~= Seq::<(Seq<char>, u32)>::empty());
        assert(r@ =~= seq!['['] + out_ref_items(rv.take(0)));
    }
    while k < n
        invariant
            0 <= k <= n == refs@.len(),
            rv == out_refs_view(refs@),
            rv.len() == n,
            r@ == seq!['['] + out_ref_items(rv.take(k as int)),
        decreases n - k,
    {
        if k > 0 {
            r.append(",");
        }
        r.append("{\"id\":\"");
        r.append(refs[k].id.as_str());
        r.append("\",\"index\":");
        let idx_str = crate::numeral::u64_to_string(refs[k].index as u64);
        r.append(idx_str.as_str());
        r.append("}");
        proof {
            reveal_strlit("[");
            reveal_strlit(",");
            assert(rv[k as int] == (refs@[k as int].id@, refs@[k as int].index));
            assert(rv.take(k + 1).drop_last() =~= rv.take(k as int));
            assert(rv.take(k + 1).last() == rv[k as int]);
            assert(dec_rep((refs@[k as int].index as u64) as nat)
                == dec_rep(refs@[k as int].index as nat));
            if k == 0 {
                assert(rv.take(1).len() == 1);
                assert(rv.take(1)[0] == rv[0]);
                assert(r@ =~= seq!['['] + out_ref_items(rv.take(k + 1)));
            } else {
                assert(out_ref_items(rv.take(k + 1)) == out_ref_items(rv.take(k as int))
                    + seq![','] + out_ref_enc(rv[k as int].0, rv[k as int].1));
                assert(r@ =~= seq!['['] + out_ref_items(rv.take(k + 1)));
            }
        }
        k = k + 1;
    }
    r.append("]");
    proof {
        assert(rv.take(n as int) =~= rv);
        assert(r@ =~= seq!['['] + out_ref_items(rv) + seq![']']);
    }
    r
}

/// Canonical text of the unspent-output filter.
pub open spec fn utxo_params_enc(
    addresses: Option<Seq<Seq<char>>>,
    refs: Option<Seq<(Seq<char>, u32)>>,
) -> Seq<char> {
    match (addresses, refs) {
        (Option::Some(a), Option::Some(r)) => "{\"addresses\":"@ + str_list_enc(a)
            + ",\"outputReferences\":"@ + (seq!['['] + out_ref_items(r) + seq![']']) + "}"@,
        (Option::Some(a), Option::None) => "{\"addresses\":"@ + str_list_enc(a) + "}"@,
        (Option::None, Option::Some(r)) => "{\"outputReferences\":"@
            + (seq!['['] + out_ref_items(r) + seq![']']) + "}"@,
        (Option::None, Option::None) => "{}"@,
    }
}

/// The filter views of an unspent-output filter.
pub open spec fn utxo_filter_view(f: UtxoFilter) -> (
    Option<Seq<Seq<char>>>,
    Option<Seq<(Seq<char>, u32)>>,
) {
    (
        match f.addresses {
            Option::Some(a) => Some(strs_view(a@)),
            Option::None => None,
        },
        match f.output_references {
            Option::Some(r) => Some(out_refs_view(r@)),
            Option::None => None,
        },
    )
}

/// Encode the unspent-output filter as request parameters.
pub fn utxo_params(filter: &UtxoFilter) -> (r: String)
    ensures
        r@ == utxo_params_enc(utxo_filter_view(*filter).0, utxo_filter_view(*filter).1),
{
    match (&filter.addresses, &filter.output_references) {
        (Option::Some(a), Option::Some(refs)) => {
            let mut p = "{\"addresses\":".to_owned();
            let list = encode_string_list(a);
            p.append(list.as_str());
            p.append(",\"outputReferences\":");
            let refs_str = encode_output_references(refs);
            p.append(refs_str.as_str());
            p.append("}");
            proof {
                assert(p@ =~= utxo_params_enc(utxo_filter_view(*filter).0,
                    utxo_filter_view(*filter).1));
            }
            p
        }
        (Option::Some(a), Option::None) => {
            let mut p = "{\"addresses\":".to_owned();
            let list = encode_string_list(a);
            p.append(list.as_str());
            p.append("}");
            proof {
                assert(p@ =~= utxo_params_enc(utxo_filter_view(*filter).0,
                    utxo_filter_view(*filter).1));
            }
            p
        }
        (Option::None, Option::Some(refs)) => {
            let mut p = "{\"outputReferences\":".to_owned();
            let refs_str = encode_output_references(refs);
            p.append(refs_str.as_str());
            p.append("}");
            proof {
                assert(p@ =~= utxo_params_enc(utxo_filter_view(*filter).0,
                    utxo_filter_view(*filter).1));
            }
            p
        }
        (Option::None, Option::None) => "{}".to_owned(),
    }
}

/// Build an unspent-output query request.
pub fn utxo_request(id: u64, filter: Option<&UtxoFilter>) -> (r: String)
    ensures
        r@ == crate::jsonrpc::request_enc("queryLedgerState/utxo"@, match filter {
            Option::Some(f) => Some(utxo_params_enc(utxo_filter_view(*f).0, utxo_filter_view(*f).1)),
            Option::None => None,
        }, Some(id)),
{
    let params = match filter {
        Option::Some(f) => Some(utxo_params(f)),
        Option::None => None,
    };
    let req = JsonRpcRequest::with_id("queryLedgerState/utxo", params, id);
    encode_request(&req)
}

/// Build an unspent-output query by addresses, as a filter on addresses
/// alone.
pub fn utxo_by_addresses_request(id: u64, addresses: Vec<Address>) -> (r: String)
    ensures
        r@ == crate::jsonrpc::request_enc("queryLedgerState/utxo"@, Some(utxo_params_enc(
            Some(strs_view(addresses@)),
            None,
        )), Some(id)),
{
    let filter = UtxoFilter { addresses: Some(addresses), output_references: None };
    utxo_request(id, Some(&filter))
}

/// Build an unspent-output query by output references, as a filter on
/// references alone.
pub fn utxo_by_output_references_request(
    id: u64,
    output_references: Vec<TransactionOutputReference>,
) -> (r: String)
    ensures
        r@ == crate::jsonrpc::request_enc("queryLedgerState/utxo"@, Some(utxo_params_enc(
            None,
            Some(out_refs_view(output_references@)),
        )), Some(id)),
{
    let filter = UtxoFilter { addresses: None, output_references: Some(output_references) };
    utxo_request(id, Some(&filter))
}

/// Interpret an acquire reply as a ledger-state acquisition.
pub fn interpret_acquire_ledger_state_reply(s: &str) -> (r: Result<
    crate::responses::AcquireLedgerStateResponse,
    OgmiosError,
>)
    ensures
        (forall|id: u64, a: Seq<char>, v: u64| plain_str(a)
            && s@ == reply_result_enc(id, crate::mempool_monitoring::acquire_enc(a, v)) ==>
            (r matches Ok(resp) && resp.acquired@ == a && resp.slot == v)),
        (forall|id: u64, code: i32, msg: Seq<char>| plain_str(msg)
            && s@ == reply_error_enc(id, code as int, msg) ==>
            (r matches Err(e) && e matches OgmiosError::AcquisitionError(message)
                && message@ == "JSON-RPC error "@ + i32_enc(code as int) + ": "@ + msg)),
        (r matches Ok(resp) ==> plain_str(resp.acquired@) && is_result_reply(
            s@,
            crate::mempool_monitoring::acquire_enc(resp.acquired@, resp.slot),
        )),
        (r matches Err(e) ==> match e {
            OgmiosError::AcquisitionError(message) => is_error_reply(s@, message@),
            OgmiosError::Json(_) => true,
            _ => false,
        }),
{
    match crate::mempool_monitoring::interpret_acquire_reply(s) {
        Result::Ok((acquired, slot)) => Ok(crate::responses::AcquireLedgerStateResponse {
            acquired,
            slot,
        }),
        Result::Err(e) => Err(e),
    }
}

/// Decode and interpret a reply whose result is a bare number, as the epoch
/// and block height queries return.
pub fn interpret_u64_reply(s: &str) -> (r: Result<u64, OgmiosError>)
    ensures
        (forall|id: u64, v: u64| s@ == reply_result_enc(id, dec_rep(v as nat)) ==>
            r == Ok::<u64, OgmiosError>(v)),
        (forall|id: u64, code: i32, msg: Seq<char>| plain_str(msg)
            && s@ == reply_error_enc(id, code as int, msg) ==>
            (r matches Err(e) && e matches OgmiosError::InvalidResponse { message }
                && message@ == "JSON-RPC error "@ + i32_enc(code as int) + ": "@ + msg)),
        (r matches Ok(v) ==> is_result_reply(s@, dec_rep(v as nat))),
        (r matches Err(e) ==> match e {
            OgmiosError::InvalidResponse { message } => is_error_reply(s@, message@),
            OgmiosError::Json(_) => true,
            _ => false,
        }),
{
    proof {
        reveal_strlit("}");
    }
    let n = s.unicode_len();
    match parse_reply_prelude(s, n) {
        Some((id, j, true)) => {
            let outcome: Result<u64, OgmiosError> = match parse_u64(s, n, j) {
                Some((v, j2)) => {
                    match expect_lit(s, n, j2, "}") {
                        Some(j3) => {
                            if j3 == n {
                                proof {
                                    lemma_join(s@, 0, j as int, j2 as int);
                                    lemma_join(s@, 0, j2 as int, j3 as int);
                                    assert(s@.subrange(0, j3 as int) =~= s@);
                                    assert(s@.subrange(0, j3 as int) =~= reply_result_enc(
                                        id,
                                        dec_rep(v as nat),
                                    ));
                                    assert(is_result_reply(s@, dec_rep(v as nat))) by {
                                        assert(s@ == reply_result_enc(id, dec_rep(v as nat)));
                                    };
                                }
                                Ok(v)
                            } else {
                                Err(OgmiosError::Json("malformed reply".to_owned()))
                            }
                        }
                        None => Err(OgmiosError::Json("malformed reply".to_owned())),
                    }
                }
                None => Err(OgmiosError::Json("malformed reply".to_owned())),
            };
            proof {
                assert forall|id2: u64, v: u64| s@ == reply_result_enc(id2, dec_rep(v as nat))
                    implies outcome == Ok::<u64, OgmiosError>(v) by {
                    crate::jsonrpc::lemma_reply_result_parts(s@, id2, dec_rep(v as nat));
                    let dl = dec_rep(id2 as nat).len() as int;
                    let vl = dec_rep(v as nat).len() as int;
                    assert(s@.subrange(32 + dl, 32 + dl + vl) == dec_rep(v as nat));
                    assert(s@[32 + dl + vl] == s@.subrange(32 + dl + vl, 33 + dl + vl)[0]);
                    assert(s@[32 + dl + vl] == '}');
                    assert(!crate::numeral::is_digit('}'));
                    assert(dec_at(s@, 32 + dl, v));
                    assert(j == 32 + dl);
                }
            }
            outcome
        }
        Some((id, j, false)) => {
            match parse_error_object(s, n, j) {
                Some((e, j2)) => {
                    match expect_lit(s, n, j2, "}") {
                        Some(j3) => {
                            if j3 == n {
                                let message = crate::chain_sync::json_rpc_error_message(&e);
                                proof {
                                    assert forall|id2: u64, code: i32, msg: Seq<char>|
                                        (plain_str(msg) && s@ == reply_error_enc(
                                            id2,
                                            code as int,
                                            msg,
                                        )) implies (e.code == code && e.message@ == msg) by {
                                        crate::jsonrpc::lemma_reply_error_parts(s@, id2, code, msg);
                                        let dl = dec_rep(id2 as nat).len() as int;
                                        assert(crate::jsonrpc::err_obj_at(s@, 31 + dl, code, msg));
                                        assert(j == 31 + dl);
                                    }
                                }
                                proof {
                                    lemma_join(s@, 0, j as int, j2 as int);
                                    lemma_join(s@, 0, j2 as int, j3 as int);
                                    assert(s@.subrange(0, j3 as int) =~= s@);
                                    assert(s@.subrange(0, j3 as int) =~= reply_error_enc(
                                        id,
                                        e.code as int,
                                        e.message@,
                                    ));
                                    assert(is_error_reply(s@, message@)) by {
                                        assert(plain_str(e.message@)
                                            && s@ == reply_error_enc(id, e.code as int, e.message@)
                                            && message@ == "JSON-RPC error "@
                                                + i32_enc(e.code as int) + ": "@ + e.message@);
                                    };
                                }
                                Err(OgmiosError::InvalidResponse { message })
                            } else {
                                proof {
                                    assert forall|id2: u64, code: i32, msg: Seq<char>|
                                        !(plain_str(msg) && s@ == reply_error_enc(
                                            id2,
                                            code as int,
                                            msg,
                                        )) by {
                                        if plain_str(msg) && s@ == reply_error_enc(
                                            id2,
                                            code as int,
                                            msg,
                                        ) {
                                            crate::jsonrpc::lemma_reply_error_parts(
                                                s@,
                                                id2,
                                                code,
                                                msg,
                                            );
                                            let dl = dec_rep(id2 as nat).len() as int;
                                            assert(crate::jsonrpc::err_obj_at(s@, 31 + dl, code, msg));
                                            assert(j == 31 + dl);
                                            assert(j2 == j + crate::jsonrpc::err_obj_enc(
                                                code as int,
                                                msg,
                                            ).len());
                                            assert(s@.len() == 32 + dl + crate::jsonrpc::err_obj_enc(
                                                code as int,
                                                msg,
                                            ).len());
                                            assert(false);
                                        }
                                    }
                                }
                                Err(OgmiosError::Json("malformed reply".to_owned()))
                            }
                        }
                        None => {
                            proof {
                                assert forall|id2: u64, code: i32, msg: Seq<char>|
                                    !(plain_str(msg) && s@ == reply_error_enc(id2, code as int, msg))
                                    by {
                                    if plain_str(msg) && s@ == reply_error_enc(
                                        id2,
                                        code as int,
                                        msg,
                                    ) {
                                        crate::jsonrpc::lemma_reply_error_parts(s@, id2, code, msg);
                                        let dl = dec_rep(id2 as nat).len() as int;
                                        assert(crate::jsonrpc::err_obj_at(s@, 31 + dl, code, msg));
                                        assert(j == 31 + dl);
                                        assert(j2 == j + crate::jsonrpc::err_obj_enc(
                                            code as int,
                                            msg,
                                        ).len());
                                        assert(false);
                                    }
                                }
                            }
                            Err(OgmiosError::Json("malformed reply".to_owned()))
                        }
                    }
                }
                None => {
                    proof {
                        assert forall|id2: u64, code: i32, msg: Seq<char>|
                            !(plain_str(msg) && s@ == reply_error_enc(id2, code as int, msg)) by {
                            if plain_str(msg) && s@ == reply_error_enc(id2, code as int, msg) {
                                crate::jsonrpc::lemma_reply_error_parts(s@, id2, code, msg);
                                let dl = dec_rep(id2 as nat).len() as int;
                                assert(crate::jsonrpc::err_obj_at(s@, 31 + dl, code, msg));
                                assert(j == 31 + dl);
                                assert(false);
                            }
                        }
                    }
                    Err(OgmiosError::Json("malformed reply".to_owned()))
                }
            }
        }
        None => Err(OgmiosError::Json("malformed reply".to_owned())),
    }
}

/// Decode and interpret a reply whose result is a point, as the ledger tip
/// query returns.
pub fn interpret_point_reply(s: &str) -> (r: Result<Point, OgmiosError>)
    ensures
        (forall|id: u64, pv: PointV| pv.wf() && s@ == reply_result_enc(id, point_enc(pv)) ==>
            (r matches Ok(p) && p@ == pv)),
        (forall|id: u64, code: i32, msg: Seq<char>| plain_str(msg)
            && s@ == reply_error_enc(id, code as int, msg) ==>
            (r matches Err(e) && e matches OgmiosError::InvalidResponse { message }
                && message@ == "JSON-RPC error "@ + i32_enc(code as int) + ": "@ + msg)),
        (r matches Ok(p) ==> p@.wf() && is_result_reply(s@, point_enc(p@))),
        (r matches Err(e) ==> match e {
            OgmiosError::InvalidResponse { message } => is_error_reply(s@, message@),
            OgmiosError::Json(_) => true,
            _ => false,
        }),
{
    proof {
        reveal_strlit("}");
    }
    let n = s.unicode_len();
    match parse_reply_prelude(s, n) {
        Some((id, j, true)) => {
            let outcome: Result<Point, OgmiosError> = match parse_point(s, n, j) {
                Some((p, j2)) => {
                    match expect_lit(s, n, j2, "}") {
                        Some(j3) => {
                            if j3 == n {
                                proof {
                                    lemma_join(s@, 0, j as int, j2 as int);
                                    lemma_join(s@, 0, j2 as int, j3 as int);
                                    assert(s@.subrange(0, j3 as int) =~= s@);
                                    assert(s@.subrange(0, j3 as int) =~= reply_result_enc(
                                        id,
                                        point_enc(p@),
                                    ));
                                    assert(is_result_reply(s@, point_enc(p@))) by {
                                        assert(s@ == reply_result_enc(id, point_enc(p@)));
                                    };
                                }
                                Ok(p)
                            } else {
                                Err(OgmiosError::Json("malformed reply".to_owned()))
                            }
                        }
                        None => Err(OgmiosError::Json("malformed reply".to_owned())),
                    }
                }
                None => Err(OgmiosError::Json("malformed reply".to_owned())),
            };
            proof {
                assert forall|id2: u64, pv: PointV| pv.wf() && s@ == reply_result_enc(
                    id2,
                    point_enc(pv),
                ) implies (outcome matches Ok(p) && p@ == pv) by {
                    crate::jsonrpc::lemma_reply_result_parts(s@, id2, point_enc(pv));
                    let dl = dec_rep(id2 as nat).len() as int;
                    assert(point_at(s@, 32 + dl, pv));
                    assert(j == 32 + dl);
                }
            }
            outcome
        }
        Some((id, j, false)) => {
            match parse_error_object(s, n, j) {
                Some((e, j2)) => {
                    match expect_lit(s, n, j2, "}") {
                        Some(j3) => {
                            if j3 == n {
                                let message = crate::chain_sync::json_rpc_error_message(&e);
                                proof {
                                    assert forall|id2: u64, code: i32, msg: Seq<char>|
                                        (plain_str(msg) && s@ == reply_error_enc(
                                            id2,
                                            code as int,
                                            msg,
                                        )) implies (e.code == code && e.message@ == msg) by {
                                        crate::jsonrpc::lemma_reply_error_parts(s@, id2, code, msg);
                                        let dl = dec_rep(id2 as nat).len() as int;
                                        assert(crate::jsonrpc::err_obj_at(s@, 31 + dl, code, msg));
                                        assert(j == 31 + dl);
                                    }
                                }
                                proof {
                                    lemma_join(s@, 0, j as int, j2 as int);
                                    lemma_join(s@, 0, j2 as int, j3 as int);
                                    assert(s@.subrange(0, j3 as int) =~= s@);
                                    assert(s@.subrange(0, j3 as int) =~= reply_error_enc(
                                        id,
                                        e.code as int,
                                        e.message@,
                                    ));
                                    assert(is_error_reply(s@, message@)) by {
                                        assert(plain_str(e.message@)
                                            && s@ == reply_error_enc(id, e.code as int, e.message@)
                                            && message@ == "JSON-RPC error "@
                                                + i32_enc(e.code as int) + ": "@ + e.message@);
                                    };
                                }
                                Err(OgmiosError::InvalidResponse { message })
                            } else {
                                proof {
                                    assert forall|id2: u64, code: i32, msg: Seq<char>|
                                        !(plain_str(msg) && s@ == reply_error_enc(
                                            id2,
                                            code as int,
                                            msg,
                                        )) by {
                                        if plain_str(msg) && s@ == reply_error_enc(
                                            id2,
                                            code as int,
                                            msg,
                                        ) {
                                            crate::jsonrpc::lemma_reply_error_parts(
                                                s@,
                                                id2,
                                                code,
                                                msg,
                                            );
                                            let dl = dec_rep(id2 as nat).len() as int;
                                            assert(crate::jsonrpc::err_obj_at(s@, 31 + dl, code, msg));
                                            assert(j == 31 + dl);
                                            assert(j2 == j + crate::jsonrpc::err_obj_enc(
                                                code as int,
                                                msg,
                                            ).len());
                                            assert(s@.len() == 32 + dl + crate::jsonrpc::err_obj_enc(
                                                code as int,
                                                msg,
                                            ).len());
                                            assert(false);
                                        }
                                    }
                                }
                                Err(OgmiosError::Json("malformed reply".to_owned()))
                            }
                        }
                        None => {
                            proof {
                                assert forall|id2: u64, code: i32, msg: Seq<char>|
                                    !(plain_str(msg) && s@ == reply_error_enc(id2, code as int, msg))
                                    by {
                                    if plain_str(msg) && s@ == reply_error_enc(
                                        id2,
                                        code as int,
                                        msg,
                                    ) {
                                        crate::jsonrpc::lemma_reply_error_parts(s@, id2, code, msg);
                                        let dl = dec_rep(id2 as nat).len() as int;
                                        assert(crate::jsonrpc::err_obj_at(s@, 31 + dl, code, msg));
                                        assert(j == 31 + dl);
                                        assert(j2 == j + crate::jsonrpc::err_obj_enc(
                                            code as int,
                                            msg,
                                        ).len());
                                        assert(false);
                                    }
                                }
                            }
                            Err(OgmiosError::Json("malformed reply".to_owned()))
                        }
                    }
                }
                None => {
                    proof {
                        assert forall|id2: u64, code: i32, msg: Seq<char>|
                            !(plain_str(msg) && s@ == reply_error_enc(id2, code as int, msg)) by {
                            if plain_str(msg) && s@ == reply_error_enc(id2, code as int, msg) {
                                crate::jsonrpc::lemma_reply_error_parts(s@, id2, code, msg);
                                let dl = dec_rep(id2 as nat).len() as int;
                                assert(crate::jsonrpc::err_obj_at(s@, 31 + dl, code, msg));
                                assert(j == 31 + dl);
                                assert(false);
                            }
                        }
                    }
                    Err(OgmiosError::Json("malformed reply".to_owned()))
                }
            }
        }
        None => Err(OgmiosError::Json("malformed reply".to_owned())),
    }
}

/// Decode and interpret a reply whose result is a tip, as the network tip
/// query returns.
pub fn interpret_tip_reply(s: &str) -> (r: Result<Tip, OgmiosError>)
    ensures
        (forall|id: u64, tv: TipV| tv.wf() && s@ == reply_result_enc(id, tip_enc(tv)) ==>
            (r matches Ok(t) && t@ == tv)),
        (forall|id: u64, code: i32, msg: Seq<char>| plain_str(msg)
            && s@ == reply_error_enc(id, code as int, msg) ==>
            (r matches Err(e) && e matches OgmiosError::InvalidResponse { message }
                && message@ == "JSON-RPC error "@ + i32_enc(code as int) + ": "@ + msg)),
        (r matches Ok(t) ==> t@.wf() && is_result_reply(s@, tip_enc(t@))),
        (r matches Err(e) ==> match e {
            OgmiosError::InvalidResponse { message } => is_error_reply(s@, message@),
            OgmiosError::Json(_) => true,
            _ => false,
        }),
{
    proof {
        reveal_strlit("}");
    }
    let n = s.unicode_len();
    match parse_reply_prelude(s, n) {
        Some((id, j, true)) => {
            let outcome: Result<Tip, OgmiosError> = match parse_tip(s, n, j) {
                Some((t, j2)) => {
                    match expect_lit(s, n, j2, "}") {
                        Some(j3) => {
                            if j3 == n {
                                proof {
                                    lemma_join(s@, 0, j as int, j2 as int);
                                    lemma_join(s@, 0, j2 as int, j3 as int);
                                    assert(s@.subrange(0, j3 as int) =~= s@);
                                    assert(s@.subrange(0, j3 as int) =~= reply_result_enc(
                                        id,
                                        tip_enc(t@),
                                    ));
                                    assert(is_result_reply(s@, tip_enc(t@))) by {
                                        assert(s@ == reply_result_enc(id, tip_enc(t@)));
                                    };
                                }
                                Ok(t)
                            } else {
                                Err(OgmiosError::Json("malformed reply".to_owned()))
                            }
                        }
                        None => Err(OgmiosError::Json("malformed reply".to_owned())),
                    }
                }
                None => Err(OgmiosError::Json("malformed reply".to_owned())),
            };
            proof {
                assert forall|id2: u64, tv: TipV| tv.wf() && s@ == reply_result_enc(
                    id2,
                    tip_enc(tv),
                ) implies (outcome matches Ok(t) && t@ == tv) by {
                    crate::jsonrpc::lemma_reply_result_parts(s@, id2, tip_enc(tv));
                    let dl = dec_rep(id2 as nat).len() as int;
                    assert(tip_at(s@, 32 + dl, tv));
                    assert(j == 32 + dl);
                }
            }
            outcome
        }
        Some((id, j, false)) => {
            match parse_error_object(s, n, j) {
                Some((e, j2)) => {
                    match expect_lit(s, n, j2, "}") {
                        Some(j3) => {
                            if j3 == n {
                                let message = crate::chain_sync::json_rpc_error_message(&e);
                                proof {
                                    assert forall|id2: u64, code: i32, msg: Seq<char>|
                                        (plain_str(msg) && s@ == reply_error_enc(
                                            id2,
                                            code as int,
                                            msg,
                                        )) implies (e.code == code && e.message@ == msg) by {
                                        crate::jsonrpc::lemma_reply_error_parts(s@, id2, code, msg);
                                        let dl = dec_rep(id2 as nat).len() as int;
                                        assert(crate::jsonrpc::err_obj_at(s@, 31 + dl, code, msg));
                                        assert(j == 31 + dl);
                                    }
                                }
                                proof {
                                    lemma_join(s@, 0, j as int, j2 as int);
                                    lemma_join(s@, 0, j2 as int, j3 as int);
                                    assert(s@.subrange(0, j3 as int) =~= s@);
                                    assert(s@.subrange(0, j3 as int) =~= reply_error_enc(
                                        id,
                                        e.code as int,
                                        e.message@,
                                    ));
                                    assert(is_error_reply(s@, message@)) by {
                                        assert(plain_str(e.message@)
                                            && s@ == reply_error_enc(id, e.code as int, e.message@)
                                            && message@ == "JSON-RPC error "@
                                                + i32_enc(e.code as int) + ": "@ + e.message@);
                                    };
                                }
                                Err(OgmiosError::InvalidResponse { message })
                            } else {
                                proof {
                                    assert forall|id2: u64, code: i32, msg: Seq<char>|
                                        !(plain_str(msg) && s@ == reply_error_enc(
                                            id2,
                                            code as int,
                                            msg,
                                        )) by {
                                        if plain_str(msg) && s@ == reply_error_enc(
                                            id2,
                                            code as int,
                                            msg,
                                        ) {
                                            crate::jsonrpc::lemma_reply_error_parts(
                                                s@,
                                                id2,
                                                code,
                                                msg,
                                            );
                                            let dl = dec_rep(id2 as nat).len() as int;
                                            assert(crate::jsonrpc::err_obj_at(s@, 31 + dl, code, msg));
                                            assert(j == 31 + dl);
                                            assert(j2 == j + crate::jsonrpc::err_obj_enc(
                                                code as int,
                                                msg,
                                            ).len());
                                            assert(s@.len() == 32 + dl + crate::jsonrpc::err_obj_enc(
                                                code as int,
                                                msg,
                                            ).len());
                                            assert(false);
                                        }
                                    }
                                }
                                Err(OgmiosError::Json("malformed reply".to_owned()))
                            }
                        }
                        None => {
                            proof {
                                assert forall|id2: u64, code: i32, msg: Seq<char>|
                                    !(plain_str(msg) && s@ == reply_error_enc(id2, code as int, msg))
                                    by {
                                    if plain_str(msg) && s@ == reply_error_enc(
                                        id2,
                                        code as int,
                                        msg,
                                    ) {
                                        crate::jsonrpc::lemma_reply_error_parts(s@, id2, code, msg);
                                        let dl = dec_rep(id2 as nat).len() as int;
                                        assert(crate::jsonrpc::err_obj_at(s@, 31 + dl, code, msg));
                                        assert(j == 31 + dl);
                                        assert(j2 == j + crate::jsonrpc::err_obj_enc(
                                            code as int,
                                            msg,
                                        ).len());
                                        assert(false);
                                    }
                                }
                            }
                            Err(OgmiosError::Json("malformed reply".to_owned()))
                        }
                    }
                }
                None => {
                    proof {
                        assert forall|id2: u64, code: i32, msg: Seq<char>|
                            !(plain_str(msg) && s@ == reply_error_enc(id2, code as int, msg)) by {
                            if plain_str(msg) && s@ == reply_error_enc(id2, code as int, msg) {
                                crate::jsonrpc::lemma_reply_error_parts(s@, id2, code, msg);
                                let dl = dec_rep(id2 as nat).len() as int;
                                assert(crate::jsonrpc::err_obj_at(s@, 31 + dl, code, msg));
                                assert(j == 31 + dl);
                                assert(false);
                            }
                        }
                    }
                    Err(OgmiosError::Json("malformed reply".to_owned()))
                }
            }
        }
        None => Err(OgmiosError::Json("malformed reply".to_owned())),
    }
}


} // verus!
