//! Utility functions: ledger-visible sizes, hex text, and amount formatting.

use vstd::prelude::*;
use vstd::string::StringExecFns;
use vstd::string::StrSliceExecFns;
use crate::block::{Block, BlockKind};
use crate::codec::point_enc;
use crate::numeral::dec_rep;
use crate::parse::expect_lit;
use crate::primitives::{AssetEntry, Lovelace, Point, PointV, PolicyAssets, Value};
use crate::scripts::{Datum, Script};
use crate::transaction::TransactionOutput;

verus! {

/// Constant output serialization overhead in bytes.
pub const CONSTANT_OUTPUT_SERIALIZATION_OVERHEAD: u64 = 160;

/// Check if a block is an epoch boundary block.
pub fn is_block_ebb(block: &Block) -> (r: bool)
    ensures
        r == (block@.kind == BlockKind::Ebb),
{
    block.is_ebb()
}

/// Check if a block is a BFT block (first era).
pub fn is_block_bft(block: &Block) -> (r: bool)
    ensures
        r == (block@.kind == BlockKind::Bft),
{
    block.is_bft()
}

/// Check if a block is a Praos block.
pub fn is_block_praos(block: &Block) -> (r: bool)
    ensures
        r == (block@.kind == BlockKind::Praos),
{
    block.is_praos()
}

/// Check if a value is an object.  In the typed data model every value is,
/// so this always holds; the function is kept for callers that ask the
/// question of a value of unknown shape.
pub fn is_object<T>(value: &T) -> (r: bool)
    ensures
        r,
{
    true
}

/// The wire size of a variable-length unsigned integer.
pub open spec fn spec_size_of_integer(value: nat) -> nat {
    if value < 24 {
        1
    } else if value < 256 {
        2
    } else if value < 65536 {
        3
    } else if value < 4294967296 {
        5
    } else {
        9
    }
}

/// Calculate the wire size of a variable-length unsigned integer.
pub fn size_of_integer(value: u64) -> (r: u64)
    ensures
        r == spec_size_of_integer(value as nat),
{
    if value < 24 {
        1
    } else if value < 256 {
        2
    } else if value < 65536 {
        3
    } else if value < 4294967296 {
        5
    } else {
        9
    }
}

/// The wire size of definite-length bytes.
pub open spec fn spec_size_of_bytes_def(len: nat) -> nat {
    spec_size_of_integer(len) + len
}

/// Calculate the wire size of definite-length bytes.
pub fn size_of_bytes_def(len: u64) -> (r: u64)
    requires
        len <= u64::MAX - 9,
    ensures
        r == spec_size_of_bytes_def(len as nat),
{
    size_of_integer(len) + len
}

/// The wire overhead of a definite-length array or map.
pub open spec fn spec_size_of_array_def(len: nat) -> nat {
    spec_size_of_integer(len)
}

/// Calculate the wire overhead of a definite-length array or map.
pub fn size_of_array_def(len: u64) -> (r: u64)
    ensures
        r == spec_size_of_array_def(len as nat),
{
    size_of_integer(len)
}

/// A text begins with the given prefix.
pub open spec fn starts_with(s: Seq<char>, prefix: Seq<char>) -> bool {
    s.len() >= prefix.len() && s.subrange(0, prefix.len() as int) == prefix
}

/// The estimated wire size of an address: era-era addresses decode to a
/// known byte count, others are estimated from their text length.
pub open spec fn spec_size_of_address(a: Seq<char>) -> nat {
    if starts_with(a, "addr"@) || starts_with(a, "stake"@) {
        spec_size_of_bytes_def(57)
    } else {
        spec_size_of_bytes_def(a.len() / 2)
    }
}

/// Calculate the estimated wire size of an address.
pub fn size_of_address(address: &str) -> (r: u64)
    requires
        address@.len() / 2 <= u64::MAX - 9,
    ensures
        r == spec_size_of_address(address@),
{
    let n = address.unicode_len();
    let is_addr = expect_lit(address, n, 0, "addr").is_some();
    let is_stake = expect_lit(address, n, 0, "stake").is_some();
    if is_addr || is_stake {
        size_of_bytes_def(57)
    } else {
        size_of_bytes_def((n as u64) / 2)
    }
}

/// The truncation of a signed quantity to an unsigned word, as the wire
/// size estimate reads it.
pub open spec fn quantity_u64(q: i128) -> nat {
    (q as u64) as nat
}

/// The wire size of the assets of one policy.
pub open spec fn spec_size_of_asset_entries(entries: Seq<AssetEntry>) -> nat
    decreases entries.len(),
{
    if entries.len() == 0 {
        0
    } else {
        spec_size_of_asset_entries(entries.drop_last())
            + spec_size_of_bytes_def(entries.last().name@.len() / 2)
            + spec_size_of_integer(quantity_u64(entries.last().quantity))
    }
}

/// The wire size of a multi-asset bundle.
pub open spec fn spec_size_of_policies(ps: Seq<PolicyAssets>) -> nat
    decreases ps.len(),
{
    if ps.len() == 0 {
        0
    } else {
        spec_size_of_policies(ps.drop_last()) + spec_size_of_bytes_def(28)
            + spec_size_of_array_def(ps.last().assets@.len() as nat)
            + spec_size_of_asset_entries(ps.last().assets@)
    }
}

/// The wire size of a value.
pub open spec fn spec_size_of_value(v: Value) -> nat {
    match v {
        Value::AdaOnly { ada } => spec_size_of_integer(ada.lovelace as nat),
        Value::WithAssets { ada, assets } => spec_size_of_array_def(2)
            + spec_size_of_integer(ada.lovelace as nat)
            + spec_size_of_array_def(assets@.len() as nat) + spec_size_of_policies(assets@),
    }
}

/// Calculate the wire size of the assets of one policy.
fn size_of_asset_entries(entries: &Vec<AssetEntry>) -> (r: u64)
    requires
        spec_size_of_asset_entries(entries@) <= u64::MAX,
        forall|k: int| 0 <= k < entries@.len()
            ==> (#[trigger] entries@[k]).name@.len() / 2 <= u64::MAX - 9,
    ensures
        r == spec_size_of_asset_entries(entries@),
{
    let mut size: u64 = 0;
    let n = entries.len();
    let mut k: usize = 0;
    while k < n
        invariant
            0 <= k <= n == entries@.len(),
            spec_size_of_asset_entries(entries@) <= u64::MAX,
            forall|m: int| 0 <= m < entries@.len()
                ==> (#[trigger] entries@[m]).name@.len() / 2 <= u64::MAX - 9,
            size == spec_size_of_asset_entries(entries@.take(k as int)),
        decreases n - k,
    {
        proof {
            assert(entries@.take(k + 1).drop_last() =~= entries@.take(k as int));
            assert(entries@.take(k + 1).last() == entries@[k as int]);
            lemma_asset_entries_prefix(entries@, k + 1);
        }
        let name_len = entries[k].name.as_str().unicode_len();
        let name_size = size_of_bytes_def((name_len as u64) / 2);
        let q: u64 = #[verifier::truncate] (entries[k].quantity as u64);
        proof {
            assert(q as nat == quantity_u64(entries@[k as int].quantity));
        }
        let q_size = size_of_integer(q);
        size = size + name_size + q_size;
        k = k + 1;
    }
    proof {
        assert(entries@.take(n as int) =~= entries@);
    }
    size
}

/// The size of a prefix of an asset list never exceeds the whole list's.
proof fn lemma_asset_entries_prefix(entries: Seq<AssetEntry>, k: int)
    requires
        0 <= k <= entries.len(),
    ensures
        spec_size_of_asset_entries(entries.take(k)) <= spec_size_of_asset_entries(entries),
    decreases entries.len() - k,
{
    if k < entries.len() {
        lemma_asset_entries_prefix(entries, k + 1);
        assert(entries.take(k + 1).drop_last() =~= entries.take(k));
    } else {
        assert(entries.take(k) =~= entries);
    }
}

/// The size of a prefix of a policy list never exceeds the whole list's.
proof fn lemma_policies_prefix(ps: Seq<PolicyAssets>, k: int)
    requires
        0 <= k <= ps.len(),
    ensures
        spec_size_of_policies(ps.take(k)) <= spec_size_of_policies(ps),
    decreases ps.len() - k,
{
    if k < ps.len() {
        lemma_policies_prefix(ps, k + 1);
        assert(ps.take(k + 1).drop_last() =~= ps.take(k));
    } else {
        assert(ps.take(k) =~= ps);
    }
}

/// A value's asset names are short enough for the size arithmetic.
pub open spec fn value_sizes_fit(v: Value) -> bool {
    &&& spec_size_of_value(v) <= u64::MAX
    &&& match v {
        Value::AdaOnly { ada } => true,
        Value::WithAssets { ada, assets } => forall|p: int, a: int|
            0 <= p < assets@.len() && 0 <= a < (#[trigger] assets@[p]).assets@.len()
                ==> (#[trigger] assets@[p].assets@[a]).name@.len() / 2 <= u64::MAX - 9,
    }
}

/// Calculate the wire size of a value.
pub fn size_of_value(value: &Value) -> (r: u64)
    requires
        value_sizes_fit(*value),
    ensures
        r == spec_size_of_value(*value),
{
    match value {
        Value::AdaOnly { ada } => size_of_integer(ada.lovelace),
        Value::WithAssets { ada, assets } => {
            let mut size: u64 = size_of_array_def(2);
            size = size + size_of_integer(ada.lovelace);
            size = size + size_of_array_def(assets.len() as u64);
            let ghost base = size as nat;
            let n = assets.len();
            let mut k: usize = 0;
            while k < n
                invariant
                    0 <= k <= n == assets@.len(),
                    value_sizes_fit(Value::WithAssets { ada: *ada, assets: *assets }),
                    spec_size_of_value(Value::WithAssets { ada: *ada, assets: *assets })
                        == base + spec_size_of_policies(assets@),
                    base + spec_size_of_policies(assets@) <= u64::MAX,
                    size == base + spec_size_of_policies(assets@.take(k as int)),
                decreases n - k,
            {
                proof {
                    assert(assets@.take(k + 1).drop_last() =~= assets@.take(k as int));
                    assert(assets@.take(k + 1).last() == assets@[k as int]);
                    lemma_policies_prefix(assets@, k + 1);
                }
                let policy_size = size_of_bytes_def(28);
                let count_size = size_of_array_def(assets[k].assets.len() as u64);
                let entries_size = size_of_asset_entries(&assets[k].assets);
                size = size + policy_size + count_size + entries_size;
                k = k + 1;
            }
            proof {
                assert(assets@.take(n as int) =~= assets@);
            }
            size
        }
    }
}

/// The wire size of an inline datum.
pub open spec fn spec_size_of_inline_datum(d: Datum) -> nat {
    match d {
        Datum::Cbor(cbor) => 1 + spec_size_of_bytes_def(cbor@.len() / 2),
        Datum::Value(_) => 64,
    }
}

/// Calculate the wire size of an inline datum.
pub fn size_of_inline_datum(datum: &Datum) -> (r: u64)
    requires
        (datum matches Datum::Cbor(cbor) ==> cbor@.len() / 2 <= u64::MAX - 10),
    ensures
        r == spec_size_of_inline_datum(*datum),
{
    match datum {
        Datum::Cbor(cbor) => {
            let datum_bytes = (cbor.as_str().unicode_len() as u64) / 2;
            1 + size_of_bytes_def(datum_bytes)
        }
        Datum::Value(_) => 64,
    }
}

/// Calculate the wire size of a datum hash reference.
pub fn size_of_datum_hash() -> (r: u64)
    ensures
        r == spec_size_of_bytes_def(32),
{
    size_of_bytes_def(32)
}

/// The wire size of a script reference.
pub open spec fn spec_size_of_script(s: Script) -> nat {
    match s {
        Script::Native { script, cbor } => match cbor {
            Option::Some(c) => spec_size_of_bytes_def(c@.len() / 2),
            Option::None => 32,
        },
        Script::PlutusV1 { cbor } => spec_size_of_bytes_def(cbor@.len() / 2),
        Script::PlutusV2 { cbor } => spec_size_of_bytes_def(cbor@.len() / 2),
        Script::PlutusV3 { cbor } => spec_size_of_bytes_def(cbor@.len() / 2),
    }
}

/// The script's text is short enough for the size arithmetic.
pub open spec fn script_sizes_fit(s: Script) -> bool {
    match s {
        Script::Native { script, cbor } => (cbor matches Some(c) ==> c@.len() / 2 <= u64::MAX - 9),
        Script::PlutusV1 { cbor } => cbor@.len() / 2 <= u64::MAX - 9,
        Script::PlutusV2 { cbor } => cbor@.len() / 2 <= u64::MAX - 9,
        Script::PlutusV3 { cbor } => cbor@.len() / 2 <= u64::MAX - 9,
    }
}

/// Calculate the wire size of a script reference.
pub fn size_of_script(script: &Script) -> (r: u64)
    requires
        script_sizes_fit(*script),
    ensures
        r == spec_size_of_script(*script),
{
    match script {
        Script::Native { script: _, cbor } => {
            match cbor {
                Option::Some(c) => size_of_bytes_def((c.as_str().unicode_len() as u64) / 2),
                Option::None => 32,
            }
        }
        Script::PlutusV1 { cbor } => size_of_bytes_def((cbor.as_str().unicode_len() as u64) / 2),
        Script::PlutusV2 { cbor } => size_of_bytes_def((cbor.as_str().unicode_len() as u64) / 2),
        Script::PlutusV3 { cbor } => size_of_bytes_def((cbor.as_str().unicode_len() as u64) / 2),
    }
}

/// The ledger-visible size of an output, used for minimum-lovelace
/// calculations: the fixed overhead plus its address, value, datum and
/// script parts.
pub open spec fn spec_utxo_size(o: TransactionOutput) -> nat {
    CONSTANT_OUTPUT_SERIALIZATION_OVERHEAD as nat + spec_size_of_address(o.address@)
        + spec_size_of_value(o.value) + (match o.datum {
        Option::Some(d) => spec_size_of_inline_datum(d),
        Option::None => match o.datum_hash {
            Option::Some(_) => spec_size_of_bytes_def(32),
            Option::None => 0,
        },
    }) + (match o.script {
        Option::Some(s) => spec_size_of_script(s),
        Option::None => 0,
    })
}

/// The output's parts are small enough for the size arithmetic.
pub open spec fn utxo_sizes_fit(o: TransactionOutput) -> bool {
    &&& spec_utxo_size(o) <= u64::MAX
    &&& o.address@.len() / 2 <= u64::MAX - 9
    &&& value_sizes_fit(o.value)
    &&& (o.datum matches Some(d) ==> (d matches Datum::Cbor(c) ==> c@.len() / 2 <= u64::MAX - 10))
    &&& (o.script matches Some(s) ==> script_sizes_fit(s))
}

/// Calculate the ledger-visible size of an output.
pub fn utxo_size(output: &TransactionOutput) -> (r: u64)
    requires
        utxo_sizes_fit(*output),
    ensures
        r == spec_utxo_size(*output),
{
    let address_size = size_of_address(output.address.as_str());
    let value_size = size_of_value(&output.value);
    let datum_size = match &output.datum {
        Option::Some(datum) => size_of_inline_datum(datum),
        Option::None => match &output.datum_hash {
            Option::Some(_) => size_of_datum_hash(),
            Option::None => 0,
        },
    };
    let script_size = match &output.script {
        Option::Some(script) => size_of_script(script),
        Option::None => 0,
    };
    CONSTANT_OUTPUT_SERIALIZATION_OVERHEAD + address_size + value_size + datum_size + script_size
}

/// Parse a point from its wire text: the origin marker or a slot/identifier
/// object.
pub fn parse_point(value: &str) -> (r: Option<Point>)
    ensures
        (r matches Some(p) ==> p@.wf() && value@ == point_enc(p@)),
        (forall|pv: PointV| pv.wf() && value@ == point_enc(pv) ==>
            (r matches Some(p) && p@ == pv)),
{
    crate::codec::decode_point(value)
}

/// The leading zeros that pad a six-digit fraction.
pub open spec fn lead_zeros6(f: nat) -> Seq<char> {
    if f < 10 {
        "00000"@
    } else if f < 100 {
        "0000"@
    } else if f < 1000 {
        "000"@
    } else if f < 10000 {
        "00"@
    } else if f < 100000 {
        "0"@
    } else {
        Seq::empty()
    }
}

/// The text of a lovelace amount written in ada: the whole part, a point,
/// and exactly six fraction digits.
pub open spec fn ada_rep(l: nat) -> Seq<char> {
    dec_rep(l / 1000000) + "."@ + lead_zeros6(l % 1000000) + dec_rep(l % 1000000)
}

/// Format a lovelace amount as ada with six decimals.
pub fn lovelace_to_ada(lovelace: Lovelace) -> (r: String)
    ensures
        r@ == ada_rep(lovelace as nat),
{
    let whole = lovelace / 1000000;
    let frac = lovelace % 1000000;
    let mut r = crate::numeral::u64_to_string(whole);
    r.append(".");
    if frac < 10 {
        r.append("00000");
    } else if frac < 100 {
        r.append("0000");
    } else if frac < 1000 {
        r.append("000");
    } else if frac < 10000 {
        r.append("00");
    } else if frac < 100000 {
        r.append("0");
    }
    let frac_str = crate::numeral::u64_to_string(frac);
    r.append(frac_str.as_str());
    proof {
        assert(r@ =~= ada_rep(lovelace as nat));
    }
    r
}

/// The character of one hexadecimal digit, lower case.
pub open spec fn hex_digit_char(d: nat) -> char {
    if d < 10 {
        crate::numeral::digit_char(d)
    } else if d == 10 { 'a' }
    else if d == 11 { 'b' }
    else if d == 12 { 'c' }
    else if d == 13 { 'd' }
    else if d == 14 { 'e' }
    else { 'f' }
}

/// The lower-case hexadecimal text of a byte string, two digits per byte.
pub open spec fn hex_rep(bs: Seq<u8>) -> Seq<char>
    decreases bs.len(),
{
    if bs.len() == 0 {
        Seq::empty()
    } else {
        hex_rep(bs.drop_last()) + seq![
            hex_digit_char((bs.last() / 16) as nat),
            hex_digit_char((bs.last() % 16) as nat),
        ]
    }
}

/// One hexadecimal digit as a string slice.
fn hex_digit_str(d: u8) -> (r: &'static str)
    requires
        d < 16,
    ensures
        r@ =~= seq![hex_digit_char(d as nat)],
{
    proof {
        reveal_strlit("0");
        reveal_strlit("1");
        reveal_strlit("2");
        reveal_strlit("3");
        reveal_strlit("4");
        reveal_strlit("5");
        reveal_strlit("6");
        reveal_strlit("7");
        reveal_strlit("8");
        reveal_strlit("9");
        reveal_strlit("a");
        reveal_strlit("b");
        reveal_strlit("c");
        reveal_strlit("d");
        reveal_strlit("e");
        reveal_strlit("f");
    }
    match d {
        0 => "0",
        1 => "1",
        2 => "2",
        3 => "3",
        4 => "4",
        5 => "5",
        6 => "6",
        7 => "7",
        8 => "8",
        9 => "9",
        10 => "a",
        11 => "b",
        12 => "c",
        13 => "d",
        14 => "e",
        _ => "f",
    }
}

/// Hex encode bytes, lower case.
pub fn hex_encode(bytes: &[u8]) -> (r: String)
    ensures
        r@ == hex_rep(bytes@),
{
    let mut r = String::new();
    let n = bytes.len();
    let mut k: usize = 0;
    proof {
        assert(bytes@.take(0) =~= Seq::<u8>::empty());
    }
    while k < n
        invariant
            0 <= k <= n == bytes@.len(),
            r@ == hex_rep(bytes@.take(k as int)),
        decreases n - k,
    {
        let b = bytes[k];
        r.append(hex_digit_str(b / 16));
        r.append(hex_digit_str(b % 16));
        proof {
            assert(bytes@.take(k + 1).drop_last() =~= bytes@.take(k as int));
            assert(bytes@.take(k + 1).last() == bytes@[k as int]);
            assert(r@ =~= hex_rep(bytes@.take(k + 1)));
        }
        k = k + 1;
    }
    proof {
        assert(bytes@.take(n as int) =~= bytes@);
    }
    r
}

/// Whether a character is a hexadecimal digit, either case.
pub open spec fn is_hex_char(c: char) -> bool {
    ('0' <= c && c <= '9') || ('a' <= c && c <= 'f') || ('A' <= c && c <= 'F')
}

/// The value of one hexadecimal digit character.
pub open spec fn hex_char_val(c: char) -> nat {
    if '0' <= c && c <= '9' {
        (c as int - '0' as int) as nat
    } else if 'a' <= c && c <= 'f' {
        (c as int - 'a' as int + 10) as nat
    } else {
        (c as int - 'A' as int + 10) as nat
    }
}

/// Hex decode a text, two digits per byte, either case accepted.
pub fn hex_decode(s: &str) -> (r: Option<Vec<u8>>)
    requires
        s@.len() % 2 == 0,
    ensures
        (r matches Some(v) ==> v@.len() * 2 == s@.len()
            && (forall|k: int| 0 <= k < s@.len() ==> is_hex_char(#[trigger] s@[k]))
            && (forall|k: int| 0 <= k < v@.len()
                ==> (#[trigger] v@[k]) as nat == hex_char_val(s@[2 * k]) * 16 + hex_char_val(
                    s@[2 * k + 1],
                ))),
        (r is None ==> exists|k: int| 0 <= k < s@.len() && !is_hex_char(#[trigger] s@[k])),
{
    let n = s.unicode_len();
    let mut v: Vec<u8> = Vec::new();
    let mut k: usize = 0;
    while k + 1 < n
        invariant
            0 <= k <= n == s@.len(),
            n % 2 == 0,
            k % 2 == 0,
            v@.len() * 2 == k,
            forall|m: int| 0 <= m < k ==> is_hex_char(#[trigger] s@[m]),
            forall|m: int| 0 <= m < v@.len()
                ==> (#[trigger] v@[m]) as nat == hex_char_val(s@[2 * m]) * 16 + hex_char_val(
                    s@[2 * m + 1],
                ),
        decreases n - k,
    {
        let c1 = s.get_char(k);
        let c2 = s.get_char(k + 1);
        let d1 = match hex_char_value(c1) {
            Option::Some(d) => d,
            Option::None => {
                return None;
            }
        };
        let d2 = match hex_char_value(c2) {
            Option::Some(d) => d,
            Option::None => {
                return None;
            }
        };
        v.push(d1 * 16 + d2);
        k = k + 2;
    }
    Some(v)
}

/// Read the value of one hexadecimal digit character.
fn hex_char_value(c: char) -> (r: Option<u8>)
    ensures
        (r matches Some(d) ==> is_hex_char(c) && d < 16 && d as nat == hex_char_val(c)),
        (r is None ==> !is_hex_char(c)),
{
    if '0' <= c && c <= '9' {
        Some((c as u32 as u8) - 48)
    } else if 'a' <= c && c <= 'f' {
        Some((c as u32 - 97) as u8 + 10)
    } else if 'A' <= c && c <= 'F' {
        Some((c as u32 - 65) as u8 + 10)
    } else {
        None
    }
}

} // verus!
