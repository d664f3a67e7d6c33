//! JSON-RPC envelopes: the request and reply frames of the wire protocol.
//!
//! Every frame has one canonical text — a fixed key order, a single spelling,
//! no whitespace — named by the `*_enc` spec functions.  The encoders produce
//! exactly that text and the parsers accept exactly it: a reply that is
//! semantically equal but spelled otherwise is treated as malformed and
//! answered with the typed decode failure.  This is the crate's stated
//! assumption about the peer, whose replies follow the canonical shapes.

use vstd::prelude::*;
use vstd::string::StringExecFns;
use vstd::string::StrSliceExecFns;
use crate::numeral::{dec_at, dec_rep, is_digit, parse_u64, u64_to_string};
use crate::parse::{expect_lit, lemma_join, lemma_split, lit_at, lemma_str_end_exact, parse_str_rest, str_end};
use crate::primitives::plain_str;

verus! {

/// JSON-RPC version spelled on the wire.
pub const JSONRPC_VERSION: &'static str = "2.0";

/// Parse error: invalid JSON.
pub const PARSE_ERROR: i32 = -32700;

/// Invalid request: the JSON is not a valid request object.
pub const INVALID_REQUEST: i32 = -32600;

/// Method not found.
pub const METHOD_NOT_FOUND: i32 = -32601;

/// Invalid params.
pub const INVALID_PARAMS: i32 = -32602;

/// Internal error.
pub const INTERNAL_ERROR: i32 = -32603;

/// JSON-RPC error reported by the remote.
#[derive(Debug, Clone, PartialEq, Eq)]
pub struct JsonRpcError {
    /// Error code.
    pub code: i32,
    /// Error message.
    pub message: String,
}

/// JSON-RPC request envelope.  Parameters are carried as the canonical text
/// of the parameter object.
#[derive(Debug, Clone, PartialEq, Eq)]
pub struct JsonRpcRequest {
    /// JSON-RPC version.
    pub jsonrpc: String,
    /// Method name.
    pub method: String,
    /// Request parameters, already in canonical text form.
    pub params: Option<String>,
    /// Request identifier; notifications carry none.
    pub id: Option<u64>,
}

impl JsonRpcRequest {
    /// Create a new notification request, with no identifier.
    pub fn new(method: &str, params: Option<String>) -> (r: Self)
        ensures
            r.jsonrpc@ == "2.0"@,
            r.method@ == method@,
            r.params == params,
            r.id is None,
    {
        JsonRpcRequest { jsonrpc: "2.0".to_owned(), method: method.to_owned(), params, id: None }
    }

    /// Create a new request with an identifier.
    pub fn with_id(method: &str, params: Option<String>, id: u64) -> (r: Self)
        ensures
            r.jsonrpc@ == "2.0"@,
            r.method@ == method@,
            r.params == params,
            r.id == Some(id),
    {
        JsonRpcRequest {
            jsonrpc: "2.0".to_owned(),
            method: method.to_owned(),
            params,
            id: Some(id),
        }
    }
}

/// JSON-RPC response envelope, carrying exactly one of a result or an error.
#[derive(Debug, Clone, PartialEq, Eq)]
pub struct JsonRpcResponse<R> {
    /// JSON-RPC version.
    pub jsonrpc: String,
    /// Result (mutually exclusive with error).
    pub result: Option<R>,
    /// Error (mutually exclusive with result).
    pub error: Option<JsonRpcError>,
    /// Request identifier the response answers.
    pub id: Option<u64>,
}

impl<R> JsonRpcResponse<R> {
    /// Check if the response is an error.
    pub fn is_error(&self) -> (r: bool)
        ensures
            r == (self.error is Some),
    {
        match &self.error {
            Option::Some(_) => true,
            Option::None => false,
        }
    }

    /// Get the result, or the error the response carries; a response with
    /// neither is itself an invalid-request error.
    pub fn into_result(self) -> (r: Result<R, JsonRpcError>)
        ensures
            match self.error {
                Option::Some(e) => r == Result::<R, JsonRpcError>::Err(e),
                Option::None => match self.result {
                    Option::Some(v) => r == Result::<R, JsonRpcError>::Ok(v),
                    Option::None => (r matches Err(e) && e.code == INVALID_REQUEST
                        && e.message@ == "Invalid response: no result or error"@),
                },
            },
    {
        match self.error {
            Option::Some(e) => Err(e),
            Option::None => match self.result {
                Option::Some(v) => Ok(v),
                Option::None => Err(JsonRpcError {
                    code: INVALID_REQUEST,
                    message: "Invalid response: no result or error".to_owned(),
                }),
            },
        }
    }
}

/// Canonical text of a request envelope.
pub open spec fn request_enc(method: Seq<char>, params: Option<Seq<char>>, id: Option<u64>)
    -> Seq<char> {
    "{\"jsonrpc\":\"2.0\",\"method\":\""@ + method + "\""@ + (match params {
        Option::Some(p) => ",\"params\":"@ + p,
        Option::None => Seq::<char>::empty(),
    }) + (match id {
        Option::Some(n) => ",\"id\":"@ + dec_rep(n as nat),
        Option::None => Seq::<char>::empty(),
    }) + "}"@
}

/// Encode a request envelope as its canonical text.
pub fn encode_request(req: &JsonRpcRequest) -> (r: String)
    ensures
        r@ == request_enc(req.method@, match req.params {
            Option::Some(ref p) => Some(p@),
            Option::None => None,
        }, req.id),
{
    let mut r = "{\"jsonrpc\":\"2.0\",\"method\":\"".to_owned();
    r.append(req.method.as_str());
    r.append("\"");
    match &req.params {
        Option::Some(p) => {
            r.append(",\"params\":");
            r.append(p.as_str());
        }
        Option::None => {}
    }
    match &req.id {
        Option::Some(n) => {
            r.append(",\"id\":");
            let id_str = u64_to_string(*n);
            r.append(id_str.as_str());
        }
        Option::None => {}
    }
    r.append("}");
    proof {
        assert(r@ =~= request_enc(req.method@, match req.params {
            Option::Some(ref p) => Some(p@),
            Option::None => None::<Seq<char>>,
        }, req.id));
    }
    r
}

/// Canonical text of a signed 32-bit number.
pub open spec fn i32_enc(v: int) -> Seq<char> {
    if v >= 0 {
        dec_rep(v as nat)
    } else {
        seq!['-'] + dec_rep((-v) as nat)
    }
}

/// The canonical text of `v` stands in `s` at position `i`, with no digit
/// directly after it.
pub open spec fn i32_at(s: Seq<char>, i: int, v: i32) -> bool {
    &&& lit_at(s, i, i32_enc(v as int))
    &&& (i + i32_enc(v as int).len() < s.len() ==> !is_digit(s[i + i32_enc(v as int).len()]))
}

/// Render a signed 32-bit number as its canonical text.
pub fn i32_to_string(v: i32) -> (r: String)
    ensures
        r@ == i32_enc(v as int),
{
    if v >= 0 {
        u64_to_string(v as u64)
    } else {
        let mut r = "-".to_owned();
        let m: u64 = if v == i32::MIN {
            2147483648
        } else {
            (-v) as u64
        };
        let m_str = u64_to_string(m);
        r.append(m_str.as_str());
        proof {
            reveal_strlit("-");
            assert(r@ =~= i32_enc(v as int));
        }
        r
    }
}

/// Parse the canonical text of a signed 32-bit number at position `i`.
pub fn parse_i32(s: &str, n: usize, i: usize) -> (r: Option<(i32, usize)>)
    requires
        i <= n == s@.len(),
    ensures
        (r matches Some((v, j)) ==> i < j <= s@.len()
            && s@.subrange(i as int, j as int) == i32_enc(v as int)),
        (forall|v: i32| i32_at(s@, i as int, v) ==>
            (r matches Some((w, j)) && w == v && j == i + i32_enc(v as int).len())),
{
    proof {
        reveal_strlit("-");
    }
    if i < n && s.get_char(i) == '-' {
        proof {
            assert(s@.subrange(i as int, i + 1) =~= seq!['-']);
        }
        match parse_u64(s, n, i + 1) {
            Some((m, j)) => {
                if m == 0 || m > 2147483648 {
                    proof {
                        assert forall|v: i32| !i32_at(s@, i as int, v) by {
                            if i32_at(s@, i as int, v) {
                                if v >= 0 {
                                    crate::numeral::lemma_dec_rep_digits(v as nat);
                                    assert(s@[i as int] == i32_enc(v as int)[0]);
                                    assert(is_digit('-'));
                                } else {
                                    lemma_split(s@, i as int, seq!['-'], dec_rep((-v) as nat));
                                    assert(dec_at(s@, i + 1, ((-v) as int) as u64)) by {
                                        assert(dec_rep((((-v) as int) as u64) as nat)
                                            == dec_rep((-v) as nat));
                                    }
                                    assert(m == ((-v) as int) as u64);
                                    crate::numeral::lemma_digits_val_dec_rep((-v) as nat);
                                }
                                assert(false);
                            }
                        }
                    }
                    None
                } else {
                    let v: i32 = if m == 2147483648 {
                        i32::MIN
                    } else {
                        -((m as i32))
                    };
                    proof {
                        lemma_join(s@, i as int, i + 1, j as int);
                        assert(s@.subrange(i as int, j as int) =~= i32_enc(v as int));
                        assert forall|w: i32| i32_at(s@, i as int, w) implies
                            (w == v && j == i + i32_enc(w as int).len()) by {
                            if w >= 0 {
                                crate::numeral::lemma_dec_rep_digits(w as nat);
                                assert(s@[i as int] == i32_enc(w as int)[0]);
                                assert(is_digit('-'));
                                assert(false);
                            } else {
                                lemma_split(s@, i as int, seq!['-'], dec_rep((-w) as nat));
                                assert(dec_at(s@, i + 1, ((-w) as int) as u64)) by {
                                    assert(dec_rep((((-w) as int) as u64) as nat)
                                        == dec_rep((-w) as nat));
                                }
                                assert(m == ((-w) as int) as u64);
                            }
                        }
                    }
                    Some((v, j))
                }
            }
            None => {
                proof {
                    assert forall|v: i32| !i32_at(s@, i as int, v) by {
                        if i32_at(s@, i as int, v) {
                            if v >= 0 {
                                crate::numeral::lemma_dec_rep_digits(v as nat);
                                assert(s@[i as int] == i32_enc(v as int)[0]);
                                assert(is_digit('-'));
                            } else {
                                lemma_split(s@, i as int, seq!['-'], dec_rep((-v) as nat));
                                assert(dec_at(s@, i + 1, ((-v) as int) as u64)) by {
                                    assert(dec_rep((((-v) as int) as u64) as nat)
                                        == dec_rep((-v) as nat));
                                }
                            }
                            assert(false);
                        }
                    }
                }
                None
            }
        }
    } else {
        match parse_u64(s, n, i) {
            Some((m, j)) => {
                if m > 2147483647 {
                    proof {
                        assert forall|v: i32| !i32_at(s@, i as int, v) by {
                            if i32_at(s@, i as int, v) {
                                if v >= 0 {
                                    assert(dec_at(s@, i as int, (v as int) as u64)) by {
                                        assert(dec_rep(((v as int) as u64) as nat)
                                            == dec_rep(v as nat));
                                    }
                                    assert(m == (v as int) as u64);
                                } else {
                                    assert(s@[i as int] == i32_enc(v as int)[0]);
                                    assert(s@[i as int] == '-');
                                    if i < s@.len() {
                                        assert(!is_digit('-'));
                                    }
                                }
                                assert(false);
                            }
                        }
                    }
                    None
                } else {
                    let v: i32 = m as i32;
                    proof {
                        assert(s@.subrange(i as int, j as int) =~= i32_enc(v as int));
                        assert forall|w: i32| i32_at(s@, i as int, w) implies
                            (w == v && j == i + i32_enc(w as int).len()) by {
                            if w >= 0 {
                                assert(dec_at(s@, i as int, (w as int) as u64)) by {
                                    assert(dec_rep(((w as int) as u64) as nat)
                                        == dec_rep(w as nat));
                                }
                                assert(m == (w as int) as u64);
                            } else {
                                assert(s@[i as int] == i32_enc(w as int)[0]);
                                assert(s@[i as int] == '-');
                                assert(!is_digit('-'));
                                assert(i < j);
                                assert(s@[i as int] == dec_rep(m as nat)[0]);
                                crate::numeral::lemma_dec_rep_digits(m as nat);
                                assert(false);
                            }
                        }
                    }
                    Some((v, j))
                }
            }
            None => {
                proof {
                    assert forall|v: i32| !i32_at(s@, i as int, v) by {
                        if i32_at(s@, i as int, v) {
                            if v >= 0 {
                                assert(dec_at(s@, i as int, (v as int) as u64)) by {
                                    assert(dec_rep(((v as int) as u64) as nat)
                                        == dec_rep(v as nat));
                                }
                            } else {
                                assert(s@[i as int] == i32_enc(v as int)[0]);
                                assert(s@[i as int] == '-');
                                if i == n {
                                } else {
                                    assert('-' == s.view().index(i as int));
                                }
                                crate::numeral::lemma_dec_rep_digits((-v) as nat);
                                assert(i32_enc(v as int).len() >= 2);
                                assert(s@[i + 1] == i32_enc(v as int)[1]);
                                assert(is_digit(s@[i + 1]));
                                assert(dec_at(s@, i + 1, ((-v) as int) as u64)) by {
                                    lemma_split(s@, i as int, seq!['-'], dec_rep((-v) as nat));
                                    assert(dec_rep((((-v) as int) as u64) as nat)
                                        == dec_rep((-v) as nat));
                                }
                            }
                            assert(false);
                        }
                    }
                }
                None
            }
        }
    }
}

/// Canonical text of a remote error object.
pub open spec fn err_obj_enc(code: int, msg: Seq<char>) -> Seq<char> {
    "{\"code\":"@ + i32_enc(code) + ",\"message\":\""@ + msg + "\"}"@
}

/// The canonical text of an error object stands in `s` at position `i`.
pub open spec fn err_obj_at(s: Seq<char>, i: int, code: i32, msg: Seq<char>) -> bool {
    plain_str(msg) && lit_at(s, i, err_obj_enc(code as int, msg))
}

/// Where an error object stands at `i`, its pieces stand at their canonical
/// positions.
proof fn lemma_err_obj_parts(s: Seq<char>, i: int, code: i32, msg: Seq<char>)
    requires
        err_obj_at(s, i, code, msg),
    ensures
        ({
            let cl = i32_enc(code as int).len() as int;
            let ml = msg.len() as int;
            &&& lit_at(s, i, "{\"code\":"@)
            &&& i32_at(s, i + 8, code)
            &&& lit_at(s, i + 8 + cl, ",\"message\":\""@)
            &&& s.subrange(i + 20 + cl, i + 20 + cl + ml) == msg
            &&& str_end(s, i + 20 + cl) == i + 20 + cl + ml
            &&& i + 20 + cl + ml < s.len()
            &&& lit_at(s, i + 21 + cl + ml, "}"@)
            &&& err_obj_enc(code as int, msg).len() == cl + ml + 22
        }),
{
    reveal_strlit("{\"code\":");
    reveal_strlit(",\"message\":\"");
    reveal_strlit("\"}");
    reveal_strlit("}");
    let h = "{\"code\":"@;
    let m2 = ",\"message\":\""@;
    let z = "}"@;
    assert("\"}"@ =~= seq!['"'] + z);
    let c = i32_enc(code as int);
    let cl = c.len() as int;
    let ml = msg.len() as int;
    let enc = err_obj_enc(code as int, msg);
    assert(enc.len() == cl + ml + 22);
    assert(enc =~= h + (c + (m2 + (msg + (seq!['"'] + z)))));
    lemma_split(s, i, h, c + (m2 + (msg + (seq!['"'] + z))));
    lemma_split(s, i + 8, c, m2 + (msg + (seq!['"'] + z)));
    lemma_split(s, i + 8 + cl, m2, msg + (seq!['"'] + z));
    lemma_split(s, i + 20 + cl, msg, seq!['"'] + z);
    lemma_split(s, i + 20 + cl + ml, seq!['"'], z);
    // the character after the code is the comma opening the message key
    assert(s[i + 8 + cl] == s.subrange(i + 8 + cl, i + 20 + cl)[0]);
    assert(s[i + 8 + cl] == ',');
    assert(!is_digit(','));
    // the message scans to exactly its closing quote
    assert(s[i + 20 + cl + ml] == s.subrange(i + 20 + cl + ml, i + 21 + cl + ml)[0]);
    assert forall|k: int| i + 20 + cl <= k < i + 20 + cl + ml implies s[k] != '"' by {
        assert(s[k] == msg[k - (i + 20 + cl)]);
    }
    lemma_str_end_exact(s, i + 20 + cl, i + 20 + cl + ml);
}

/// Parse a remote error object at position `i`.
pub fn parse_error_object(s: &str, n: usize, i: usize) -> (r: Option<(JsonRpcError, usize)>)
    requires
        i <= n == s@.len(),
    ensures
        (r matches Some((e, j)) ==> i <= j <= s@.len() && plain_str(e.message@)
            && s@.subrange(i as int, j as int) == err_obj_enc(e.code as int, e.message@)),
        (forall|code: i32, msg: Seq<char>| err_obj_at(s@, i as int, code, msg) ==>
            (r matches Some((e, j)) && e.code == code && e.message@ == msg
                && j == i + err_obj_enc(code as int, msg).len())),
{
    proof {
        reveal_strlit("{\"code\":");
        reveal_strlit(",\"message\":\"");
        reveal_strlit("}");
    }
    let ja = match expect_lit(s, n, i, "{\"code\":") {
        Some(x) => x,
        None => {
            proof {
                assert forall|code: i32, msg: Seq<char>| !err_obj_at(s@, i as int, code, msg) by {
                    if err_obj_at(s@, i as int, code, msg) {
                        lemma_err_obj_parts(s@, i as int, code, msg);
                        assert(false);
                    }
                }
            }
            return None;
        }
    };
    let (code, jb) = match parse_i32(s, n, ja) {
        Some(x) => x,
        None => {
            proof {
                assert forall|code: i32, msg: Seq<char>| !err_obj_at(s@, i as int, code, msg) by {
                    if err_obj_at(s@, i as int, code, msg) {
                        lemma_err_obj_parts(s@, i as int, code, msg);
                        assert(false);
                    }
                }
            }
            return None;
        }
    };
    let jc = match expect_lit(s, n, jb, ",\"message\":\"") {
        Some(x) => x,
        None => {
            proof {
                assert forall|code: i32, msg: Seq<char>| !err_obj_at(s@, i as int, code, msg) by {
                    if err_obj_at(s@, i as int, code, msg) {
                        lemma_err_obj_parts(s@, i as int, code, msg);
                        assert(jb == ja + i32_enc(code as int).len());
                        assert(false);
                    }
                }
            }
            return None;
        }
    };
    let (message, jd) = match parse_str_rest(s, n, jc) {
        Some(x) => x,
        None => {
            proof {
                assert forall|code: i32, msg: Seq<char>| !err_obj_at(s@, i as int, code, msg) by {
                    if err_obj_at(s@, i as int, code, msg) {
                        lemma_err_obj_parts(s@, i as int, code, msg);
                        assert(jb == ja + i32_enc(code as int).len());
                        assert(jc == jb + 12);
                        assert(false);
                    }
                }
            }
            return None;
        }
    };
    let je = match expect_lit(s, n, jd, "}") {
        Some(x) => x,
        None => {
            proof {
                assert forall|code: i32, msg: Seq<char>| !err_obj_at(s@, i as int, code, msg) by {
                    if err_obj_at(s@, i as int, code, msg) {
                        lemma_err_obj_parts(s@, i as int, code, msg);
                        assert(jb == ja + i32_enc(code as int).len());
                        assert(jc == jb + 12);
                        assert(jd == jc + msg.len() + 1);
                        assert(false);
                    }
                }
            }
            return None;
        }
    };
    let e = JsonRpcError { code, message };
    proof {
        reveal_strlit("\"}");
        assert("\"}"@ =~= seq!['"'] + "}"@);
        lemma_join(s@, i as int, ja as int, jb as int);
        lemma_join(s@, i as int, jb as int, jc as int);
        lemma_join(s@, i as int, jc as int, jd as int);
        lemma_join(s@, i as int, jd as int, je as int);
        assert(s@.subrange(i as int, je as int) =~= err_obj_enc(e.code as int, e.message@));
        assert forall|code2: i32, msg: Seq<char>| err_obj_at(s@, i as int, code2, msg) implies
            (e.code == code2 && e.message@ == msg
                && je == i + err_obj_enc(code2 as int, msg).len()) by {
            lemma_err_obj_parts(s@, i as int, code2, msg);
            assert(code == code2 && jb == ja + i32_enc(code2 as int).len());
            assert(jc == jb + 12);
            assert(e.message@ =~= msg);
            assert(jd == jc + msg.len() + 1);
        }
    }
    Some((e, je))
}

/// Canonical text of a reply carrying a result payload.
pub open spec fn reply_result_enc(id: u64, payload: Seq<char>) -> Seq<char> {
    "{\"jsonrpc\":\"2.0\",\"id\":"@ + dec_rep(id as nat) + ",\"result\":"@ + payload + "}"@
}

/// Canonical text of a reply carrying a remote error.
pub open spec fn reply_error_enc(id: u64, code: int, msg: Seq<char>) -> Seq<char> {
    "{\"jsonrpc\":\"2.0\",\"id\":"@ + dec_rep(id as nat) + ",\"error\":"@ + err_obj_enc(code, msg)
        + "}"@
}

/// Encode a reply carrying a result payload.
pub fn encode_reply_result(id: u64, payload: &str) -> (r: String)
    ensures
        r@ == reply_result_enc(id, payload@),
{
    let mut r = "{\"jsonrpc\":\"2.0\",\"id\":".to_owned();
    let id_str = u64_to_string(id);
    r.append(id_str.as_str());
    r.append(",\"result\":");
    r.append(payload);
    r.append("}");
    proof {
        assert(r@ =~= reply_result_enc(id, payload@));
    }
    r
}

/// Encode a reply carrying a remote error.
pub fn encode_reply_error(id: u64, code: i32, message: &str) -> (r: String)
    ensures
        r@ == reply_error_enc(id, code as int, message@),
{
    let mut r = "{\"jsonrpc\":\"2.0\",\"id\":".to_owned();
    let id_str = u64_to_string(id);
    r.append(id_str.as_str());
    r.append(",\"error\":{\"code\":");
    let code_str = i32_to_string(code);
    r.append(code_str.as_str());
    r.append(",\"message\":\"");
    r.append(message);
    r.append("\"}}");
    proof {
        reveal_strlit(",\"error\":{\"code\":");
        reveal_strlit(",\"error\":");
        reveal_strlit("{\"code\":");
        reveal_strlit("\"}}");
        reveal_strlit("\"}");
        reveal_strlit("}");
        assert(r@ =~= reply_error_enc(id, code as int, message@));
    }
    r
}

/// Where a result reply stands, its pieces stand at their canonical
/// positions.
pub proof fn lemma_reply_result_parts(s: Seq<char>, id: u64, payload: Seq<char>)
    requires
        s == reply_result_enc(id, payload),
    ensures
        ({
            let dl = dec_rep(id as nat).len() as int;
            let pl = payload.len() as int;
            &&& lit_at(s, 0, "{\"jsonrpc\":\"2.0\",\"id\":"@)
            &&& dec_at(s, 22, id)
            &&& lit_at(s, 22 + dl, ",\"result\":"@)
            &&& s.subrange(32 + dl, 32 + dl + pl) == payload
            &&& lit_at(s, 32 + dl + pl, "}"@)
            &&& s.len() == 33 + dl + pl
        }),
{
    reveal_strlit("{\"jsonrpc\":\"2.0\",\"id\":");
    reveal_strlit(",\"result\":");
    reveal_strlit("}");
    let h = "{\"jsonrpc\":\"2.0\",\"id\":"@;
    let m = ",\"result\":"@;
    let z = "}"@;
    let d = dec_rep(id as nat);
    let dl = d.len() as int;
    let pl = payload.len() as int;
    assert(s.len() == 33 + dl + pl);
    assert(s.subrange(0, s.len() as int) =~= s);
    assert(s =~= h + (d + (m + (payload + z))));
    lemma_split(s, 0, h, d + (m + (payload + z)));
    lemma_split(s, 22, d, m + (payload + z));
    lemma_split(s, 22 + dl, m, payload + z);
    lemma_split(s, 32 + dl, payload, z);
    assert(s[22 + dl] == s.subrange(22 + dl, 32 + dl)[0]);
    assert(s[22 + dl] == ',');
    assert(!is_digit(','));
}

/// Where an error reply stands, its pieces stand at their canonical
/// positions.
pub proof fn lemma_reply_error_parts(s: Seq<char>, id: u64, code: i32, msg: Seq<char>)
    requires
        plain_str(msg),
        s == reply_error_enc(id, code as int, msg),
    ensures
        ({
            let dl = dec_rep(id as nat).len() as int;
            let ol = err_obj_enc(code as int, msg).len() as int;
            &&& lit_at(s, 0, "{\"jsonrpc\":\"2.0\",\"id\":"@)
            &&& dec_at(s, 22, id)
            &&& lit_at(s, 22 + dl, ",\"error\":"@)
            &&& err_obj_at(s, 31 + dl, code, msg)
            &&& lit_at(s, 31 + dl + ol, "}"@)
            &&& s.len() == 32 + dl + ol
        }),
{
    reveal_strlit("{\"jsonrpc\":\"2.0\",\"id\":");
    reveal_strlit(",\"error\":");
    reveal_strlit("}");
    let h = "{\"jsonrpc\":\"2.0\",\"id\":"@;
    let m = ",\"error\":"@;
    let z = "}"@;
    let d = dec_rep(id as nat);
    let o = err_obj_enc(code as int, msg);
    let dl = d.len() as int;
    let ol = o.len() as int;
    assert(s.len() == 32 + dl + ol);
    assert(s.subrange(0, s.len() as int) =~= s);
    assert(s =~= h + (d + (m + (o + z))));
    lemma_split(s, 0, h, d + (m + (o + z)));
    lemma_split(s, 22, d, m + (o + z));
    lemma_split(s, 22 + dl, m, o + z);
    lemma_split(s, 31 + dl, o, z);
    assert(s[22 + dl] == s.subrange(22 + dl, 31 + dl)[0]);
    assert(s[22 + dl] == ',');
    assert(!is_digit(','));
}

/// Parse the head of a reply: the version, the identifier it answers, and
/// whether it carries a result or an error.  Returns the identifier, the
/// position where the payload begins, and `true` for a result.
pub fn parse_reply_prelude(s: &str, n: usize) -> (r: Option<(u64, usize, bool)>)
    requires
        n == s@.len(),
    ensures
        (r matches Some((id, j, res)) ==> 0 < j <= s@.len()
            && (res ==> s@.subrange(0, j as int)
                == "{\"jsonrpc\":\"2.0\",\"id\":"@ + dec_rep(id as nat) + ",\"result\":"@)
            && (!res ==> s@.subrange(0, j as int)
                == "{\"jsonrpc\":\"2.0\",\"id\":"@ + dec_rep(id as nat) + ",\"error\":"@)),
        (forall|id: u64, payload: Seq<char>| s@ == reply_result_enc(id, payload) ==>
            (r matches Some((id2, j, res)) && id2 == id && res
                && j == 32 + dec_rep(id as nat).len())),
        (forall|id: u64, code: i32, msg: Seq<char>|
            plain_str(msg) && s@ == reply_error_enc(id, code as int, msg) ==>
            (r matches Some((id2, j, res)) && id2 == id && !res
                && j == 31 + dec_rep(id as nat).len())),
{
    proof {
        reveal_strlit("{\"jsonrpc\":\"2.0\",\"id\":");
        reveal_strlit(",\"result\":");
        reveal_strlit(",\"error\":");
    }
    let ja = match expect_lit(s, n, 0, "{\"jsonrpc\":\"2.0\",\"id\":") {
        Some(x) => x,
        None => {
            proof {
                assert forall|id: u64, payload: Seq<char>| s@ != reply_result_enc(id, payload) by {
                    if s@ == reply_result_enc(id, payload) {
                        lemma_reply_result_parts(s@, id, payload);
                        assert(false);
                    }
                }
                assert forall|id: u64, code: i32, msg: Seq<char>|
                    !(plain_str(msg) && s@ == reply_error_enc(id, code as int, msg)) by {
                    if plain_str(msg) && s@ == reply_error_enc(id, code as int, msg) {
                        lemma_reply_error_parts(s@, id, code, msg);
                        assert(false);
                    }
                }
            }
            return None;
        }
    };
    let (id, jb) = match parse_u64(s, n, ja) {
        Some(x) => x,
        None => {
            proof {
                assert forall|id: u64, payload: Seq<char>| s@ != reply_result_enc(id, payload) by {
                    if s@ == reply_result_enc(id, payload) {
                        lemma_reply_result_parts(s@, id, payload);
                        assert(false);
                    }
                }
                assert forall|id: u64, code: i32, msg: Seq<char>|
                    !(plain_str(msg) && s@ == reply_error_enc(id, code as int, msg)) by {
                    if plain_str(msg) && s@ == reply_error_enc(id, code as int, msg) {
                        lemma_reply_error_parts(s@, id, code, msg);
                        assert(false);
                    }
                }
            }
            return None;
        }
    };
    if let Some(jc) = expect_lit(s, n, jb, ",\"result\":") {
        proof {
            lemma_join(s@, 0, ja as int, jb as int);
            lemma_join(s@, 0, jb as int, jc as int);
            assert(s@.subrange(0, jc as int)
                =~= "{\"jsonrpc\":\"2.0\",\"id\":"@ + dec_rep(id as nat) + ",\"result\":"@);
            assert forall|id2: u64, payload: Seq<char>| s@ == reply_result_enc(id2, payload)
                implies (id == id2 && jc == 32 + dec_rep(id2 as nat).len()) by {
                lemma_reply_result_parts(s@, id2, payload);
            }
            assert forall|id2: u64, code: i32, msg: Seq<char>|
                !(plain_str(msg) && s@ == reply_error_enc(id2, code as int, msg)) by {
                if plain_str(msg) && s@ == reply_error_enc(id2, code as int, msg) {
                    lemma_reply_error_parts(s@, id2, code, msg);
                    assert(id == id2 && jb == 22 + dec_rep(id2 as nat).len());
                    assert(s@[jb + 2] == s@.subrange(jb as int, jb + 9)[2]);
                    assert(s@[jb + 2] == 'e');
                    assert(s@[jb + 2] == s@.subrange(jb as int, jc as int)[2]);
                    assert(s@[jb + 2] == 'r');
                    assert(false);
                }
            }
        }
        return Some((id, jc, true));
    }
    if let Some(jc) = expect_lit(s, n, jb, ",\"error\":") {
        proof {
            lemma_join(s@, 0, ja as int, jb as int);
            lemma_join(s@, 0, jb as int, jc as int);
            assert(s@.subrange(0, jc as int)
                =~= "{\"jsonrpc\":\"2.0\",\"id\":"@ + dec_rep(id as nat) + ",\"error\":"@);
            assert forall|id2: u64, code: i32, msg: Seq<char>|
                (plain_str(msg) && s@ == reply_error_enc(id2, code as int, msg)) implies
                (id == id2 && jc == 31 + dec_rep(id2 as nat).len()) by {
                lemma_reply_error_parts(s@, id2, code, msg);
            }
            assert forall|id2: u64, payload: Seq<char>| s@ != reply_result_enc(id2, payload) by {
                if s@ == reply_result_enc(id2, payload) {
                    lemma_reply_result_parts(s@, id2, payload);
                    assert(id == id2 && jb == 22 + dec_rep(id2 as nat).len());
                    assert(false);
                }
            }
        }
        return Some((id, jc, false));
    }
    proof {
        assert forall|id2: u64, payload: Seq<char>| s@ != reply_result_enc(id2, payload) by {
            if s@ == reply_result_enc(id2, payload) {
                lemma_reply_result_parts(s@, id2, payload);
                assert(id == id2 && jb == 22 + dec_rep(id2 as nat).len());
                assert(false);
            }
        }
        assert forall|id2: u64, code: i32, msg: Seq<char>|
            !(plain_str(msg) && s@ == reply_error_enc(id2, code as int, msg)) by {
            if plain_str(msg) && s@ == reply_error_enc(id2, code as int, msg) {
                lemma_reply_error_parts(s@, id2, code, msg);
                assert(id == id2 && jb == 22 + dec_rep(id2 as nat).len());
                assert(false);
            }
        }
    }
    None
}

/// Some identifier makes `s` the canonical reply carrying `payload` as its
/// result.
pub open spec fn is_result_reply(s: Seq<char>, payload: Seq<char>) -> bool {
    exists|id: u64| s == reply_result_enc(id, payload)
}

/// Some identifier, code and message make `s` the canonical error reply, and
/// `message` spells that code and message out.
pub open spec fn is_error_reply(s: Seq<char>, message: Seq<char>) -> bool {
    exists|id: u64, code: i32, msg: Seq<char>|
        plain_str(msg) && s == reply_error_enc(id, code as int, msg)
            && message == "JSON-RPC error "@ + i32_enc(code as int) + ": "@ + msg
}

/// Read the identifier a reply answers, for correlation.
///
/// An identifier is returned only where the text begins with the canonical
/// reply head carrying it, so no frame is ever delivered under an invented
/// identifier.
pub fn response_id(s: &str) -> (r: Option<u64>)
    ensures
        (forall|id: u64, payload: Seq<char>| s@ == reply_result_enc(id, payload) ==>
            r == Some(id)),
        (forall|id: u64, code: i32, msg: Seq<char>|
            plain_str(msg) && s@ == reply_error_enc(id, code as int, msg) ==> r == Some(id)),
        (r matches Some(id) ==> exists|j: int| 0 < j <= s@.len()
            && (s@.subrange(0, j) == "{\"jsonrpc\":\"2.0\",\"id\":"@ + dec_rep(id as nat)
                    + ",\"result\":"@
                || s@.subrange(0, j) == "{\"jsonrpc\":\"2.0\",\"id\":"@ + dec_rep(id as nat)
                    + ",\"error\":"@)),
{
    let n = s.unicode_len();
    match parse_reply_prelude(s, n) {
        Some((id, j, res)) => {
            proof {
                assert(0 < j <= s@.len()
                    && (s@.subrange(0, j as int) == "{\"jsonrpc\":\"2.0\",\"id\":"@
                            + dec_rep(id as nat) + ",\"result\":"@
                        || s@.subrange(0, j as int) == "{\"jsonrpc\":\"2.0\",\"id\":"@
                            + dec_rep(id as nat) + ",\"error\":"@));
            }
            Some(id)
        }
        None => None,
    }
}

} // verus!

