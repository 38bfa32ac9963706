//! The request router: which operation an inbound method and path name, the
//! decoding of the validation form body, and the client-facing JSON replies
//! with their status codes. Decoding failures and unknown routes yield a
//! client-error reply with an empty body; upstream failures a server-error
//! reply.

use vstd::prelude::*;
use vstd::string::StrSliceExecFns;
use vstd::utf8::{decode_utf8, valid_utf8};
use crate::client::{spec_opt_chars, spec_opt_json};
use crate::codec::{form_decode, form_decoded, json_string, push_json_string};
use crate::error::Error;
use crate::models::{ClientRegisterResponse, ClientValidateRequest, ClientValidateResponse};
use crate::text::{str_eq, string_from_utf8};

verus! {

/// The operation an inbound request names.
#[derive(Clone, Copy, Debug, PartialEq, Eq, Structural)]
pub enum Route {
    Register,
    Validate,
    Unknown,
}

/// Which operation a method and path name: issuance is `GET /register`,
/// validation `POST /validate`, anything else is unknown.
pub open spec fn spec_route(method: Seq<char>, path: Seq<char>) -> Route {
    if method == "GET"@ && path == "/register"@ {
        Route::Register
    } else if method == "POST"@ && path == "/validate"@ {
        Route::Validate
    } else {
        Route::Unknown
    }
}

/// Maps an inbound method and path to the operation they name.
pub fn route(method: &str, path: &str) -> (r: Route)
    ensures
        r == spec_route(method@, path@),
{
    if str_eq(method, "GET") && str_eq(path, "/register") {
        Route::Register
    } else if str_eq(method, "POST") && str_eq(path, "/validate") {
        Route::Validate
    } else {
        Route::Unknown
    }
}

/// A reply ready for the transport: a status code, a body, and whether the
/// body is JSON.
pub struct HttpReply {
    pub status: u16,
    pub body: String,
    pub json: bool,
}

impl HttpReply {
    /// A successful reply carrying a JSON body.
    pub fn ok_json(body: String) -> (r: HttpReply)
        ensures
            r.status == 200,
            r.body == body,
            r.json,
    {
        HttpReply { status: 200, body, json: true }
    }

    /// The client-error reply: empty body, for unknown routes and bodies
    /// that do not decode.
    pub fn bad_request() -> (r: HttpReply)
        ensures
            r.status == 400,
            r.body@.len() == 0,
            !r.json,
    {
        HttpReply { status: 400, body: String::new(), json: false }
    }

    /// The server-error reply: empty body, for upstream failures.
    pub fn server_error() -> (r: HttpReply)
        ensures
            r.status == 500,
            r.body@.len() == 0,
            !r.json,
    {
        HttpReply { status: 500, body: String::new(), json: false }
    }
}

/// A flag as the register reply carries it: the digit 1 or 0.
pub open spec fn spec_bool_digit(b: bool) -> Seq<char> {
    if b {
        "1"@
    } else {
        "0"@
    }
}

/// A flag as a JSON boolean.
pub open spec fn spec_bool_json(b: bool) -> Seq<char> {
    if b {
        "true"@
    } else {
        "false"@
    }
}

/// A verdict as the validate reply carries it: the string "success" or
/// "fail".
pub open spec fn spec_result_json(b: bool) -> Seq<char> {
    if b {
        "\"success\""@
    } else {
        "\"fail\""@
    }
}

/// The JSON body of a register reply.
pub open spec fn spec_register_reply(r: ClientRegisterResponse) -> Seq<char> {
    "{\"success\":"@ + spec_bool_digit(r.success) + ",\"new_captcha\":"@ + spec_bool_json(
        r.new_captcha,
    ) + ",\"challenge\":"@ + json_string(r.challenge@) + ",\"gt\":"@ + json_string(r.captcha_id@)
        + "}"@
}

/// Encodes a register reply as its JSON body.
pub fn encode_register_response(r: &ClientRegisterResponse) -> (s: String)
    ensures
        s@ == spec_register_reply(*r),
{
    let mut out = String::new();
    out.append("{\"success\":");
    if r.success {
        out.append("1");
    } else {
        out.append("0");
    }
    out.append(",\"new_captcha\":");
    if r.new_captcha {
        out.append("true");
    } else {
        out.append("false");
    }
    out.append(",\"challenge\":");
    push_json_string(&mut out, r.challenge.as_str());
    out.append(",\"gt\":");
    push_json_string(&mut out, r.captcha_id.as_str());
    out.append("}");
    proof {
        assert(out@ =~= spec_register_reply(*r));
    }
    out
}

/// The JSON body of a validate reply; an absent message is `null`.
pub open spec fn spec_validate_reply(r: ClientValidateResponse) -> Seq<char> {
    "{\"result\":"@ + spec_result_json(r.result) + ",\"version\":"@ + json_string(r.version@)
        + ",\"msg\":"@ + spec_opt_json(spec_opt_chars(r.msg)) + "}"@
}

/// Encodes a validate reply as its JSON body.
pub fn encode_validate_response(r: &ClientValidateResponse) -> (s: String)
    ensures
        s@ == spec_validate_reply(*r),
{
    let mut out = String::new();
    out.append("{\"result\":");
    if r.result {
        out.append("\"success\"");
    } else {
        out.append("\"fail\"");
    }
    out.append(",\"version\":");
    push_json_string(&mut out, r.version.as_str());
    out.append(",\"msg\":");
    match &r.msg {
        Some(m) => push_json_string(&mut out, m.as_str()),
        None => out.append("null"),
    }
    out.append("}");
    proof {
        assert(out@ =~= spec_validate_reply(*r));
    }
    out
}

/// The segments of a byte string between separators: the empty string has
/// one empty segment, as does the stretch between two adjacent separators.
pub open spec fn split_seq(s: Seq<u8>, sep: u8) -> Seq<Seq<u8>>
    decreases s.len(),
{
    if s.len() == 0 {
        seq![Seq::<u8>::empty()]
    } else if s[0] == sep {
        seq![Seq::<u8>::empty()] + split_seq(s.drop_first(), sep)
    } else {
        let rest = split_seq(s.drop_first(), sep);
        seq![seq![s[0]] + rest[0]] + rest.drop_first()
    }
}

/// Splitting always gives at least one segment.
pub proof fn lemma_split_seq_nonempty(s: Seq<u8>, sep: u8)
    ensures
        split_seq(s, sep).len() >= 1,
    decreases s.len(),
{
    if s.len() > 0 {
        lemma_split_seq_nonempty(s.drop_first(), sep);
    }
}

/// The key and value of a `key=value` segment, split at the first `=`; a
/// segment without `=` has none.
pub open spec fn split_kv(seg: Seq<u8>) -> Option<(Seq<u8>, Seq<u8>)>
    decreases seg.len(),
{
    if seg.len() == 0 {
        None
    } else if seg[0] == 0x3d {
        Some((Seq::<u8>::empty(), seg.drop_first()))
    } else {
        match split_kv(seg.drop_first()) {
            None => None,
            Some(kv) => Some((seq![seg[0]] + kv.0, kv.1)),
        }
    }
}

proof fn lemma_split_kv_at(seg: Seq<u8>, j: int)
    requires
        0 <= j < seg.len(),
        seg[j] == 0x3d,
        forall|k: int| 0 <= k < j ==> seg[k] != 0x3d,
    ensures
        split_kv(seg) == Some(
            (seg.subrange(0, j), seg.subrange(j + 1, seg.len() as int)),
        ),
    decreases j,
{
    if j == 0 {
        assert(seg.subrange(0, 0) =~= Seq::<u8>::empty());
        assert(seg.drop_first() =~= seg.subrange(1, seg.len() as int));
    } else {
        lemma_split_kv_at(seg.drop_first(), j - 1);
        assert(seg.drop_first().subrange(0, j - 1) =~= seg.subrange(1, j));
        assert(seq![seg[0]] + seg.subrange(1, j) =~= seg.subrange(0, j));
        assert(seg.drop_first().subrange(j, seg.len() - 1) =~= seg.subrange(
            j + 1,
            seg.len() as int,
        ));
    }
}

proof fn lemma_split_kv_none(seg: Seq<u8>)
    requires
        forall|k: int| 0 <= k < seg.len() ==> seg[k] != 0x3d,
    ensures
        split_kv(seg) is None,
    decreases seg.len(),
{
    if seg.len() > 0 {
        lemma_split_kv_none(seg.drop_first());
    }
}

/// What one `key=value` segment decodes to: both sides form-decoded and read
/// as UTF-8; refused when either step refuses.
pub open spec fn decoded_pair(seg: Seq<u8>) -> Option<(Seq<char>, Seq<char>)> {
    match split_kv(seg) {
        None => None,
        Some(kv) => match (form_decoded(kv.0), form_decoded(kv.1)) {
            (Some(kb), Some(vb)) => if valid_utf8(kb) && valid_utf8(vb) {
                Some((decode_utf8(kb), decode_utf8(vb)))
            } else {
                None
            },
            _ => None,
        },
    }
}

/// What a sequence of segments decodes to, refused as soon as one segment is.
pub open spec fn decoded_pairs(segs: Seq<Seq<u8>>) -> Option<Seq<(Seq<char>, Seq<char>)>>
    decreases segs.len(),
{
    if segs.len() == 0 {
        Some(Seq::<(Seq<char>, Seq<char>)>::empty())
    } else {
        match (decoded_pair(segs[0]), decoded_pairs(segs.drop_first())) {
            (Some(p), Some(r)) => Some(seq![p] + r),
            _ => None,
        }
    }
}

/// The value of the last pair carrying the given key, if any.
pub open spec fn lookup_last(pairs: Seq<(Seq<char>, Seq<char>)>, key: Seq<char>) -> Option<
    Seq<char>,
>
    decreases pairs.len(),
{
    if pairs.len() == 0 {
        None
    } else if pairs.last().0 == key {
        Some(pairs.last().1)
    } else {
        lookup_last(pairs.drop_last(), key)
    }
}

/// What a form-urlencoded validation body parses to: the last values of the
/// three fields; refused when the body is not well-formed form-urlencoding
/// or any of the three fields is missing. Pairs under other keys are
/// ignored.
pub open spec fn spec_parse_validate(body: Seq<u8>) -> Option<(Seq<char>, Seq<char>, Seq<char>)> {
    match decoded_pairs(split_seq(body, 0x26)) {
        None => None,
        Some(pairs) => match (
            lookup_last(pairs, "geetest_challenge"@),
            lookup_last(pairs, "geetest_validate"@),
            lookup_last(pairs, "geetest_seccode"@),
        ) {
            (Some(c), Some(v), Some(sc)) => Some((c, v, sc)),
            _ => None,
        },
    }
}

fn split_bytes(s: &[u8], sep: u8) -> (r: Vec<Vec<u8>>)
    ensures
        r.deep_view() == split_seq(s@, sep),
{
    let mut done: Vec<Vec<u8>> = Vec::new();
    let mut cur: Vec<u8> = Vec::new();
    let n = s.len();
    let mut i: usize = 0;
    proof {
        assert(s@.skip(0) =~= s@);
        lemma_split_seq_nonempty(s@, sep);
    }
    while i < n
        invariant
            n == s@.len(),
            i <= n,
            split_seq(s@.skip(i as int), sep).len() >= 1,
            split_seq(s@, sep) =~~= done.deep_view() + seq![cur@ + split_seq(
                s@.skip(i as int),
                sep,
            )[0]] + split_seq(s@.skip(i as int), sep).drop_first(),
        decreases n - i,
    {
        proof {
            assert(s@.skip(i as int).drop_first() =~= s@.skip(i + 1));
            lemma_split_seq_nonempty(s@.skip(i + 1), sep);
        }
        let ghost prev_done = done.deep_view();
        let ghost prev_cur = cur@;
        let b = s[i];
        if b == sep {
            done.push(cur);
            cur = Vec::new();
            proof {
                assert(done.deep_view() =~~= prev_done.push(prev_cur));
                assert(split_seq(s@.skip(i as int), sep) =~~= seq![Seq::<u8>::empty()]
                    + split_seq(s@.skip(i + 1), sep));
                assert(prev_cur + split_seq(s@.skip(i as int), sep)[0] =~= prev_cur);
            }
        } else {
            cur.push(b);
            proof {
                let rest = split_seq(s@.skip(i + 1), sep);
                assert(split_seq(s@.skip(i as int), sep) =~~= seq![seq![b] + rest[0]]
                    + rest.drop_first());
                assert(prev_cur + (seq![b] + rest[0]) =~= cur@ + rest[0]);
            }
        }
        i = i + 1;
    }
    proof {
        assert(s@.skip(n as int) =~= Seq::<u8>::empty());
        assert(split_seq(Seq::<u8>::empty(), sep) =~~= seq![Seq::<u8>::empty()]);
        assert(cur@ + Seq::<u8>::empty() =~= cur@);
    }
    let ghost prev_done = done.deep_view();
    let ghost last_cur = cur@;
    done.push(cur);
    proof {
        assert(done.deep_view() =~~= prev_done.push(last_cur));
        assert(done.deep_view() =~~= split_seq(s@, sep));
    }
    done
}

fn find_byte(s: &[u8], b: u8) -> (r: Option<usize>)
    ensures
        r matches Some(j) ==> j < s@.len() && s@[j as int] == b && (forall|k: int|
            0 <= k < j ==> s@[k] != b),
        r is None ==> forall|k: int| 0 <= k < s@.len() ==> s@[k] != b,
{
    let n = s.len();
    let mut j: usize = 0;
    while j < n
        invariant
            n == s@.len(),
            j <= n,
            forall|k: int| 0 <= k < j ==> s@[k] != b,
        decreases n - j,
    {
        if s[j] == b {
            return Some(j);
        }
        j = j + 1;
    }
    None
}

fn split_kv_bytes(seg: &[u8]) -> (r: Option<(Vec<u8>, Vec<u8>)>)
    ensures
        r is Some <==> split_kv(seg@) is Some,
        r matches Some(kv) ==> split_kv(seg@) == Some((kv.0@, kv.1@)),
{
    let n = seg.len();
    let j: usize = match find_byte(seg, 0x3d) {
        None => {
            proof {
                lemma_split_kv_none(seg@);
            }
            return None;
        },
        Some(j) => j,
    };
    proof {
        lemma_split_kv_at(seg@, j as int);
    }
    let mut key: Vec<u8> = Vec::new();
    let mut k: usize = 0;
    while k < j
        invariant
            j < n,
            n == seg@.len(),
            k <= j,
            key@ =~= seg@.subrange(0, k as int),
        decreases j - k,
    {
        key.push(seg[k]);
        proof {
            assert(key@ =~= seg@.subrange(0, k + 1));
        }
        k = k + 1;
    }
    let mut val: Vec<u8> = Vec::new();
    let mut v: usize = j + 1;
    while v < n
        invariant
            j < n,
            n == seg@.len(),
            j + 1 <= v <= n,
            val@ =~= seg@.subrange(j + 1, v as int),
        decreases n - v,
    {
        val.push(seg[v]);
        proof {
            assert(val@ =~= seg@.subrange(j + 1, v + 1));
        }
        v = v + 1;
    }
    Some((key, val))
}

fn decode_pair_bytes(seg: &[u8]) -> (r: Option<(String, String)>)
    ensures
        r is Some <==> decoded_pair(seg@) is Some,
        r matches Some(p) ==> decoded_pair(seg@) == Some((p.0@, p.1@)),
{
    match split_kv_bytes(seg) {
        None => None,
        Some((key, val)) => match form_decode(key.as_slice()) {
            None => None,
            Some(kb) => match form_decode(val.as_slice()) {
                None => None,
                Some(vb) => match string_from_utf8(kb) {
                    None => None,
                    Some(ks) => match string_from_utf8(vb) {
                        None => None,
                        Some(vs) => Some((ks, vs)),
                    },
                },
            },
        },
    }
}

fn lookup_pairs(pairs: &Vec<(String, String)>, key: &str) -> (r: Option<String>)
    ensures
        r is Some <==> lookup_last(pairs.deep_view(), key@) is Some,
        r matches Some(v) ==> lookup_last(pairs.deep_view(), key@) == Some(v@),
{
    let n = pairs.len();
    let mut found: Option<String> = None;
    let mut i: usize = 0;
    proof {
        assert(pairs.deep_view().take(0) =~= Seq::<(Seq<char>, Seq<char>)>::empty());
    }
    while i < n
        invariant
            n == pairs@.len(),
            pairs.deep_view().len() == n,
            i <= n,
            found is Some <==> lookup_last(pairs.deep_view().take(i as int), key@) is Some,
            found matches Some(v) ==> lookup_last(pairs.deep_view().take(i as int), key@)
                == Some(v@),
        decreases n - i,
    {
        proof {
            assert(pairs.deep_view().take(i + 1).drop_last() =~= pairs.deep_view().take(i as int));
            assert(pairs.deep_view().take(i + 1).last() == pairs.deep_view()[i as int]);
            assert(pairs.deep_view()[i as int] == (pairs@[i as int].0@, pairs@[i as int].1@));
        }
        if str_eq(pairs[i].0.as_str(), key) {
            found = Some(pairs[i].1.clone());
        }
        i = i + 1;
    }
    proof {
        assert(pairs.deep_view().take(n as int) =~= pairs.deep_view());
    }
    found
}

/// Parses a form-urlencoded validation body into its three fields, refusing
/// it when the encoding is malformed or a field is missing.
pub fn parse_validate_request(body: &[u8]) -> (r: Result<ClientValidateRequest, Error>)
    ensures
        r is Ok <==> spec_parse_validate(body@) is Some,
        r matches Ok(req) ==> spec_parse_validate(body@) == Some(
            (req.challenge@, req.validate@, req.seccode@),
        ),
        r matches Err(e) ==> e is Query,
{
    let segs = split_bytes(body, 0x26);
    let mut pairs: Vec<(String, String)> = Vec::new();
    let n = segs.len();
    let mut i: usize = 0;
    proof {
        assert(segs.deep_view().skip(0) =~~= segs.deep_view());
    }
    while i < n
        invariant
            n == segs@.len(),
            segs.deep_view().len() == n,
            i <= n,
            segs.deep_view() == split_seq(body@, 0x26),
            match decoded_pairs(segs.deep_view().skip(i as int)) {
                Some(rest) => decoded_pairs(segs.deep_view()) == Some(pairs.deep_view() + rest),
                None => decoded_pairs(segs.deep_view()) is None,
            },
        decreases n - i,
    {
        proof {
            assert(segs.deep_view().skip(i as int).drop_first() =~~= segs.deep_view().skip(i + 1));
            assert(segs.deep_view().skip(i as int)[0] == segs@[i as int]@);
        }
        let ghost prev_pairs = pairs.deep_view();
        match decode_pair_bytes(segs[i].as_slice()) {
            None => {
                proof {
                    assert(segs.deep_view().skip(i as int).len() > 0);
                    assert(decoded_pairs(segs.deep_view().skip(i as int)) is None);
                    assert(decoded_pairs(split_seq(body@, 0x26)) is None);
                    assert(spec_parse_validate(body@) is None);
                }
                return Err(Error::Query("malformed form body".to_owned()));
            },
            Some(p) => {
                let ghost pv = (p.0@, p.1@);
                pairs.push(p);
                proof {
                    assert(pairs.deep_view() =~~= prev_pairs.push(pv));
                    match decoded_pairs(segs.deep_view().skip(i + 1)) {
                        Some(rest) => {
                            assert(prev_pairs + (seq![pv] + rest) =~~= pairs.deep_view() + rest);
                        },
                        None => {},
                    }
                }
            },
        }
        i = i + 1;
    }
    proof {
        assert(segs.deep_view().skip(n as int) =~~= Seq::<Seq<u8>>::empty());
        assert(pairs.deep_view() + Seq::<(Seq<char>, Seq<char>)>::empty() =~~= pairs.deep_view());
    }
    let challenge = lookup_pairs(&pairs, "geetest_challenge");
    let validate = lookup_pairs(&pairs, "geetest_validate");
    let seccode = lookup_pairs(&pairs, "geetest_seccode");
    match (challenge, validate, seccode) {
        (Some(challenge), Some(validate), Some(seccode)) => Ok(
            ClientValidateRequest { challenge, validate, seccode },
        ),
        _ => Err(Error::Query("a validation field is missing".to_owned())),
    }
}

} // verus!
