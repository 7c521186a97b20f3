//! The wire protocol: newline-terminated JSON requests built exactly,
//! and responses read back through the JSON crate behind trusted
//! accessors.  Request serialization is verified down to the escaping;
//! what a response holds is decided by the parser, and the verified
//! code states what it does with every answer.
use crate::addr::spec_trim_non_empty;
use crate::addr::trim_non_empty;
use crate::chars::dec_digits;
use crate::chars::push_char;
use crate::chars::str_concat;
use crate::chars::trim_str;
use crate::chars::u64_to_string;
use crate::ident::DaemonInfo;
use crate::probe::opt_str_view;
use vstd::prelude::*;
use vstd::string::StrSliceExecFns;
use vstd::string::StringExecFns;

verus! {

#[verifier::external_type_specification]
#[verifier::external_body]
pub struct ExValue(serde_json::Value);

/// Whether JSON parsing accepts the line; a function of the line alone.
pub uninterp spec fn line_parses(line: Seq<char>) -> bool;

/// The unsigned number under the line's top-level `id` key, when the
/// line parses and has one; a function of the line alone.
pub uninterp spec fn line_id_of(line: Seq<char>) -> Option<u64>;

/// Relies on `serde_json::from_str::<Value>`, `Value::get` and
/// `Value::as_u64`: the parsed document together with its numeric `id`
/// field, or the parser's message as text.  Parsing and the id depend
/// on the line alone, so both are named.
#[verifier::external_body]
pub fn json_parse_line(line: &str) -> (r: Result<(serde_json::Value, Option<u64>), String>)
    ensures
        (r is Ok) == line_parses(line@),
        r matches Result::Ok(p) ==> p.1 == line_id_of(line@),
{
    match serde_json::from_str::<serde_json::Value>(line) {
        Ok(v) => {
            let id = v.get("id").and_then(serde_json::Value::as_u64);
            Ok((v, id))
        },
        Err(err) => Err(err.to_string()),
    }
}

/// Relies on `Value::get` and `Value::as_u64`: the unsigned number at
/// `key`, when the document is an object holding one there.
#[verifier::external_body]
pub fn json_u64_field(v: &serde_json::Value, key: &str) -> (r: Option<u64>) {
    v.get(key).and_then(serde_json::Value::as_u64)
}

/// Relies on `Value::get` and `Value::as_str`: the string at `key`.
#[verifier::external_body]
pub fn json_str_field(v: &serde_json::Value, key: &str) -> (r: Option<String>) {
    v.get(key).and_then(serde_json::Value::as_str).map(str::to_string)
}

/// Relies on `Value::get` twice and `Value::as_str`: the string at
/// `key1.key2`, the shape of the protocol's error messages.
#[verifier::external_body]
pub fn json_nested_str_field(v: &serde_json::Value, key1: &str, key2: &str) -> (r: Option<String>) {
    v.get(key1).and_then(|inner| inner.get(key2)).and_then(serde_json::Value::as_str).map(
        str::to_string,
    )
}

/// Relies on `Value::get` and `Value::as_bool`: the boolean at `key`.
#[verifier::external_body]
pub fn json_bool_field(v: &serde_json::Value, key: &str) -> (r: Option<bool>) {
    v.get(key).and_then(serde_json::Value::as_bool)
}

/// Relies on `Value::get`: a copy of the value at `key`, when present.
#[verifier::external_body]
pub fn json_take_field(v: &serde_json::Value, key: &str) -> (r: Option<serde_json::Value>) {
    v.get(key).cloned()
}

/// The message under `error.message`, how the remote signals a
/// business-level failure over a successful transport.
pub fn parse_daemon_error_message(response: &serde_json::Value) -> (r: Option<String>) {
    json_nested_str_field(response, "error", "message")
}

/// The parameters this controller ever sends.
pub enum RpcParams {
    /// The empty object, for `ping`, `daemon_info` and `daemon_shutdown`.
    Empty,
    /// `{"token": <token>}`, for `auth`.
    Token(String),
}

/// The lowercase hexadecimal digit of a value below sixteen.
pub open spec fn lower_hex_digit(d: int) -> char {
    if d < 10 {
        crate::chars::digit_char(d)
    } else {
        (('a' as int) + (d - 10)) as char
    }
}

/// One character as JSON writes it inside a string: quote and backslash
/// escaped, the named control escapes, other control characters in the
/// four-digit form, everything else literal.
pub open spec fn escaped_char(c: char) -> Seq<char> {
    if c == '"' {
        seq!['\\', '"']
    } else if c == '\\' {
        seq!['\\', '\\']
    } else if c == '\u{8}' {
        seq!['\\', 'b']
    } else if c == '\t' {
        seq!['\\', 't']
    } else if c == '\n' {
        seq!['\\', 'n']
    } else if c == '\u{c}' {
        seq!['\\', 'f']
    } else if c == '\r' {
        seq!['\\', 'r']
    } else if (c as u32) < 0x20 {
        seq!['\\', 'u', '0', '0', lower_hex_digit(c as int / 16), lower_hex_digit(c as int % 16)]
    } else {
        seq![c]
    }
}

/// A string's characters as JSON writes them, without the quotes.
pub open spec fn spec_json_escape(s: Seq<char>) -> Seq<char>
    decreases s.len(),
{
    if s.len() == 0 {
        Seq::empty()
    } else {
        escaped_char(s[0]) + spec_json_escape(s.drop_first())
    }
}

proof fn lemma_json_escape_push(a: Seq<char>, c: char)
    ensures
        spec_json_escape(a.push(c)) == spec_json_escape(a) + escaped_char(c),
    decreases a.len(),
{
    if a.len() == 0 {
        assert(a.push(c) =~= seq![c]);
        assert(seq![c].drop_first() =~= Seq::<char>::empty());
        assert(spec_json_escape(Seq::<char>::empty()) == Seq::<char>::empty());
        assert(spec_json_escape(seq![c]) =~= escaped_char(c));
        assert(spec_json_escape(a) + escaped_char(c) =~= escaped_char(c));
    } else {
        assert(a.push(c).drop_first() =~= a.drop_first().push(c));
        lemma_json_escape_push(a.drop_first(), c);
        assert(spec_json_escape(a.push(c)) =~= spec_json_escape(a) + escaped_char(c));
    }
}

fn push_escaped(out: &mut String, c: char)
    ensures
        final(out)@ == old(out)@ + escaped_char(c),
{
    if c == '"' {
        push_char(out, '\\');
        push_char(out, '"');
    } else if c == '\\' {
        push_char(out, '\\');
        push_char(out, '\\');
    } else if c == '\u{8}' {
        push_char(out, '\\');
        push_char(out, 'b');
    } else if c == '\t' {
        push_char(out, '\\');
        push_char(out, 't');
    } else if c == '\n' {
        push_char(out, '\\');
        push_char(out, 'n');
    } else if c == '\u{c}' {
        push_char(out, '\\');
        push_char(out, 'f');
    } else if c == '\r' {
        push_char(out, '\\');
        push_char(out, 'r');
    } else if (c as u32) < 0x20 {
        let u: u32 = c as u32;
        let hi: u32 = u / 16;
        let lo: u32 = u % 16;
        let hi_c: char = (('0' as u32 + hi) as u8) as char;
        let lo_c: char = if lo < 10 {
            (('0' as u32 + lo) as u8) as char
        } else {
            (('a' as u32 + (lo - 10)) as u8) as char
        };
        push_char(out, '\\');
        push_char(out, 'u');
        push_char(out, '0');
        push_char(out, '0');
        push_char(out, hi_c);
        push_char(out, lo_c);
        proof {
            assert(final(out)@ =~= old(out)@ + escaped_char(c));
        }
    } else {
        push_char(out, c);
    }
    proof {
        assert(final(out)@ =~= old(out)@ + escaped_char(c));
    }
}

/// A string body as JSON writes it, without the quotes.
pub fn json_escape(s: &str) -> (r: String)
    ensures
        r@ == spec_json_escape(s@),
{
    let len: usize = s.unicode_len();
    let mut out = String::new();
    proof {
        assert(s@.subrange(0, 0) =~= Seq::<char>::empty());
        assert(out@ =~= spec_json_escape(s@.subrange(0, 0)));
    }
    let mut i: usize = 0;
    while i < len
        invariant
            0 <= i <= len,
            len == s@.len(),
            out@ == spec_json_escape(s@.subrange(0, i as int)),
        decreases len - i,
    {
        push_escaped(&mut out, s.get_char(i));
        proof {
            let prefix = s@.subrange(0, i as int);
            assert(s@.subrange(0, i as int + 1) =~= prefix.push(s@[i as int]));
            lemma_json_escape_push(prefix, s@[i as int]);
        }
        i = i + 1;
    }
    proof {
        assert(s@.subrange(0, len as int) =~= s@);
    }
    out
}

/// One request as it goes on the wire: the object with its keys in the
/// order the serializer emits them, terminated by a newline.
pub open spec fn spec_request_line(id: nat, method: Seq<char>, params: RpcParams) -> Seq<char> {
    "{\"id\":"@ + dec_digits(id) + ",\"method\":\""@ + spec_json_escape(method) + "\",\"params\":"@
        + (match params {
        RpcParams::Empty => "{}"@,
        RpcParams::Token(t) => "{\"token\":\""@ + spec_json_escape(t@) + "\"}"@,
    }) + "}"@ + seq!['\n']
}

/// Builds one request line for the protocol.
pub fn build_request_line(id: u64, method: &str, params: &RpcParams) -> (r: String)
    ensures
        r@ == spec_request_line(id as nat, method@, *params),
{
    let a = str_concat("{\"id\":", u64_to_string(id).as_str());
    let b = str_concat(a.as_str(), ",\"method\":\"");
    let c = str_concat(b.as_str(), json_escape(method).as_str());
    let d = str_concat(c.as_str(), "\",\"params\":");
    let e = match params {
        RpcParams::Empty => str_concat(d.as_str(), "{}"),
        RpcParams::Token(t) => {
            let p1 = str_concat(d.as_str(), "{\"token\":\"");
            let p2 = str_concat(p1.as_str(), json_escape(t.as_str()).as_str());
            str_concat(p2.as_str(), "\"}")
        },
    };
    let mut out = str_concat(e.as_str(), "}");
    push_char(&mut out, '\n');
    proof {
        assert(out@ =~= spec_request_line(id as nat, method@, *params));
    }
    out
}

/// What one received line means while waiting for a response.
pub enum LineStep {
    /// A blank line: read on.
    SkipBlank,
    /// Not JSON: the protocol is broken, with the parser's message.
    Malformed(String),
    /// A response for some other request: read on.
    OtherId,
    /// The response with the awaited id.
    Matched(serde_json::Value),
}

/// Classifies one received line against the awaited id: blank lines
/// are skipped, malformed text is fatal, a document whose `id` equals
/// the awaited one is the answer, and everything else belongs to some
/// other request.
pub fn response_line_step(line: &str, expected_id: u64) -> (r: LineStep)
    ensures
        (r is SkipBlank) <==> (crate::chars::spec_trim(line@).len() == 0),
        (r is Malformed) <==> (crate::chars::spec_trim(line@).len() > 0 && !line_parses(line@)),
        (r is Matched) <==> (crate::chars::spec_trim(line@).len() > 0 && line_parses(line@)
            && line_id_of(line@) == Some(expected_id)),
        (r is OtherId) <==> (crate::chars::spec_trim(line@).len() > 0 && line_parses(line@)
            && line_id_of(line@) != Some(expected_id)),
{
    let t = trim_str(line);
    if t.as_str().unicode_len() == 0 {
        return LineStep::SkipBlank;
    }
    let (v, id) = match json_parse_line(line) {
        Ok(p) => p,
        Err(e) => {
            return LineStep::Malformed(e);
        },
    };
    match id {
        Some(id) => {
            if id == expected_id {
                LineStep::Matched(v)
            } else {
                LineStep::OtherId
            }
        },
        None => LineStep::OtherId,
    }
}

/// Splits a matched response, read as its two fields, into a result or
/// an error: a present `error.message` wins verbatim, then a present
/// `result` succeeds, and a response with neither is itself an error.
pub fn expect_result(error_message: Option<String>, result: Option<serde_json::Value>) -> (r:
    Result<serde_json::Value, String>)
    ensures
        error_message matches Option::Some(m) ==> (r matches Result::Err(e) && e@ == m@),
        (error_message is None && result is Some) ==> r == Result::<
            serde_json::Value,
            String,
        >::Ok(result->Some_0),
        (error_message is None && result is None) ==> (r matches Result::Err(e) && e@
            == "daemon response missing result"@),
{
    if let Some(message) = error_message {
        return Err(message);
    }
    match result {
        Some(value) => Ok(value),
        None => Err(String::from_str("daemon response missing result")),
    }
}

/// Splits one matched response into its result or its error message.
/// The two field reads go through the document accessors; the decision
/// between them is `expect_result`, whose contract fixes it.
pub fn split_response(response: &serde_json::Value) -> (r: Result<serde_json::Value, String>) {
    expect_result(parse_daemon_error_message(response), json_take_field(response, "result"))
}

/// The deadline message of the response read, fixed per round trip.
pub fn rpc_timeout_message() -> (r: String)
    ensures
        r@ == "timed out waiting for daemon response"@,
{
    String::from_str("timed out waiting for daemon response")
}

/// The end-of-stream message of the response read.
pub fn rpc_closed_message() -> (r: String)
    ensures
        r@ == "connection closed"@,
{
    String::from_str("connection closed")
}

/// The identity decision over the raw field reads: the name, version
/// and mode must trim to something; the returned fields are exactly
/// those trims; the pid is kept only when it fits; and the error names
/// the first field that is missing or blank.
pub fn daemon_info_from_fields(
    name_raw: Option<String>,
    version_raw: Option<String>,
    mode_raw: Option<String>,
    pid_raw: Option<u64>,
    binary_path_raw: Option<String>,
) -> (r: Result<DaemonInfo, String>)
    ensures
        (r is Ok) <==> (spec_trim_non_empty(opt_str_view(name_raw)) is Some && spec_trim_non_empty(
            opt_str_view(version_raw),
        ) is Some && spec_trim_non_empty(opt_str_view(mode_raw)) is Some),
        r matches Result::Ok(info) ==> {
            &&& Some(info.name@) == spec_trim_non_empty(opt_str_view(name_raw))
            &&& Some(info.version@) == spec_trim_non_empty(opt_str_view(version_raw))
            &&& Some(info.mode@) == spec_trim_non_empty(opt_str_view(mode_raw))
            &&& info.pid == (match pid_raw {
                Option::Some(p) => if p <= 0xFFFF_FFFF {
                    Option::<u32>::Some(p as u32)
                } else {
                    Option::<u32>::None
                },
                Option::None => Option::<u32>::None,
            })
            &&& opt_str_view(info.binary_path) == spec_trim_non_empty(
                opt_str_view(binary_path_raw),
            )
        },
        r matches Result::Err(m) ==> m@ == (if spec_trim_non_empty(
            opt_str_view(name_raw),
        ) is None {
            "daemon_info missing `name`"@
        } else if spec_trim_non_empty(opt_str_view(version_raw)) is None {
            "daemon_info missing `version`"@
        } else {
            "daemon_info missing `mode`"@
        }),
{
    let name = match trim_non_empty(
        match &name_raw {
            Some(s) => Some(s.as_str()),
            None => None,
        },
    ) {
        Some(v) => v,
        None => {
            return Err(String::from_str("daemon_info missing `name`"));
        },
    };
    let version = match trim_non_empty(
        match &version_raw {
            Some(s) => Some(s.as_str()),
            None => None,
        },
    ) {
        Some(v) => v,
        None => {
            return Err(String::from_str("daemon_info missing `version`"));
        },
    };
    let mode = match trim_non_empty(
        match &mode_raw {
            Some(s) => Some(s.as_str()),
            None => None,
        },
    ) {
        Some(v) => v,
        None => {
            return Err(String::from_str("daemon_info missing `mode`"));
        },
    };
    let pid: Option<u32> = match pid_raw {
        Some(p) => {
            if p <= 0xFFFF_FFFF {
                Some(p as u32)
            } else {
                None
            }
        },
        None => None,
    };
    let binary_path = trim_non_empty(
        match &binary_path_raw {
            Some(s) => Some(s.as_str()),
            None => None,
        },
    );
    Ok(DaemonInfo { name, version, pid, mode, binary_path })
}

/// Reads the identity fields out of a `daemon_info` result.  The field
/// reads go through the document accessors; every decision about them
/// is `daemon_info_from_fields`, whose contract fixes the outcome.
pub fn parse_daemon_info(value: &serde_json::Value) -> (r: Result<DaemonInfo, String>)
    ensures
        r matches Result::Ok(info) ==> {
            &&& info.name@.len() > 0 && info.name@ == crate::chars::spec_trim(info.name@)
            &&& info.version@.len() > 0 && info.version@ == crate::chars::spec_trim(info.version@)
            &&& info.mode@.len() > 0 && info.mode@ == crate::chars::spec_trim(info.mode@)
            &&& (info.binary_path matches Option::Some(b) ==> b@.len() > 0 && b@
                == crate::chars::spec_trim(b@))
        },
{
    let name_raw = json_str_field(value, "name");
    let version_raw = json_str_field(value, "version");
    let mode_raw = json_str_field(value, "mode");
    let pid_raw = json_u64_field(value, "pid");
    let bp_raw = json_str_field(value, "binaryPath");
    proof {
        crate::chars::lemma_trim_idempotent(match &name_raw {
            Option::Some(s) => s@,
            Option::None => Seq::empty(),
        });
        crate::chars::lemma_trim_idempotent(match &version_raw {
            Option::Some(s) => s@,
            Option::None => Seq::empty(),
        });
        crate::chars::lemma_trim_idempotent(match &mode_raw {
            Option::Some(s) => s@,
            Option::None => Seq::empty(),
        });
        crate::chars::lemma_trim_idempotent(match &bp_raw {
            Option::Some(s) => s@,
            Option::None => Seq::empty(),
        });
    }
    daemon_info_from_fields(name_raw, version_raw, mode_raw, pid_raw, bp_raw)
}

} // verus!
