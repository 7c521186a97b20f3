//! Validation rules for tool-server configuration entries: the name
//! grammar and the connection shape.  Reading and writing the
//! configuration document itself is the caller's business.
use crate::chars::is_space_char;
use crate::chars::spec_trim;
use crate::chars::trim_str;
use vstd::prelude::*;
use vstd::string::StrSliceExecFns;
use vstd::string::StringExecFns;

verus! {

/// A character a server name may carry: ASCII letters and digits,
/// `.`, `_` and `-`.
pub open spec fn is_server_name_char(c: char) -> bool {
    ('a' <= c && c <= 'z') || ('A' <= c && c <= 'Z') || ('0' <= c && c <= '9') || c == '_' || c
        == '-' || c == '.'
}

fn server_name_char_ok(c: char) -> (r: bool)
    ensures
        r == is_server_name_char(c),
{
    ('a' <= c && c <= 'z') || ('A' <= c && c <= 'Z') || ('0' <= c && c <= '9') || c == '_' || c
        == '-' || c == '.'
}

/// The checks on a server name, in the order they are reported: the
/// trimmed name must be non-empty, at most 64 characters, without
/// blanks, and drawn from the name alphabet.
pub open spec fn spec_normalize_server_name(raw: Seq<char>) -> Result<Seq<char>, Seq<char>> {
    let t = spec_trim(raw);
    if t.len() == 0 {
        Err("MCP server name is required"@)
    } else if t.len() > 64 {
        Err("MCP server name must be 64 characters or fewer"@)
    } else if exists|i: int| 0 <= i < t.len() && is_space_char(#[trigger] t[i]) {
        Err("MCP server name must not contain spaces"@)
    } else if exists|i: int| 0 <= i < t.len() && !is_server_name_char(#[trigger] t[i]) {
        Err("MCP server name must use only letters, digits, '.', '_' or '-'"@)
    } else {
        Ok(t)
    }
}

#[verifier::loop_isolation(false)]
pub fn normalize_server_name(raw: &str) -> (r: Result<String, String>)
    ensures
        (r is Ok) == (spec_normalize_server_name(raw@) is Ok),
        r matches Result::Ok(v) ==> Result::<Seq<char>, Seq<char>>::Ok(v@)
            == spec_normalize_server_name(raw@),
        r matches Result::Err(m) ==> Result::<Seq<char>, Seq<char>>::Err(m@)
            == spec_normalize_server_name(raw@),
{
    let trimmed = trim_str(raw);
    let t = trimmed.as_str();
    let len: usize = t.unicode_len();
    if len == 0 {
        return Err(String::from_str("MCP server name is required"));
    }
    if len > 64 {
        return Err(String::from_str("MCP server name must be 64 characters or fewer"));
    }
    let mut i: usize = 0;
    while i < len
        invariant
            0 <= i <= len,
            len == t@.len(),
            t@ == spec_trim(raw@),
            forall|j: int| 0 <= j < i ==> !is_space_char(#[trigger] t@[j]),
        decreases len - i,
    {
        if crate::chars::is_space(t.get_char(i)) {
            proof {
                assert(is_space_char(t@[i as int]));
            }
            return Err(String::from_str("MCP server name must not contain spaces"));
        }
        i = i + 1;
    }
    let mut k: usize = 0;
    while k < len
        invariant
            0 <= k <= len,
            len == t@.len(),
            t@ == spec_trim(raw@),
            forall|j: int| 0 <= j < len ==> !is_space_char(#[trigger] t@[j]),
            forall|j: int| 0 <= j < k ==> is_server_name_char(#[trigger] t@[j]),
        decreases len - k,
    {
        if !server_name_char_ok(t.get_char(k)) {
            proof {
                assert(!is_server_name_char(t@[k as int]));
            }
            return Err(
                String::from_str("MCP server name must use only letters, digits, '.', '_' or '-'"),
            );
        }
        k = k + 1;
    }
    Ok(trimmed)
}

/// The connection shape: a command or a URL must be set, and argument
/// lists and environment entries make sense only with a command.
pub open spec fn spec_validate_connection_shape(
    command: Option<Seq<char>>,
    url: Option<Seq<char>>,
    args_len: int,
    env_len: int,
) -> Result<(), Seq<char>> {
    let has_command = match command {
        Option::Some(c) => spec_trim(c).len() > 0,
        Option::None => false,
    };
    let has_url = match url {
        Option::Some(u) => spec_trim(u).len() > 0,
        Option::None => false,
    };
    if !has_command && !has_url {
        Err("Set either command or url for the MCP server"@)
    } else if !has_command && args_len > 0 {
        Err("args requires command"@)
    } else if !has_command && env_len > 0 {
        Err("env requires command"@)
    } else {
        Ok(())
    }
}

pub fn validate_connection_shape(
    command: Option<&str>,
    url: Option<&str>,
    args: &Vec<String>,
    env: &Vec<(String, String)>,
) -> (r: Result<(), String>)
    ensures
        (r is Ok) == (spec_validate_connection_shape(
            crate::profiles::opt_view(command),
            crate::profiles::opt_view(url),
            args@.len() as int,
            env@.len() as int,
        ) is Ok),
        r matches Result::Err(m) ==> Result::<(), Seq<char>>::Err(m@)
            == spec_validate_connection_shape(
            crate::profiles::opt_view(command),
            crate::profiles::opt_view(url),
            args@.len() as int,
            env@.len() as int,
        ),
{
    let has_command = match command {
        Some(c) => trim_str(c).as_str().unicode_len() > 0,
        None => false,
    };
    let has_url = match url {
        Some(u) => trim_str(u).as_str().unicode_len() > 0,
        None => false,
    };
    if !has_command && !has_url {
        return Err(String::from_str("Set either command or url for the MCP server"));
    }
    if !has_command && args.len() > 0 {
        return Err(String::from_str("args requires command"));
    }
    if !has_command && env.len() > 0 {
        return Err(String::from_str("env requires command"));
    }
    Ok(())
}

/// The trimmed text, when the optional string is there and not blank.
pub fn normalize_optional_string(value: Option<String>) -> (r: Option<String>)
    ensures
        r is Some <==> (value is Some && spec_trim(value->Some_0@).len() > 0),
        r matches Option::Some(v) ==> v@ == spec_trim(value->Some_0@),
{
    match value {
        None => None,
        Some(text) => {
            let t = trim_str(text.as_str());
            if t.as_str().unicode_len() == 0 {
                None
            } else {
                Some(t)
            }
        },
    }
}

/// The structured fields of a server entry, which free-form additions
/// may not redefine.
pub open spec fn spec_known_server_key(key: Seq<char>) -> bool {
    key == "enabled"@ || key == "command"@ || key == "args"@ || key == "env"@ || key == "url"@
        || key == "headers"@
}

pub fn is_known_server_key(key: &str) -> (r: bool)
    ensures
        r == spec_known_server_key(key@),
{
    crate::chars::str_eq(key, "enabled") || crate::chars::str_eq(key, "command")
        || crate::chars::str_eq(key, "args") || crate::chars::str_eq(key, "env")
        || crate::chars::str_eq(key, "url") || crate::chars::str_eq(key, "headers")
}

} // verus!
