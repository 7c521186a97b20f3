//! Parsers over the output of the OS process-listing utilities, mapping
//! a bound TCP port to the owning process id.  A listener is matched
//! only when its address column names exactly the queried port, never a
//! numeric prefix of it.
use crate::addr::valid_port;
use crate::chars::all_digits;
use crate::chars::contains_str;
use crate::chars::digits_val;
use crate::chars::is_space;
use crate::chars::is_space_char;
use crate::chars::parse_decimal_capped;
use crate::chars::spec_contains;
use crate::chars::spec_trim;
use crate::chars::trim_str;
use crate::scan::last_idx_of;
use crate::scan::lemma_last_idx_of;
use crate::scan::split_char;
use crate::scan::split_on;
use vstd::prelude::*;
use vstd::string::StrSliceExecFns;

verus! {

/// The port named by one address column token: the decimal value after
/// the last colon of the trimmed token, and nothing else.  `47320`
/// after the colon never matches a query for port `4732`.
pub open spec fn spec_port_from_addr_token(value: Seq<char>) -> Option<u16> {
    let t = spec_trim(value);
    let j = last_idx_of(t, ':');
    if !(0 <= j < t.len()) {
        None
    } else {
        let port = t.subrange(j + 1, t.len() as int);
        if valid_port(port) {
            Some(digits_val(port) as u16)
        } else {
            None
        }
    }
}

pub fn parse_port_from_addr_token(value: &str) -> (r: Option<u16>)
    ensures
        r == spec_port_from_addr_token(value@),
{
    let t_owned = trim_str(value);
    let t = t_owned.as_str();
    let len: usize = t.unicode_len();
    let j = match crate::scan::rfind_char(t, ':') {
        Some(j) => j,
        None => {
            proof {
                lemma_last_idx_of(t@, ':');
            }
            return None;
        },
    };
    proof {
        lemma_last_idx_of(t@, ':');
    }
    let port_s = t.substring_char(j + 1, len);
    match parse_decimal_capped(port_s, 65535) {
        Some(v) => Some(v as u16),
        None => None,
    }
}

/// Length of the leading run of non-whitespace characters.
pub open spec fn run_len(s: Seq<char>) -> int
    decreases s.len(),
{
    if s.len() == 0 {
        0
    } else if is_space_char(s[0]) {
        0
    } else {
        1 + run_len(s.drop_first())
    }
}

proof fn lemma_run_len(s: Seq<char>)
    ensures
        0 <= run_len(s) <= s.len(),
        forall|i: int| 0 <= i < run_len(s) ==> !is_space_char(#[trigger] s[i]),
        run_len(s) < s.len() ==> is_space_char(s[run_len(s)]),
    decreases s.len(),
{
    if s.len() > 0 && !is_space_char(s[0]) {
        lemma_run_len(s.drop_first());
        let k = run_len(s.drop_first());
        assert forall|i: int| 0 <= i < 1 + k implies !is_space_char(s[i]) by {
            if i > 0 {
                assert(s.drop_first()[i - 1] == s[i]);
            }
        }
        if 1 + k < s.len() {
            assert(s.drop_first()[k] == s[k + 1]);
        }
    }
}

proof fn lemma_run_len_at(s: Seq<char>, k: int)
    requires
        0 <= k <= s.len(),
        forall|i: int| 0 <= i < k ==> !is_space_char(#[trigger] s[i]),
        k < s.len() ==> is_space_char(s[k]),
    ensures
        run_len(s) == k,
    decreases s.len(),
{
    if s.len() > 0 && !is_space_char(s[0]) {
        assert forall|i: int| 0 <= i < k - 1 implies !is_space_char(s.drop_first()[i]) by {
            assert(s.drop_first()[i] == s[i + 1]);
        }
        if k - 1 < s.len() - 1 {
            assert(s.drop_first()[k - 1] == s[k]);
        }
        lemma_run_len_at(s.drop_first(), k - 1);
    }
}

/// What `str::split_whitespace` yields: the maximal non-blank runs.
pub open spec fn ws_tokens(s: Seq<char>) -> Seq<Seq<char>>
    decreases s.len(),
{
    if s.len() == 0 {
        Seq::empty()
    } else if is_space_char(s[0]) {
        ws_tokens(s.drop_first())
    } else {
        let k = run_len(s);
        if 1 <= k <= s.len() {
            seq![s.subrange(0, k)] + ws_tokens(s.subrange(k, s.len() as int))
        } else {
            Seq::empty()
        }
    }
}

pub fn split_whitespace_tokens(s: &str) -> (r: Vec<String>)
    ensures
        r.deep_view() == ws_tokens(s@),
{
    let len: usize = s.unicode_len();
    proof {
        assert(s@.subrange(0, len as int) =~= s@);
    }
    let mut out: Vec<String> = Vec::new();
    let mut i: usize = 0;
    while i < len
        invariant
            0 <= i <= len,
            len == s@.len(),
            ws_tokens(s@) == out.deep_view() + ws_tokens(s@.subrange(i as int, len as int)),
        decreases len - i,
    {
        if is_space(s.get_char(i)) {
            proof {
                let rest = s@.subrange(i as int, len as int);
                assert(rest.drop_first() =~= s@.subrange(i as int + 1, len as int));
            }
            i = i + 1;
        } else {
            let start = i;
            let mut j: usize = i;
            while j < len && !is_space(s.get_char(j))
                invariant
                    start <= j <= len,
                    len == s@.len(),
                    forall|t: int| start <= t < j ==> !is_space_char(#[trigger] s@[t]),
                decreases len - j,
            {
                j = j + 1;
            }
            let piece = s.substring_char(start, j);
            out.push(String::from_str(piece));
            proof {
                let rest = s@.subrange(start as int, len as int);
                assert(forall|t: int|
                    0 <= t < rest.len() ==> rest[t] == #[trigger] s@[start + t]);
                lemma_run_len_at(rest, j as int - start as int);
                assert(rest.subrange(0, j as int - start as int) =~= s@.subrange(
                    start as int,
                    j as int,
                ));
                assert(rest.subrange(j as int - start as int, rest.len() as int) =~= s@.subrange(
                    j as int,
                    len as int,
                ));
                assert(out.deep_view() =~= out.deep_view().subrange(0, out.deep_view().len() - 1)
                    .push(piece@));
            }
            i = j;
        }
    }
    proof {
        assert(s@.subrange(len as int, len as int) =~= Seq::<char>::empty());
        assert(out.deep_view() =~= out.deep_view() + ws_tokens(Seq::<char>::empty()));
    }
    out
}

/// A decimal `u32`, as `str::parse` accepts it from these utilities.
pub open spec fn valid_u32_digits(s: Seq<char>) -> bool {
    s.len() > 0 && all_digits(s) && digits_val(s) <= 0xFFFF_FFFF
}

/// A `pid=<n>` token of the socket-statistics process column.
pub open spec fn is_pid_assign(t: Seq<char>) -> bool {
    t.len() >= 4 && t.subrange(0, 4) == "pid="@ && valid_u32_digits(t.skip(4))
}

pub open spec fn pid_assign_val(t: Seq<char>) -> int {
    digits_val(t.skip(4))
}

/// Separators of the socket-statistics process column: blanks,
/// parentheses and commas.
pub open spec fn is_ss_sep(c: char) -> bool {
    is_space_char(c) || c == '(' || c == ')' || c == ','
}

pub open spec fn first_sep_idx(s: Seq<char>) -> int
    decreases s.len(),
{
    if s.len() == 0 {
        -1
    } else if is_ss_sep(s[0]) {
        0
    } else if first_sep_idx(s.drop_first()) < 0 {
        -1
    } else {
        1 + first_sep_idx(s.drop_first())
    }
}

proof fn lemma_first_sep_idx(s: Seq<char>)
    ensures
        first_sep_idx(s) >= -1,
        first_sep_idx(s) == -1 ==> forall|j: int| 0 <= j < s.len() ==> !is_ss_sep(#[trigger] s[j]),
        first_sep_idx(s) >= 0 ==> 0 <= first_sep_idx(s) < s.len() && is_ss_sep(s[first_sep_idx(s)])
            && forall|j: int| 0 <= j < first_sep_idx(s) ==> !is_ss_sep(#[trigger] s[j]),
    decreases s.len(),
{
    if s.len() > 0 && !is_ss_sep(s[0]) {
        lemma_first_sep_idx(s.drop_first());
        let f = first_sep_idx(s.drop_first());
        if f < 0 {
            assert forall|j: int| 0 <= j < s.len() implies !is_ss_sep(s[j]) by {
                if j > 0 {
                    assert(s.drop_first()[j - 1] == s[j]);
                }
            }
        } else {
            assert(s.drop_first()[f] == s[f + 1]);
            assert forall|j: int| 0 <= j < 1 + f implies !is_ss_sep(s[j]) by {
                if j > 0 {
                    assert(s.drop_first()[j - 1] == s[j]);
                }
            }
        }
    }
}

proof fn lemma_first_sep_idx_at(s: Seq<char>, k: int)
    requires
        0 <= k < s.len(),
        is_ss_sep(s[k]),
        forall|j: int| 0 <= j < k ==> !is_ss_sep(#[trigger] s[j]),
    ensures
        first_sep_idx(s) == k,
    decreases s.len(),
{
    if k > 0 {
        assert(s.drop_first()[k - 1] == s[k]);
        assert forall|j: int| 0 <= j < k - 1 implies !is_ss_sep(s.drop_first()[j]) by {
            assert(s.drop_first()[j] == s[j + 1]);
        }
        lemma_first_sep_idx_at(s.drop_first(), k - 1);
    }
}

/// The pieces between separators of the process column, empties kept,
/// as `str::split` with a separator set yields them.
pub open spec fn split_ss_seps(s: Seq<char>) -> Seq<Seq<char>>
    decreases s.len(),
{
    let i = first_sep_idx(s);
    if 0 <= i && i < s.len() {
        seq![s.subrange(0, i)] + split_ss_seps(s.subrange(i + 1, s.len() as int))
    } else {
        seq![s]
    }
}

fn split_ss_sep_tokens(s: &str) -> (r: Vec<String>)
    ensures
        r.deep_view() == split_ss_seps(s@),
{
    let len: usize = s.unicode_len();
    proof {
        assert(s@.subrange(0, len as int) =~= s@);
    }
    let mut out: Vec<String> = Vec::new();
    let mut start: usize = 0;
    let mut i: usize = 0;
    while i < len
        invariant
            0 <= start <= i <= len,
            len == s@.len(),
            split_ss_seps(s@) == out.deep_view() + split_ss_seps(
                s@.subrange(start as int, len as int),
            ),
            forall|j: int| start <= j < i ==> !is_ss_sep(#[trigger] s@[j]),
        decreases len - i,
    {
        let c = s.get_char(i);
        if is_space(c) || c == '(' || c == ')' || c == ',' {
            let piece = s.substring_char(start, i);
            out.push(String::from_str(piece));
            proof {
                let rest = s@.subrange(start as int, len as int);
                assert(forall|j: int|
                    0 <= j < rest.len() ==> rest[j] == #[trigger] s@[start + j]);
                lemma_first_sep_idx_at(rest, i as int - start as int);
                assert(rest.subrange(0, i as int - start as int) =~= s@.subrange(
                    start as int,
                    i as int,
                ));
                assert(rest.subrange(i as int - start as int + 1, rest.len() as int) =~= s@.subrange(
                    i as int + 1,
                    len as int,
                ));
                assert(out.deep_view() =~= out.deep_view().subrange(0, out.deep_view().len() - 1)
                    .push(piece@));
            }
            start = i + 1;
        }
        i = i + 1;
    }
    let piece = s.substring_char(start, len);
    out.push(String::from_str(piece));
    proof {
        let rest = s@.subrange(start as int, len as int);
        assert(forall|j: int| 0 <= j < rest.len() ==> rest[j] == #[trigger] s@[start + j]);
        lemma_first_sep_idx(rest);
        if first_sep_idx(rest) >= 0 {
            assert(is_ss_sep(rest[first_sep_idx(rest)]));
        }
        assert(out.deep_view() =~= out.deep_view().subrange(0, out.deep_view().len() - 1).push(
            rest,
        ));
    }
    out
}

/// The first `pid=<n>` among the tokens, as the scan finds it.
pub open spec fn first_pid_token(toks: Seq<Seq<char>>) -> Option<u32>
    decreases toks.len(),
{
    if toks.len() == 0 {
        None
    } else if is_pid_assign(toks[0]) {
        Some(pid_assign_val(toks[0]) as u32)
    } else {
        first_pid_token(toks.drop_first())
    }
}

/// `s` begins with `prefix`.
pub open spec fn spec_starts_with(s: Seq<char>, prefix: Seq<char>) -> bool {
    s.len() >= prefix.len() && s.subrange(0, prefix.len() as int) == prefix
}

pub fn starts_with(s: &str, prefix: &str) -> (r: bool)
    ensures
        r == spec_starts_with(s@, prefix@),
{
    let s_len: usize = s.unicode_len();
    let p_len: usize = prefix.unicode_len();
    if p_len > s_len {
        return false;
    }
    let mut i: usize = 0;
    while i < p_len
        invariant
            0 <= i <= p_len <= s_len,
            s_len == s@.len(),
            p_len == prefix@.len(),
            forall|t: int| 0 <= t < i ==> s@[t] == prefix@[t],
        decreases p_len - i,
    {
        if s.get_char(i) != prefix.get_char(i) {
            proof {
                assert(s@.subrange(0, prefix@.len() as int)[i as int] != prefix@[i as int]);
            }
            return false;
        }
        i = i + 1;
    }
    proof {
        assert(s@.subrange(0, prefix@.len() as int) =~= prefix@);
    }
    true
}

/// Extracts the pid from one `pid=<n>` token, if the token is one.
fn pid_token_value(t: &str) -> (r: Option<u32>)
    ensures
        (r is Some) == is_pid_assign(t@),
        r is Some ==> r->Some_0 == pid_assign_val(t@),
{
    let len: usize = t.unicode_len();
    if !starts_with(t, "pid=") {
        return None;
    }
    proof {
        reveal_strlit("pid=");
    }
    let rest = t.substring_char(4, len);
    proof {
        assert(rest@ =~= t@.skip(4));
    }
    match parse_decimal_capped(rest, 0xFFFF_FFFF) {
        Some(v) => Some(v as u32),
        None => None,
    }
}

/// The pid on one socket-statistics line: the line must say LISTEN, its
/// fourth column must name exactly the queried port, and the process
/// column supplies the first `pid=<n>` token.
pub open spec fn spec_ss_line_pid(line: Seq<char>, port: u16) -> Option<u32> {
    if !spec_contains(line, "LISTEN"@) {
        None
    } else {
        let cols = ws_tokens(line);
        if cols.len() <= 3 {
            None
        } else if spec_port_from_addr_token(cols[3]) != Some(port) {
            None
        } else {
            first_pid_token(split_ss_seps(line))
        }
    }
}

#[verifier::loop_isolation(false)]
fn ss_line_pid(line: &str, port: u16) -> (r: Option<u32>)
    ensures
        r == spec_ss_line_pid(line@, port),
{
    if !contains_str(line, "LISTEN") {
        return None;
    }
    let cols = split_whitespace_tokens(line);
    if cols.len() <= 3 {
        proof {
            assert(cols.deep_view().len() == cols@.len());
        }
        return None;
    }
    proof {
        assert(cols.deep_view().len() == cols@.len());
        assert(cols.deep_view()[3] == cols@[3].deep_view());
    }
    let col_port = parse_port_from_addr_token(cols[3].as_str());
    let port_matches = match col_port {
        Some(p) => p == port,
        None => false,
    };
    if !port_matches {
        return None;
    }
    let toks = split_ss_sep_tokens(line);
    let n: usize = toks.len();
    proof {
        assert(toks.deep_view().len() == toks@.len());
        assert(split_ss_seps(line@).skip(0) =~= split_ss_seps(line@));
    }
    let mut i: usize = 0;
    while i < n
        invariant
            0 <= i <= n,
            n == toks@.len(),
            toks.deep_view() == split_ss_seps(line@),
            first_pid_token(split_ss_seps(line@)) == first_pid_token(
                split_ss_seps(line@).skip(i as int),
            ),
        decreases n - i,
    {
        proof {
            assert(toks.deep_view()[i as int] == toks@[i as int].deep_view());
            assert(split_ss_seps(line@).skip(i as int)[0] == toks@[i as int]@);
        }
        if let Some(pid) = pid_token_value(toks[i].as_str()) {
            proof {
                let rest = split_ss_seps(line@).skip(i as int);
                assert(first_pid_token(rest) == Some(pid));
            }
            return Some(pid);
        }
        proof {
            let rest = split_ss_seps(line@).skip(i as int);
            assert(rest.drop_first() =~= split_ss_seps(line@).skip(i as int + 1));
        }
        i = i + 1;
    }
    proof {
        assert(split_ss_seps(line@).skip(n as int) =~= Seq::<Seq<char>>::empty());
    }
    None
}

/// The first line of the output that yields a pid.
pub open spec fn first_line_pid(
    lines: Seq<Seq<char>>,
    port: u16,
    netstat: bool,
) -> Option<u32>
    decreases lines.len(),
{
    if lines.len() == 0 {
        None
    } else {
        let r = if netstat {
            spec_netstat_line_pid(lines[0], port)
        } else {
            spec_ss_line_pid(lines[0], port)
        };
        if r is Some {
            r
        } else {
            first_line_pid(lines.drop_first(), port, netstat)
        }
    }
}

/// What the socket-statistics listener scan returns for a port: the
/// first LISTEN line whose local-address column names exactly that
/// port, read for its `pid=<n>` annotation.
pub open spec fn spec_parse_ss_listener_pid(output: Seq<char>, port: u16) -> Option<u32> {
    first_line_pid(split_on(output, '\n'), port, false)
}

#[verifier::loop_isolation(false)]
pub fn parse_ss_listener_pid(output: &str, port: u16) -> (r: Option<u32>)
    ensures
        r == spec_parse_ss_listener_pid(output@, port),
{
    let lines = split_char(output, '\n');
    let n: usize = lines.len();
    proof {
        assert(lines.deep_view().len() == lines@.len());
        assert(split_on(output@, '\n').skip(0) =~= split_on(output@, '\n'));
    }
    let mut i: usize = 0;
    while i < n
        invariant
            0 <= i <= n,
            n == lines@.len(),
            lines.deep_view() == split_on(output@, '\n'),
            first_line_pid(split_on(output@, '\n'), port, false) == first_line_pid(
                split_on(output@, '\n').skip(i as int),
                port,
                false,
            ),
        decreases n - i,
    {
        proof {
            assert(lines.deep_view()[i as int] == lines@[i as int].deep_view());
            assert(split_on(output@, '\n').skip(i as int)[0] == lines@[i as int]@);
        }
        if let Some(pid) = ss_line_pid(lines[i].as_str(), port) {
            return Some(pid);
        }
        proof {
            let rest = split_on(output@, '\n').skip(i as int);
            assert(rest.drop_first() =~= split_on(output@, '\n').skip(i as int + 1));
        }
        i = i + 1;
    }
    proof {
        assert(split_on(output@, '\n').skip(n as int) =~= Seq::<Seq<char>>::empty());
    }
    None
}

/// The pid read from the tail of one network-statistics token:
/// the digits before its first slash.
pub open spec fn spec_netstat_tok_pid(t: Seq<char>) -> Option<u32> {
    let j = crate::scan::first_idx_of(t, '/');
    if !(0 <= j < t.len()) {
        None
    } else if valid_u32_digits(t.subrange(0, j)) {
        Some(digits_val(t.subrange(0, j)) as u32)
    } else {
        None
    }
}

fn netstat_tok_pid(t: &str) -> (r: Option<u32>)
    ensures
        r == spec_netstat_tok_pid(t@),
{
    let len: usize = t.unicode_len();
    let j = match crate::scan::find_char(t, '/') {
        Some(j) => j,
        None => {
            proof {
                crate::scan::lemma_first_idx_of(t@, '/');
            }
            return None;
        },
    };
    proof {
        crate::scan::lemma_first_idx_of(t@, '/');
    }
    let pid_s = t.substring_char(0, j);
    match parse_decimal_capped(pid_s, 0xFFFF_FFFF) {
        Some(v) => Some(v as u32),
        None => None,
    }
}

/// The rightmost token of the columns that names a pid before a slash,
/// as the reversed scan of the line finds it.
pub open spec fn last_netstat_pid(toks: Seq<Seq<char>>) -> Option<u32>
    decreases toks.len(),
{
    if toks.len() == 0 {
        None
    } else if spec_netstat_tok_pid(toks.last()) is Some {
        spec_netstat_tok_pid(toks.last())
    } else {
        last_netstat_pid(toks.drop_last())
    }
}

/// The pid on one network-statistics line: the line must say LISTEN,
/// its fourth column must name exactly the queried port, and the
/// rightmost `pid/name` token supplies the pid.
pub open spec fn spec_netstat_line_pid(line: Seq<char>, port: u16) -> Option<u32> {
    if !spec_contains(line, "LISTEN"@) {
        None
    } else {
        let cols = ws_tokens(line);
        if cols.len() <= 3 {
            None
        } else if spec_port_from_addr_token(cols[3]) != Some(port) {
            None
        } else {
            last_netstat_pid(cols)
        }
    }
}

#[verifier::loop_isolation(false)]
fn netstat_line_pid(line: &str, port: u16) -> (r: Option<u32>)
    ensures
        r == spec_netstat_line_pid(line@, port),
{
    if !contains_str(line, "LISTEN") {
        return None;
    }
    let cols = split_whitespace_tokens(line);
    let n: usize = cols.len();
    proof {
        assert(cols.deep_view().len() == cols@.len());
    }
    if n <= 3 {
        return None;
    }
    proof {
        assert(cols.deep_view()[3] == cols@[3].deep_view());
    }
    let col_port = parse_port_from_addr_token(cols[3].as_str());
    let port_matches = match col_port {
        Some(p) => p == port,
        None => false,
    };
    if !port_matches {
        return None;
    }
    proof {
        assert(ws_tokens(line@).take(n as int) =~= ws_tokens(line@));
    }
    let mut i: usize = n;
    while i > 0
        invariant
            0 <= i <= n,
            n == cols@.len(),
            cols.deep_view() == ws_tokens(line@),
            last_netstat_pid(ws_tokens(line@)) == last_netstat_pid(
                ws_tokens(line@).take(i as int),
            ),
        decreases i,
    {
        proof {
            assert(cols.deep_view()[i - 1] == cols@[i - 1].deep_view());
            assert(ws_tokens(line@).take(i as int).last() == cols@[i - 1]@);
        }
        if let Some(pid) = netstat_tok_pid(cols[i - 1].as_str()) {
            return Some(pid);
        }
        proof {
            let t = ws_tokens(line@).take(i as int);
            assert(t.drop_last() =~= ws_tokens(line@).take(i as int - 1));
        }
        i = i - 1;
    }
    proof {
        assert(ws_tokens(line@).take(0) =~= Seq::<Seq<char>>::empty());
    }
    None
}

/// What the network-statistics listener scan returns for a port.
pub open spec fn spec_parse_netstat_listener_pid(output: Seq<char>, port: u16) -> Option<u32> {
    first_line_pid(split_on(output, '\n'), port, true)
}

#[verifier::loop_isolation(false)]
pub fn parse_netstat_listener_pid(output: &str, port: u16) -> (r: Option<u32>)
    ensures
        r == spec_parse_netstat_listener_pid(output@, port),
{
    let lines = split_char(output, '\n');
    let n: usize = lines.len();
    proof {
        assert(lines.deep_view().len() == lines@.len());
        assert(split_on(output@, '\n').skip(0) =~= split_on(output@, '\n'));
    }
    let mut i: usize = 0;
    while i < n
        invariant
            0 <= i <= n,
            n == lines@.len(),
            lines.deep_view() == split_on(output@, '\n'),
            first_line_pid(split_on(output@, '\n'), port, true) == first_line_pid(
                split_on(output@, '\n').skip(i as int),
                port,
                true,
            ),
        decreases n - i,
    {
        proof {
            assert(lines.deep_view()[i as int] == lines@[i as int].deep_view());
            assert(split_on(output@, '\n').skip(i as int)[0] == lines@[i as int]@);
        }
        if let Some(pid) = netstat_line_pid(lines[i].as_str(), port) {
            return Some(pid);
        }
        proof {
            let rest = split_on(output@, '\n').skip(i as int);
            assert(rest.drop_first() =~= split_on(output@, '\n').skip(i as int + 1));
        }
        i = i + 1;
    }
    proof {
        assert(split_on(output@, '\n').skip(n as int) =~= Seq::<Seq<char>>::empty());
    }
    None
}

/// The pid in the terse listing: the first line whose trimmed text is a
/// decimal number.
pub open spec fn spec_lsof_line_pid(line: Seq<char>) -> Option<u32> {
    let t = spec_trim(line);
    if valid_u32_digits(t) {
        Some(digits_val(t) as u32)
    } else {
        None
    }
}

pub open spec fn first_lsof_pid(lines: Seq<Seq<char>>) -> Option<u32>
    decreases lines.len(),
{
    if lines.len() == 0 {
        None
    } else if spec_lsof_line_pid(lines[0]) is Some {
        spec_lsof_line_pid(lines[0])
    } else {
        first_lsof_pid(lines.drop_first())
    }
}

/// What the terse file-listing scan returns: the first line that is a
/// plain pid.
#[verifier::loop_isolation(false)]
pub fn parse_lsof_listener_pid(output: &str) -> (r: Option<u32>)
    ensures
        r == first_lsof_pid(split_on(output@, '\n')),
{
    let lines = split_char(output, '\n');
    let n: usize = lines.len();
    proof {
        assert(lines.deep_view().len() == lines@.len());
        assert(split_on(output@, '\n').skip(0) =~= split_on(output@, '\n'));
    }
    let mut i: usize = 0;
    while i < n
        invariant
            0 <= i <= n,
            n == lines@.len(),
            lines.deep_view() == split_on(output@, '\n'),
            first_lsof_pid(split_on(output@, '\n')) == first_lsof_pid(
                split_on(output@, '\n').skip(i as int),
            ),
        decreases n - i,
    {
        proof {
            assert(lines.deep_view()[i as int] == lines@[i as int].deep_view());
            assert(split_on(output@, '\n').skip(i as int)[0] == lines@[i as int]@);
        }
        let t = trim_str(lines[i].as_str());
        if let Some(v) = parse_decimal_capped(t.as_str(), 0xFFFF_FFFF) {
            return Some(v as u32);
        }
        proof {
            let rest = split_on(output@, '\n').skip(i as int);
            assert(rest.drop_first() =~= split_on(output@, '\n').skip(i as int + 1));
        }
        i = i + 1;
    }
    proof {
        assert(split_on(output@, '\n').skip(n as int) =~= Seq::<Seq<char>>::empty());
    }
    None
}

/// Rejects process ids that must never receive a termination signal:
/// pid 0 (the caller's process group) and pid 1 (init).
pub fn safe_force_stop_pid(pid: u32) -> (r: Option<u32>)
    ensures
        r == if pid <= 1 {
            Option::<u32>::None
        } else {
            Option::<u32>::Some(pid)
        },
{
    if pid <= 1 {
        None
    } else {
        Some(pid)
    }
}

/// Accepts a discovered pid only when it is safe to signal and does not
/// contradict the identity the daemon reported: never at most 1, and
/// never different from an expected pid.
pub fn accept_resolved_pid(found: Option<u32>, expected: Option<u32>) -> (r: Option<u32>)
    ensures
        r is Some ==> r->Some_0 > 1,
        r is Some && expected is Some ==> r->Some_0 == expected->Some_0,
        r == match found {
            Option::Some(p) => if p <= 1 {
                Option::<u32>::None
            } else if expected is Some && expected->Some_0 != p {
                Option::<u32>::None
            } else {
                Option::<u32>::Some(p)
            },
            Option::None => Option::<u32>::None,
        },
{
    let p = match found {
        Some(p) => p,
        None => {
            return None;
        },
    };
    let p = match safe_force_stop_pid(p) {
        Some(p) => p,
        None => {
            return None;
        },
    };
    if let Some(e) = expected {
        if e != p {
            return None;
        }
    }
    Some(p)
}


/// A process-listing line is read for a pid only when its fourth column
/// names exactly the queried port: a column naming any other port, a
/// numeric extension of the query included, yields nothing on that
/// line, for both listing formats.
pub proof fn lemma_port_match_is_exact(line: Seq<char>, port: u16)
    ensures
        ws_tokens(line).len() > 3 && spec_port_from_addr_token(ws_tokens(line)[3]) != Some(port)
            ==> spec_ss_line_pid(line, port) is None && spec_netstat_line_pid(line, port) is None,
{
}

} // verus!
