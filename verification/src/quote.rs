//! Shell-argument quoting for the command preview, in both conventions
//! the controller renders: single quotes with the POSIX five-character
//! escape, and double quotes with backslash escapes.  Unquoting inverts
//! each, and the round trip is proved.
use crate::chars::push_char;
use vstd::prelude::*;
use vstd::string::StrSliceExecFns;
use vstd::string::StringExecFns;

verus! {

/// The five characters that stand for one single quote inside a
/// single-quoted word: quote, double quote, quote, double quote, quote.
pub open spec fn posix_quote_escape() -> Seq<char> {
    seq!['\'', '"', '\'', '"', '\'']
}

pub open spec fn posix_escape(s: Seq<char>) -> Seq<char>
    decreases s.len(),
{
    if s.len() == 0 {
        Seq::empty()
    } else if s[0] == '\'' {
        posix_quote_escape() + posix_escape(s.drop_first())
    } else {
        seq![s[0]] + posix_escape(s.drop_first())
    }
}

/// What the POSIX convention renders: the word in single quotes, each
/// embedded quote replaced by the five-character escape.
pub open spec fn spec_shell_quote_posix(s: Seq<char>) -> Seq<char> {
    seq!['\''] + posix_escape(s) + seq!['\'']
}

pub open spec fn win_escape(s: Seq<char>) -> Seq<char>
    decreases s.len(),
{
    if s.len() == 0 {
        Seq::empty()
    } else if s[0] == '"' {
        seq!['\\', '"'] + win_escape(s.drop_first())
    } else {
        seq![s[0]] + win_escape(s.drop_first())
    }
}

/// What the Windows convention renders: the word in double quotes, each
/// embedded double quote preceded by a backslash.
pub open spec fn spec_shell_quote_windows(s: Seq<char>) -> Seq<char> {
    seq!['"'] + win_escape(s) + seq!['"']
}

pub open spec fn spec_shell_quote(s: Seq<char>, windows: bool) -> Seq<char> {
    if windows {
        spec_shell_quote_windows(s)
    } else {
        spec_shell_quote_posix(s)
    }
}

proof fn lemma_posix_escape_push(a: Seq<char>, c: char)
    ensures
        posix_escape(a.push(c)) == posix_escape(a) + (if c == '\'' {
            posix_quote_escape()
        } else {
            seq![c]
        }),
    decreases a.len(),
{
    let tail = if c == '\'' {
        posix_quote_escape()
    } else {
        seq![c]
    };
    if a.len() == 0 {
        assert(a.push(c) =~= seq![c]);
        assert(seq![c].drop_first() =~= Seq::<char>::empty());
        assert(posix_escape(Seq::<char>::empty()) == Seq::<char>::empty());
        assert(posix_escape(seq![c]) =~= tail);
        assert(posix_escape(a) + tail =~= tail);
    } else {
        assert(a.push(c).drop_first() =~= a.drop_first().push(c));
        lemma_posix_escape_push(a.drop_first(), c);
        assert(posix_escape(a.push(c)) =~= posix_escape(a) + tail);
    }
}

proof fn lemma_win_escape_push(a: Seq<char>, c: char)
    ensures
        win_escape(a.push(c)) == win_escape(a) + (if c == '"' {
            seq!['\\', '"']
        } else {
            seq![c]
        }),
    decreases a.len(),
{
    let tail = if c == '"' {
        seq!['\\', '"']
    } else {
        seq![c]
    };
    if a.len() == 0 {
        assert(a.push(c) =~= seq![c]);
        assert(seq![c].drop_first() =~= Seq::<char>::empty());
        assert(win_escape(Seq::<char>::empty()) == Seq::<char>::empty());
        assert(win_escape(seq![c]) =~= tail);
        assert(win_escape(a) + tail =~= tail);
    } else {
        assert(a.push(c).drop_first() =~= a.drop_first().push(c));
        lemma_win_escape_push(a.drop_first(), c);
        assert(win_escape(a.push(c)) =~= win_escape(a) + tail);
    }
}

/// Quotes one argument for the shell, as the command preview shows it.
pub fn shell_quote(value: &str, windows: bool) -> (r: String)
    ensures
        r@ == spec_shell_quote(value@, windows),
{
    let len: usize = value.unicode_len();
    let mut out = String::new();
    let open: char = if windows {
        '"'
    } else {
        '\''
    };
    push_char(&mut out, open);
    proof {
        assert(out@ =~= seq![open] + (if windows {
            win_escape(value@.subrange(0, 0))
        } else {
            posix_escape(value@.subrange(0, 0))
        }));
    }
    let mut i: usize = 0;
    while i < len
        invariant
            0 <= i <= len,
            len == value@.len(),
            out@ == seq![if windows {
                '"'
            } else {
                '\''
            }] + (if windows {
                win_escape(value@.subrange(0, i as int))
            } else {
                posix_escape(value@.subrange(0, i as int))
            }),
        decreases len - i,
    {
        let c = value.get_char(i);
        if windows {
            if c == '"' {
                push_char(&mut out, '\\');
                push_char(&mut out, '"');
            } else {
                push_char(&mut out, c);
            }
        } else {
            if c == '\'' {
                push_char(&mut out, '\'');
                push_char(&mut out, '"');
                push_char(&mut out, '\'');
                push_char(&mut out, '"');
                push_char(&mut out, '\'');
            } else {
                push_char(&mut out, c);
            }
        }
        proof {
            let prefix = value@.subrange(0, i as int);
            assert(value@.subrange(0, i as int + 1) =~= prefix.push(value@[i as int]));
            if windows {
                lemma_win_escape_push(prefix, value@[i as int]);
                assert(out@ =~= seq!['"'] + win_escape(value@.subrange(0, i as int + 1)));
            } else {
                lemma_posix_escape_push(prefix, value@[i as int]);
                assert(out@ =~= seq!['\''] + posix_escape(value@.subrange(0, i as int + 1)));
            }
        }
        i = i + 1;
    }
    let close: char = if windows {
        '"'
    } else {
        '\''
    };
    push_char(&mut out, close);
    proof {
        assert(value@.subrange(0, len as int) =~= value@);
        if windows {
            assert(out@ =~= spec_shell_quote_windows(value@));
        } else {
            assert(out@ =~= spec_shell_quote_posix(value@));
        }
    }
    out
}

/// Inverts the POSIX escape: each five-character escape becomes one
/// quote, any other quote is malformed, everything else is literal.
pub open spec fn posix_unescape(q: Seq<char>) -> Option<Seq<char>>
    decreases q.len(),
{
    if q.len() == 0 {
        Some(Seq::empty())
    } else if q[0] == '\'' {
        if q.len() >= 5 && q.subrange(0, 5) == posix_quote_escape() {
            match posix_unescape(q.skip(5)) {
                Option::Some(r) => Some(seq!['\''] + r),
                Option::None => None,
            }
        } else {
            None
        }
    } else {
        match posix_unescape(q.drop_first()) {
            Option::Some(r) => Some(seq![q[0]] + r),
            Option::None => None,
        }
    }
}

/// Inverts the Windows escape: a backslash before a double quote
/// becomes that quote, a bare double quote is malformed, everything
/// else is literal.
pub open spec fn win_unescape(q: Seq<char>) -> Option<Seq<char>>
    decreases q.len(),
{
    if q.len() == 0 {
        Some(Seq::empty())
    } else if q[0] == '\\' && q.len() >= 2 && q[1] == '"' {
        match win_unescape(q.skip(2)) {
            Option::Some(r) => Some(seq!['"'] + r),
            Option::None => None,
        }
    } else if q[0] == '"' {
        None
    } else {
        match win_unescape(q.drop_first()) {
            Option::Some(r) => Some(seq![q[0]] + r),
            Option::None => None,
        }
    }
}

/// What unquoting accepts: the quoted form of the convention, giving
/// back the argument.
pub open spec fn spec_shell_unquote(q: Seq<char>, windows: bool) -> Option<Seq<char>> {
    let mark = if windows {
        '"'
    } else {
        '\''
    };
    if q.len() >= 2 && q[0] == mark && q.last() == mark {
        let inner = q.subrange(1, q.len() - 1);
        if windows {
            win_unescape(inner)
        } else {
            posix_unescape(inner)
        }
    } else {
        None
    }
}

proof fn lemma_posix_unescape_escape(s: Seq<char>)
    ensures
        posix_unescape(posix_escape(s)) == Some(s),
    decreases s.len(),
{
    if s.len() == 0 {
    } else if s[0] == '\'' {
        let q = posix_escape(s);
        lemma_posix_unescape_escape(s.drop_first());
        assert(q.subrange(0, 5) =~= posix_quote_escape());
        assert(q.skip(5) =~= posix_escape(s.drop_first()));
        assert(seq!['\''] + s.drop_first() =~= s);
    } else {
        let q = posix_escape(s);
        lemma_posix_unescape_escape(s.drop_first());
        assert(q[0] == s[0]);
        if q[0] == '\'' {
            assert(false);
        }
        assert(q.drop_first() =~= posix_escape(s.drop_first()));
        assert(seq![q[0]] + s.drop_first() =~= s);
    }
}

/// The Windows escape of a non-empty argument never starts with a bare
/// double quote.
proof fn lemma_win_escape_head(s: Seq<char>)
    ensures
        win_escape(s).len() >= s.len(),
        s.len() > 0 ==> win_escape(s)[0] != '"',
    decreases s.len(),
{
    if s.len() > 0 {
        lemma_win_escape_head(s.drop_first());
    }
}

proof fn lemma_win_unescape_escape(s: Seq<char>)
    ensures
        win_unescape(win_escape(s)) == Some(s),
    decreases s.len(),
{
    if s.len() == 0 {
    } else {
        let q = win_escape(s);
        lemma_win_unescape_escape(s.drop_first());
        if s[0] == '"' {
            assert(q[0] == '\\' && q.len() >= 2 && q[1] == '"');
            assert(q.skip(2) =~= win_escape(s.drop_first()));
            assert(seq!['"'] + s.drop_first() =~= s);
        } else if s[0] == '\\' {
            // The next rendered character is never a double quote, so the
            // backslash stays literal.
            assert(q[0] == '\\');
            lemma_win_escape_head(s.drop_first());
            if q.len() >= 2 && q[1] == '"' {
                assert(q.drop_first() =~= win_escape(s.drop_first()));
                assert(win_escape(s.drop_first())[0] == q[1]);
                assert(s.drop_first().len() > 0);
                assert(false);
            }
            assert(q.drop_first() =~= win_escape(s.drop_first()));
            assert(seq![q[0]] + s.drop_first() =~= s);
        } else {
            assert(q[0] == s[0]);
            assert(!(q[0] == '\\' && q.len() >= 2 && q[1] == '"'));
            assert(q.drop_first() =~= win_escape(s.drop_first()));
            assert(seq![q[0]] + s.drop_first() =~= s);
        }
    }
}

/// Quoting and then unquoting recovers the argument exactly, embedded
/// quote characters included, in either convention.
pub proof fn lemma_shell_quote_round_trip(s: Seq<char>, windows: bool)
    ensures
        spec_shell_unquote(spec_shell_quote(s, windows), windows) == Some(s),
{
    let q = spec_shell_quote(s, windows);
    if windows {
        assert(q.len() == win_escape(s).len() + 2);
        assert(q[0] == '"' && q.last() == '"');
        assert(q.subrange(1, q.len() - 1) =~= win_escape(s));
        lemma_win_unescape_escape(s);
    } else {
        assert(q.len() == posix_escape(s).len() + 2);
        assert(q[0] == '\'' && q.last() == '\'');
        assert(q.subrange(1, q.len() - 1) =~= posix_escape(s));
        lemma_posix_unescape_escape(s);
    }
}

/// Unquotes one argument of the convention's quoted form.
pub fn shell_unquote(quoted: &str, windows: bool) -> (r: Option<String>)
    ensures
        (r is Some) == (spec_shell_unquote(quoted@, windows) is Some),
        r is Some ==> Some(r->Some_0@) == spec_shell_unquote(quoted@, windows),
{
    let len: usize = quoted.unicode_len();
    let mark: char = if windows {
        '"'
    } else {
        '\''
    };
    if len < 2 || quoted.get_char(0) != mark || quoted.get_char(len - 1) != mark {
        return None;
    }
    let ghost inner = quoted@.subrange(1, quoted@.len() - 1);
    let mut out = String::new();
    let mut i: usize = 1;
    let end: usize = len - 1;
    proof {
        assert(inner.skip(0) =~= inner);
        if windows {
            if win_unescape(inner) is Some {
                assert(Seq::<char>::empty() + win_unescape(inner)->Some_0 =~= win_unescape(
                    inner,
                )->Some_0);
            }
        } else {
            if posix_unescape(inner) is Some {
                assert(Seq::<char>::empty() + posix_unescape(inner)->Some_0 =~= posix_unescape(
                    inner,
                )->Some_0);
            }
        }
    }
    while i < end
        invariant
            1 <= i <= end,
            end == len - 1,
            2 <= len == quoted@.len(),
            inner == quoted@.subrange(1, quoted@.len() - 1),
            windows ==> match win_unescape(inner.skip(i - 1)) {
                Option::Some(rest) => win_unescape(inner) == Some(out@ + rest),
                Option::None => win_unescape(inner) is None,
            },
            !windows ==> match posix_unescape(inner.skip(i - 1)) {
                Option::Some(rest) => posix_unescape(inner) == Some(out@ + rest),
                Option::None => posix_unescape(inner) is None,
            },
        decreases end - i,
    {
        let ghost rem = inner.skip(i - 1);
        proof {
            assert(rem.len() == end - i + 0);
            assert(forall|t: int| 0 <= t < rem.len() ==> rem[t] == #[trigger] quoted@[i + t]);
        }
        let c = quoted.get_char(i);
        if windows {
            if c == '\\' && i + 1 < end && quoted.get_char(i + 1) == '"' {
                push_char(&mut out, '"');
                proof {
                    assert(rem.skip(2) =~= inner.skip(i + 1));
                    if win_unescape(inner.skip(i + 1)) is Some {
                        let tail = win_unescape(inner.skip(i + 1))->Some_0;
                        assert(win_unescape(rem) == Some(seq!['"'] + tail));
                        assert(out@ + tail =~= (out@.drop_last() + (seq!['"'] + tail)));
                    }
                }
                i = i + 2;
            } else if c == '"' {
                return None;
            } else if c == '\\' && i + 1 >= end {
                // A trailing backslash is literal.
                push_char(&mut out, c);
                proof {
                    assert(rem.drop_first() =~= inner.skip(i as int));
                    assert(rem.len() == 1);
                    if win_unescape(inner.skip(i as int)) is Some {
                        let tail = win_unescape(inner.skip(i as int))->Some_0;
                        assert(win_unescape(rem) == Some(seq![rem[0]] + tail));
                        assert(out@ + tail =~= (out@.drop_last() + (seq![rem[0]] + tail)));
                    }
                }
                i = i + 1;
            } else {
                push_char(&mut out, c);
                proof {
                    assert(rem.drop_first() =~= inner.skip(i as int));
                    assert(!(rem[0] == '\\' && rem.len() >= 2 && rem[1] == '"')) by {
                        if rem.len() >= 2 {
                            assert(rem[1] == quoted@[i + 1]);
                        }
                    }
                    if win_unescape(inner.skip(i as int)) is Some {
                        let tail = win_unescape(inner.skip(i as int))->Some_0;
                        assert(win_unescape(rem) == Some(seq![rem[0]] + tail));
                        assert(out@ + tail =~= (out@.drop_last() + (seq![rem[0]] + tail)));
                    }
                }
                i = i + 1;
            }
        } else {
            if c == '\'' {
                if end - i >= 5 && quoted.get_char(i + 1) == '"' && quoted.get_char(i + 2) == '\''
                    && quoted.get_char(i + 3) == '"' && quoted.get_char(i + 4) == '\'' {
                    push_char(&mut out, '\'');
                    proof {
                        assert(rem.subrange(0, 5) =~= posix_quote_escape());
                        assert(rem.skip(5) =~= inner.skip(i + 4));
                        if posix_unescape(inner.skip(i + 4)) is Some {
                            let tail = posix_unescape(inner.skip(i + 4))->Some_0;
                            assert(posix_unescape(rem) == Some(seq!['\''] + tail));
                            assert(out@ + tail =~= (out@.drop_last() + (seq!['\''] + tail)));
                        }
                    }
                    i = i + 5;
                } else {
                    proof {
                        if rem.len() >= 5 && rem.subrange(0, 5) == posix_quote_escape() {
                            assert(rem[1] == quoted@[i + 1]);
                            assert(rem[2] == quoted@[i + 2]);
                            assert(rem[3] == quoted@[i + 3]);
                            assert(rem[4] == quoted@[i + 4]);
                            assert(false);
                        }
                    }
                    return None;
                }
            } else {
                push_char(&mut out, c);
                proof {
                    assert(rem.drop_first() =~= inner.skip(i as int));
                    if posix_unescape(inner.skip(i as int)) is Some {
                        let tail = posix_unescape(inner.skip(i as int))->Some_0;
                        assert(posix_unescape(rem) == Some(seq![rem[0]] + tail));
                        assert(out@ + tail =~= (out@.drop_last() + (seq![rem[0]] + tail)));
                    }
                }
                i = i + 1;
            }
        }
    }
    proof {
        assert(inner.skip(end - 1) =~= Seq::<char>::empty());
        assert(out@ + Seq::<char>::empty() =~= out@);
    }
    Some(out)
}


/// What the preview and the spawn hand the daemon: the listen address,
/// the data directory, and either the no-auth opt-in or the token
/// placeholder.
pub open spec fn spec_preview_args(
    listen: Seq<char>,
    data_dir: Seq<char>,
    insecure_no_auth: bool,
) -> Seq<Seq<char>> {
    if insecure_no_auth {
        seq!["--listen"@, listen, "--data-dir"@, data_dir, "--insecure-no-auth"@]
    } else {
        seq!["--listen"@, listen, "--data-dir"@, data_dir, "--token"@, "<remote-backend-token>"@]
    }
}

/// The rendering of a quoted argument list: one leading blank before
/// each quoted word.
pub open spec fn spec_render_quoted(items: Seq<Seq<char>>, windows: bool) -> Seq<char>
    decreases items.len(),
{
    if items.len() == 0 {
        Seq::empty()
    } else {
        seq![' '] + spec_shell_quote(items[0], windows) + spec_render_quoted(
            items.drop_first(),
            windows,
        )
    }
}

proof fn lemma_render_quoted_push(a: Seq<Seq<char>>, x: Seq<char>, windows: bool)
    ensures
        spec_render_quoted(a.push(x), windows) == spec_render_quoted(a, windows) + seq![' ']
            + spec_shell_quote(x, windows),
    decreases a.len(),
{
    if a.len() == 0 {
        assert(a.push(x) =~= seq![x]);
        assert(seq![x].drop_first() =~= Seq::<Seq<char>>::empty());
        assert(spec_render_quoted(Seq::<Seq<char>>::empty(), windows) == Seq::<char>::empty());
        assert(spec_render_quoted(seq![x], windows) =~= spec_render_quoted(a, windows) + seq![' ']
            + spec_shell_quote(x, windows));
    } else {
        assert(a.push(x).drop_first() =~= a.drop_first().push(x));
        lemma_render_quoted_push(a.drop_first(), x, windows);
        assert(spec_render_quoted(a.push(x), windows) =~= spec_render_quoted(a, windows)
            + seq![' '] + spec_shell_quote(x, windows));
    }
}

/// The preview of the daemon start command: the argument list, and the
/// full command line with every word quoted.
pub struct DaemonCommandPreview {
    pub command: String,
    pub daemon_path: String,
    pub args: Vec<String>,
    pub token_configured: bool,
}

/// Renders the start command a user could run by hand; the real token
/// never appears, only its placeholder.
pub fn daemon_command_preview(
    daemon_path: &str,
    data_dir: &str,
    token_configured: bool,
    listen_addr: &str,
    insecure_no_auth: bool,
    windows: bool,
) -> (r: DaemonCommandPreview)
    ensures
        r.daemon_path@ == daemon_path@,
        r.token_configured == token_configured,
        r.args.deep_view() == spec_preview_args(listen_addr@, data_dir@, insecure_no_auth),
        r.command@ == spec_shell_quote(daemon_path@, windows) + spec_render_quoted(
            spec_preview_args(listen_addr@, data_dir@, insecure_no_auth),
            windows,
        ),
{
    let mut args: Vec<String> = Vec::new();
    args.push(String::from_str("--listen"));
    args.push(String::from_str(listen_addr));
    args.push(String::from_str("--data-dir"));
    args.push(String::from_str(data_dir));
    if insecure_no_auth {
        args.push(String::from_str("--insecure-no-auth"));
    } else {
        args.push(String::from_str("--token"));
        args.push(String::from_str("<remote-backend-token>"));
    }
    proof {
        assert(args.deep_view() =~= spec_preview_args(listen_addr@, data_dir@, insecure_no_auth));
    }
    let mut command = shell_quote(daemon_path, windows);
    let n: usize = args.len();
    proof {
        assert(args.deep_view().take(0) =~= Seq::<Seq<char>>::empty());
    }
    let mut i: usize = 0;
    while i < n
        invariant
            0 <= i <= n,
            n == args@.len(),
            args.deep_view() == spec_preview_args(listen_addr@, data_dir@, insecure_no_auth),
            command@ == spec_shell_quote(daemon_path@, windows) + spec_render_quoted(
                args.deep_view().take(i as int),
                windows,
            ),
        decreases n - i,
    {
        proof {
            assert(args.deep_view()[i as int] == args@[i as int].deep_view());
        }
        push_char(&mut command, ' ');
        let quoted = shell_quote(args[i].as_str(), windows);
        command.append(quoted.as_str());
        proof {
            let pre = args.deep_view().take(i as int);
            assert(args.deep_view().take(i as int + 1) =~= pre.push(args.deep_view()[i as int]));
            lemma_render_quoted_push(pre, args.deep_view()[i as int], windows);
            assert(command@ =~= spec_shell_quote(daemon_path@, windows) + spec_render_quoted(
                args.deep_view().take(i as int + 1),
                windows,
            ));
        }
        i = i + 1;
    }
    proof {
        assert(args.deep_view().take(n as int) =~= args.deep_view());
    }
    let daemon_path_owned = String::from_str(daemon_path);
    DaemonCommandPreview { command, daemon_path: daemon_path_owned, args, token_configured }
}

/// The arguments the spawned daemon receives.  Without the no-auth
/// opt-in a token is owed, exactly as the start command demands it.
pub fn daemon_spawn_args(
    listen_addr: &str,
    data_dir: &str,
    token: Option<&str>,
    insecure_no_auth: bool,
) -> (r: Result<Vec<String>, String>)
    ensures
        insecure_no_auth ==> (r matches Result::Ok(args) && args.deep_view() == seq![
            "--listen"@,
            listen_addr@,
            "--data-dir"@,
            data_dir@,
            "--insecure-no-auth"@,
        ]),
        (!insecure_no_auth && token is Some) ==> (r matches Result::Ok(args) && args.deep_view()
            == seq![
            "--listen"@,
            listen_addr@,
            "--data-dir"@,
            data_dir@,
            "--token"@,
            (token->Some_0)@,
        ]),
        (!insecure_no_auth && token is None) ==> (r matches Result::Err(m) && m@
            == "Missing remote backend token"@),
{
    let mut args: Vec<String> = Vec::new();
    args.push(String::from_str("--listen"));
    args.push(String::from_str(listen_addr));
    args.push(String::from_str("--data-dir"));
    args.push(String::from_str(data_dir));
    if insecure_no_auth {
        args.push(String::from_str("--insecure-no-auth"));
        proof {
            assert(args.deep_view() =~= seq![
                "--listen"@,
                listen_addr@,
                "--data-dir"@,
                data_dir@,
                "--insecure-no-auth"@,
            ]);
        }
        return Ok(args);
    }
    let t = match token {
        Some(t) => t,
        None => {
            return Err(String::from_str("Missing remote backend token"));
        },
    };
    args.push(String::from_str("--token"));
    args.push(String::from_str(t));
    proof {
        assert(args.deep_view() =~= seq![
            "--listen"@,
            listen_addr@,
            "--data-dir"@,
            data_dir@,
            "--token"@,
            t@,
        ]);
    }
    Ok(args)
}

} // verus!
