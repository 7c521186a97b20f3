//! Token-usage accounting for session threads: per-update deltas, the
//! running aggregate per thread, and the id list cleanup, all over
//! plain signed counters.
use crate::chars::spec_trim;
use crate::chars::str_eq;
use crate::chars::trim_str;
use crate::pidparse::spec_starts_with;
use vstd::prelude::*;
use vstd::string::StrSliceExecFns;

verus! {

/// One reading of the token counters.
#[derive(Clone, Copy, Debug, PartialEq, Eq, Structural, Default)]
pub struct UsageValues {
    pub total_tokens: i64,
    pub input_tokens: i64,
    pub cached_input_tokens: i64,
    pub output_tokens: i64,
    pub reasoning_output_tokens: i64,
}

/// Two readings can be added without leaving `i64`.
pub open spec fn usage_add_fits(a: UsageValues, b: UsageValues) -> bool {
    &&& i64::MIN <= a.total_tokens + b.total_tokens <= i64::MAX
    &&& i64::MIN <= a.input_tokens + b.input_tokens <= i64::MAX
    &&& i64::MIN <= a.cached_input_tokens + b.cached_input_tokens <= i64::MAX
    &&& i64::MIN <= a.output_tokens + b.output_tokens <= i64::MAX
    &&& i64::MIN <= a.reasoning_output_tokens + b.reasoning_output_tokens <= i64::MAX
}

/// Two readings can be subtracted without leaving `i64`.
pub open spec fn usage_sub_fits(a: UsageValues, b: UsageValues) -> bool {
    &&& i64::MIN <= a.total_tokens - b.total_tokens <= i64::MAX
    &&& i64::MIN <= a.input_tokens - b.input_tokens <= i64::MAX
    &&& i64::MIN <= a.cached_input_tokens - b.cached_input_tokens <= i64::MAX
    &&& i64::MIN <= a.output_tokens - b.output_tokens <= i64::MAX
    &&& i64::MIN <= a.reasoning_output_tokens - b.reasoning_output_tokens <= i64::MAX
}

/// The counters of a reading, repackaged for the interface.
pub open spec fn spec_breakdown(u: UsageValues) -> ThreadTokenUsageBreakdown {
    ThreadTokenUsageBreakdown {
        total_tokens: u.total_tokens,
        input_tokens: u.input_tokens,
        cached_input_tokens: u.cached_input_tokens,
        output_tokens: u.output_tokens,
        reasoning_output_tokens: u.reasoning_output_tokens,
    }
}

/// A difference clamped at zero, the per-field rule of the delta.
pub open spec fn sat_delta(a: int, b: int) -> int {
    if a - b > 0 {
        a - b
    } else {
        0
    }
}

/// The counters of one usage report, as the interface reports them.
#[derive(Clone, Copy, Debug, PartialEq, Eq, Structural)]
pub struct ThreadTokenUsageBreakdown {
    pub total_tokens: i64,
    pub input_tokens: i64,
    pub cached_input_tokens: i64,
    pub output_tokens: i64,
    pub reasoning_output_tokens: i64,
}

/// The per-thread result: totals, the latest reading, and the model's
/// context window when one was reported.
#[derive(Clone, Copy, Debug, PartialEq, Eq, Structural)]
pub struct ThreadTokenUsageSnapshot {
    pub total: ThreadTokenUsageBreakdown,
    pub last: ThreadTokenUsageBreakdown,
    pub model_context_window: Option<i64>,
}

/// One session file's contribution to a thread.
#[derive(Clone, Copy, Debug, PartialEq, Eq, Structural, Default)]
pub struct ThreadUsageUpdate {
    pub total_delta: UsageValues,
    pub last: UsageValues,
    pub model_context_window: Option<i64>,
    pub timestamp_ms: i64,
}

impl UsageValues {
    /// Field-wise accumulation.
    pub fn add_assign(&mut self, other: UsageValues)
        requires
            usage_add_fits(*old(self), other),
        ensures
            final(self).total_tokens == old(self).total_tokens + other.total_tokens,
            final(self).input_tokens == old(self).input_tokens + other.input_tokens,
            final(self).cached_input_tokens == old(self).cached_input_tokens
                + other.cached_input_tokens,
            final(self).output_tokens == old(self).output_tokens + other.output_tokens,
            final(self).reasoning_output_tokens == old(self).reasoning_output_tokens
                + other.reasoning_output_tokens,
    {
        self.total_tokens = self.total_tokens + other.total_tokens;
        self.input_tokens = self.input_tokens + other.input_tokens;
        self.cached_input_tokens = self.cached_input_tokens + other.cached_input_tokens;
        self.output_tokens = self.output_tokens + other.output_tokens;
        self.reasoning_output_tokens = self.reasoning_output_tokens
            + other.reasoning_output_tokens;
    }

    /// The field-wise growth since `previous`, never negative.
    pub fn saturating_delta(self, previous: UsageValues) -> (r: UsageValues)
        requires
            usage_sub_fits(self, previous),
        ensures
            r.total_tokens == sat_delta(self.total_tokens as int, previous.total_tokens as int),
            r.input_tokens == sat_delta(self.input_tokens as int, previous.input_tokens as int),
            r.cached_input_tokens == sat_delta(
                self.cached_input_tokens as int,
                previous.cached_input_tokens as int,
            ),
            r.output_tokens == sat_delta(self.output_tokens as int, previous.output_tokens as int),
            r.reasoning_output_tokens == sat_delta(
                self.reasoning_output_tokens as int,
                previous.reasoning_output_tokens as int,
            ),
    {
        UsageValues {
            total_tokens: Self::clamped_sub(self.total_tokens, previous.total_tokens),
            input_tokens: Self::clamped_sub(self.input_tokens, previous.input_tokens),
            cached_input_tokens: Self::clamped_sub(
                self.cached_input_tokens,
                previous.cached_input_tokens,
            ),
            output_tokens: Self::clamped_sub(self.output_tokens, previous.output_tokens),
            reasoning_output_tokens: Self::clamped_sub(
                self.reasoning_output_tokens,
                previous.reasoning_output_tokens,
            ),
        }
    }

    fn clamped_sub(a: i64, b: i64) -> (r: i64)
        requires
            i64::MIN <= a - b <= i64::MAX,
        ensures
            r == sat_delta(a as int, b as int),
    {
        let d = a - b;
        if d > 0 {
            d
        } else {
            0
        }
    }

    /// The reading as the interface reports it.
    pub fn to_breakdown(self) -> (r: ThreadTokenUsageBreakdown)
        ensures
            r == spec_breakdown(self),
    {
        ThreadTokenUsageBreakdown {
            total_tokens: self.total_tokens,
            input_tokens: self.input_tokens,
            cached_input_tokens: self.cached_input_tokens,
            output_tokens: self.output_tokens,
            reasoning_output_tokens: self.reasoning_output_tokens,
        }
    }

    /// Every counter is zero.
    pub fn is_zero(self) -> (r: bool)
        ensures
            r == (self.total_tokens == 0 && self.input_tokens == 0 && self.cached_input_tokens == 0
                && self.output_tokens == 0 && self.reasoning_output_tokens == 0),
    {
        self.total_tokens == 0 && self.input_tokens == 0 && self.cached_input_tokens == 0
            && self.output_tokens == 0 && self.reasoning_output_tokens == 0
    }
}

/// The running aggregate of one thread across its session files.
#[derive(Clone, Copy, Debug, PartialEq, Eq, Structural, Default)]
pub struct ThreadUsageAggregate {
    pub total: UsageValues,
    pub last: UsageValues,
    pub model_context_window: Option<i64>,
    pub latest_timestamp_ms: i64,
}

impl ThreadUsageAggregate {
    /// Folds one file's contribution in: totals always accumulate, while
    /// the latest reading, its timestamp and the context window follow
    /// the newest update only.
    pub fn absorb(&mut self, update: ThreadUsageUpdate)
        requires
            usage_add_fits(old(self).total, update.total_delta),
        ensures
            final(self).total.total_tokens == old(self).total.total_tokens
                + update.total_delta.total_tokens,
            final(self).total.input_tokens == old(self).total.input_tokens
                + update.total_delta.input_tokens,
            final(self).total.cached_input_tokens == old(self).total.cached_input_tokens
                + update.total_delta.cached_input_tokens,
            final(self).total.output_tokens == old(self).total.output_tokens
                + update.total_delta.output_tokens,
            final(self).total.reasoning_output_tokens == old(self).total.reasoning_output_tokens
                + update.total_delta.reasoning_output_tokens,
            update.timestamp_ms >= old(self).latest_timestamp_ms ==> {
                &&& final(self).latest_timestamp_ms == update.timestamp_ms
                &&& final(self).last == update.last
                &&& final(self).model_context_window == (if update.model_context_window is Some {
                    update.model_context_window
                } else {
                    old(self).model_context_window
                })
            },
            update.timestamp_ms < old(self).latest_timestamp_ms ==> {
                &&& final(self).latest_timestamp_ms == old(self).latest_timestamp_ms
                &&& final(self).last == old(self).last
                &&& final(self).model_context_window == old(self).model_context_window
            },
    {
        self.total.add_assign(update.total_delta);
        if update.timestamp_ms >= self.latest_timestamp_ms {
            self.latest_timestamp_ms = update.timestamp_ms;
            self.last = update.last;
            if update.model_context_window.is_some() {
                self.model_context_window = update.model_context_window;
            }
        }
    }

    /// The aggregate as the interface reports it.
    pub fn into_snapshot(self) -> (r: ThreadTokenUsageSnapshot)
        ensures
            r.total == spec_breakdown(self.total),
            r.last == spec_breakdown(self.last),
            r.model_context_window == self.model_context_window,
    {
        ThreadTokenUsageSnapshot {
            total: self.total.to_breakdown(),
            last: self.last.to_breakdown(),
            model_context_window: self.model_context_window,
        }
    }
}

/// The cleaned thread-id list: each id trimmed, empties dropped, and
/// later duplicates dropped in favour of the first occurrence.
pub open spec fn spec_sanitize_ids(ids: Seq<Seq<char>>) -> Seq<Seq<char>>
    decreases ids.len(),
{
    if ids.len() == 0 {
        Seq::empty()
    } else {
        let pre = spec_sanitize_ids(ids.drop_last());
        let t = spec_trim(ids.last());
        if t.len() == 0 || pre.contains(t) {
            pre
        } else {
            pre.push(t)
        }
    }
}

pub fn sanitize_thread_ids(thread_ids: Vec<String>) -> (r: Vec<String>)
    ensures
        r.deep_view() == spec_sanitize_ids(thread_ids.deep_view()),
{
    let n: usize = thread_ids.len();
    proof {
        assert(thread_ids.deep_view().len() == thread_ids@.len());
        assert(thread_ids.deep_view().take(0) =~= Seq::<Seq<char>>::empty());
    }
    let mut out: Vec<String> = Vec::new();
    let mut i: usize = 0;
    while i < n
        invariant
            0 <= i <= n,
            n == thread_ids@.len(),
            out.deep_view() == spec_sanitize_ids(thread_ids.deep_view().take(i as int)),
        decreases n - i,
    {
        proof {
            assert(thread_ids.deep_view()[i as int] == thread_ids@[i as int].deep_view());
        }
        let t = trim_str(thread_ids[i].as_str());
        let mut seen = false;
        let m: usize = out.len();
        let mut j: usize = 0;
        while j < m
            invariant
                0 <= j <= m,
                m == out@.len(),
                out.deep_view().len() == m,
                seen == exists|k: int| 0 <= k < j && #[trigger] out.deep_view()[k] == t@,
            decreases m - j,
        {
            proof {
                assert(out.deep_view()[j as int] == out@[j as int].deep_view());
            }
            if str_eq(out[j].as_str(), t.as_str()) {
                seen = true;
            }
            j = j + 1;
        }
        proof {
            assert(seen == spec_sanitize_ids(thread_ids.deep_view().take(i as int)).contains(t@));
        }
        if t.as_str().unicode_len() > 0 && !seen {
            out.push(t);
            proof {
                assert(out.deep_view() =~= out.deep_view().subrange(0, out.deep_view().len() - 1)
                    .push(spec_trim(thread_ids.deep_view()[i as int])));
            }
        }
        proof {
            let pre = thread_ids.deep_view().take(i as int);
            let cur = thread_ids.deep_view().take(i as int + 1);
            assert(cur.drop_last() =~= pre);
            assert(cur.last() == thread_ids.deep_view()[i as int]);
        }
        i = i + 1;
    }
    proof {
        assert(thread_ids.deep_view().take(n as int) =~= thread_ids.deep_view());
    }
    out
}

/// A recorded working directory belongs to the workspace: it is the
/// workspace path itself, or lies beneath it past a path separator.
pub open spec fn spec_path_matches_workspace(cwd: Seq<char>, workspace: Seq<char>) -> bool {
    cwd == workspace || (spec_starts_with(cwd, workspace) && cwd.len() > workspace.len()
        && cwd[workspace.len() as int] == '/')
}

pub fn path_matches_workspace(cwd: &str, workspace_path: &str) -> (r: bool)
    ensures
        r == spec_path_matches_workspace(cwd@, workspace_path@),
{
    if str_eq(cwd, workspace_path) {
        return true;
    }
    let c_len: usize = cwd.unicode_len();
    let w_len: usize = workspace_path.unicode_len();
    if c_len <= w_len {
        return false;
    }
    crate::pidparse::starts_with(cwd, workspace_path) && cwd.get_char(w_len) == '/'
}

} // verus!
