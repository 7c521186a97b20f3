//! Position scanning and splitting over character sequences: first and
//! last occurrence of a separator, and separator-based splitting, with
//! the characterization lemmas the parsers build on.
use vstd::prelude::*;
use vstd::string::StrSliceExecFns;
use vstd::string::StringExecFns;

verus! {

/// Index of the first occurrence of `c` in `s`, or -1.
pub open spec fn first_idx_of(s: Seq<char>, c: char) -> int
    decreases s.len(),
{
    if s.len() == 0 {
        -1
    } else if s[0] == c {
        0
    } else if first_idx_of(s.drop_first(), c) < 0 {
        -1
    } else {
        1 + first_idx_of(s.drop_first(), c)
    }
}

/// Index of the last occurrence of `c` in `s`, or -1.
pub open spec fn last_idx_of(s: Seq<char>, c: char) -> int
    decreases s.len(),
{
    if s.len() == 0 {
        -1
    } else if s.last() == c {
        s.len() - 1
    } else {
        last_idx_of(s.drop_last(), c)
    }
}

pub proof fn lemma_first_idx_of(s: Seq<char>, c: char)
    ensures
        first_idx_of(s, c) >= -1,
        first_idx_of(s, c) == -1 ==> forall|j: int| 0 <= j < s.len() ==> s[j] != c,
        first_idx_of(s, c) >= 0 ==> 0 <= first_idx_of(s, c) < s.len() && s[first_idx_of(s, c)] == c
            && forall|j: int| 0 <= j < first_idx_of(s, c) ==> s[j] != c,
    decreases s.len(),
{
    if s.len() > 0 && s[0] != c {
        lemma_first_idx_of(s.drop_first(), c);
        let f = first_idx_of(s.drop_first(), c);
        if f < 0 {
            assert forall|j: int| 0 <= j < s.len() implies s[j] != c by {
                if j > 0 {
                    assert(s.drop_first()[j - 1] == s[j]);
                }
            }
        } else {
            assert(s[1 + f] == c) by {
                assert(s.drop_first()[f] == s[f + 1]);
            }
            assert forall|j: int| 0 <= j < 1 + f implies s[j] != c by {
                if j > 0 {
                    assert(s.drop_first()[j - 1] == s[j]);
                }
            }
        }
    }
}

/// The converse direction: a first occurrence determines `first_idx_of`.
pub proof fn lemma_first_idx_of_at(s: Seq<char>, c: char, k: int)
    requires
        0 <= k < s.len(),
        s[k] == c,
        forall|j: int| 0 <= j < k ==> s[j] != c,
    ensures
        first_idx_of(s, c) == k,
    decreases s.len(),
{
    if k > 0 {
        assert(s.drop_first()[k - 1] == s[k]);
        assert forall|j: int| 0 <= j < k - 1 implies s.drop_first()[j] != c by {
            assert(s.drop_first()[j] == s[j + 1]);
        }
        lemma_first_idx_of_at(s.drop_first(), c, k - 1);
    }
}

pub proof fn lemma_last_idx_of(s: Seq<char>, c: char)
    ensures
        last_idx_of(s, c) >= -1,
        last_idx_of(s, c) == -1 ==> forall|j: int| 0 <= j < s.len() ==> s[j] != c,
        last_idx_of(s, c) >= 0 ==> 0 <= last_idx_of(s, c) < s.len() && s[last_idx_of(s, c)] == c
            && forall|j: int| last_idx_of(s, c) < j < s.len() ==> s[j] != c,
    decreases s.len(),
{
    if s.len() > 0 && s.last() != c {
        lemma_last_idx_of(s.drop_last(), c);
        let l = last_idx_of(s.drop_last(), c);
        if l == -1 {
            assert forall|j: int| 0 <= j < s.len() implies s[j] != c by {
                if j < s.len() - 1 {
                    assert(s.drop_last()[j] == s[j]);
                } else {
                    assert(s[j] == s.last());
                }
            }
        } else {
            assert(s[l] == c) by {
                assert(s.drop_last()[l] == s[l]);
            }
            assert forall|j: int| l < j < s.len() implies s[j] != c by {
                if j < s.len() - 1 {
                    assert(s.drop_last()[j] == s[j]);
                } else {
                    assert(s[j] == s.last());
                }
            }
        }
    }
}

pub proof fn lemma_last_idx_of_at(s: Seq<char>, c: char, k: int)
    requires
        0 <= k < s.len(),
        s[k] == c,
        forall|j: int| k < j < s.len() ==> s[j] != c,
    ensures
        last_idx_of(s, c) == k,
    decreases s.len(),
{
    if k < s.len() - 1 {
        assert(s.drop_last()[k] == s[k]);
        assert forall|j: int| k < j < s.len() - 1 implies s.drop_last()[j] != c by {
            assert(s.drop_last()[j] == s[j]);
        }
        lemma_last_idx_of_at(s.drop_last(), c, k);
    } else {
        assert(s.last() == s[k]);
    }
}

/// What `str::find` returns for a single-character pattern.
pub fn find_char(s: &str, c: char) -> (r: Option<usize>)
    ensures
        r is Some ==> first_idx_of(s@, c) == r->Some_0,
        r is None ==> first_idx_of(s@, c) == -1,
{
    let len: usize = s.unicode_len();
    let mut i: usize = 0;
    while i < len
        invariant
            0 <= i <= len,
            len == s@.len(),
            forall|j: int| 0 <= j < i ==> s@[j] != c,
        decreases len - i,
    {
        if s.get_char(i) == c {
            proof {
                lemma_first_idx_of_at(s@, c, i as int);
            }
            return Some(i);
        }
        i = i + 1;
    }
    proof {
        lemma_first_idx_of(s@, c);
    }
    None
}

/// What `str::rfind` returns for a single-character pattern.
pub fn rfind_char(s: &str, c: char) -> (r: Option<usize>)
    ensures
        r is Some ==> last_idx_of(s@, c) == r->Some_0,
        r is None ==> last_idx_of(s@, c) == -1,
{
    let len: usize = s.unicode_len();
    let mut j: usize = len;
    while j > 0
        invariant
            0 <= j <= len,
            len == s@.len(),
            forall|t: int| j <= t < len ==> s@[t] != c,
        decreases j,
    {
        if s.get_char(j - 1) == c {
            proof {
                lemma_last_idx_of_at(s@, c, j as int - 1);
            }
            return Some(j - 1);
        }
        j = j - 1;
    }
    proof {
        lemma_last_idx_of(s@, c);
    }
    None
}

/// The pieces of `s` between occurrences of `c`, as `str::split` yields
/// them: never empty as a list, and `s` itself when `c` is absent.
pub open spec fn split_on(s: Seq<char>, c: char) -> Seq<Seq<char>>
    decreases s.len(),
{
    let i = first_idx_of(s, c);
    if 0 <= i && i < s.len() {
        seq![s.subrange(0, i)] + split_on(s.subrange(i + 1, s.len() as int), c)
    } else {
        seq![s]
    }
}

/// Splitting a sequence without the separator yields the sequence alone.
pub proof fn lemma_split_on_no_sep(s: Seq<char>, c: char)
    requires
        forall|j: int| 0 <= j < s.len() ==> s[j] != c,
    ensures
        split_on(s, c) == seq![s],
{
    lemma_first_idx_of(s, c);
    if first_idx_of(s, c) >= 0 {
        assert(s[first_idx_of(s, c)] == c);
    }
}

/// Splitting at a known first separator peels off one piece.
pub proof fn lemma_split_on_step(s: Seq<char>, c: char, k: int)
    requires
        0 <= k < s.len(),
        s[k] == c,
        forall|j: int| 0 <= j < k ==> s[j] != c,
    ensures
        split_on(s, c) == seq![s.subrange(0, k)] + split_on(s.subrange(k + 1, s.len() as int), c),
{
    lemma_first_idx_of_at(s, c, k);
}

/// What `str::split` collects for a single-character separator.
pub fn split_char(s: &str, c: char) -> (r: Vec<String>)
    ensures
        r.deep_view() == split_on(s@, c),
{
    let len: usize = s.unicode_len();
    proof {
        assert(s@.subrange(0, len as int) =~= s@);
    }
    let mut out: Vec<String> = Vec::new();
    let mut start: usize = 0;
    let mut i: usize = 0;
    while i < len
        invariant
            0 <= start <= i <= len,
            len == s@.len(),
            split_on(s@, c) == out.deep_view() + split_on(s@.subrange(start as int, len as int), c),
            forall|j: int| start <= j < i ==> s@[j] != c,
        decreases len - i,
    {
        if s.get_char(i) == c {
            let piece = s.substring_char(start, i);
            let owned = String::from_str(piece);
            out.push(owned);
            proof {
                let rest = s@.subrange(start as int, len as int);
                assert(forall|j: int|
                    0 <= j < rest.len() ==> rest[j] == #[trigger] s@[start + j]);
                lemma_split_on_step(rest, c, i as int - start as int);
                assert(rest.subrange(0, i as int - start as int) =~= s@.subrange(
                    start as int,
                    i as int,
                ));
                assert(rest.subrange(i as int - start as int + 1, rest.len() as int) =~= s@.subrange(
                    i as int + 1,
                    len as int,
                ));
                assert(out.deep_view() =~= out.deep_view().subrange(0, out.deep_view().len() - 1)
                    .push(piece@));
            }
            start = i + 1;
        }
        i = i + 1;
    }
    let piece = s.substring_char(start, len);
    let owned = String::from_str(piece);
    out.push(owned);
    proof {
        let rest = s@.subrange(start as int, len as int);
        assert(forall|j: int| 0 <= j < rest.len() ==> rest[j] == #[trigger] s@[start + j]);
        lemma_split_on_no_sep(rest, c);
        assert(out.deep_view() =~= out.deep_view().subrange(0, out.deep_view().len() - 1).push(
            rest,
        ));
    }
    out
}

} // verus!
