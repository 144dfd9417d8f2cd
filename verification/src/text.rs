//! Verified text helpers: lexicographic order on strings, whitespace
//! trimming, prefix tests, and the prefix-extraction scans the
//! telemetry formatting uses.

use vstd::prelude::*;

verus! {

use vstd::string::StrSliceExecFns;

/// Strict lexicographic order on character sequences, comparing by
/// scalar value; the same order Rust's `str` comparison yields.
pub open spec fn lex_lt(a: Seq<char>, b: Seq<char>) -> bool
    decreases a.len(),
{
    if b.len() == 0 {
        false
    } else if a.len() == 0 {
        true
    } else if a[0] != b[0] {
        a[0] < b[0]
    } else {
        lex_lt(a.drop_first(), b.drop_first())
    }
}

/// Of two distinct sequences, exactly one is lexicographically
/// smaller; a sequence is never smaller than itself.
pub proof fn lemma_lex_lt_trichotomy(a: Seq<char>, b: Seq<char>)
    ensures
        a == b ==> !lex_lt(a, b),
        a != b ==> (lex_lt(a, b) <==> !lex_lt(b, a)),
    decreases a.len(),
{
    if a.len() == 0 || b.len() == 0 {
        if a.len() == 0 && b.len() == 0 {
            assert(a =~= b);
        }
    } else if a[0] != b[0] {
        assert(a != b);
        assert(lex_lt(a, b) == (a[0] < b[0]));
        assert(lex_lt(b, a) == (b[0] < a[0]));
        assert(a[0] < b[0] || b[0] < a[0]);
    } else {
        lemma_lex_lt_trichotomy(a.drop_first(), b.drop_first());
        assert(lex_lt(a, b) == lex_lt(a.drop_first(), b.drop_first()));
        assert(lex_lt(b, a) == lex_lt(b.drop_first(), a.drop_first()));
        if a.drop_first() == b.drop_first() {
            assert forall|i: int| 0 <= i < a.len() implies a[i] == b[i] by {
                if i > 0 {
                    assert(a.drop_first()[i - 1] == b.drop_first()[i - 1]);
                }
            }
            assert(a =~= b);
        }
    }
}

/// Whether `a` comes strictly before `b` in lexicographic order.
pub fn str_lt(a: &str, b: &str) -> (r: bool)
    ensures
        r == lex_lt(a@, b@),
{
    let na = a.unicode_len();
    let nb = b.unicode_len();
    proof {
        assert(a@.skip(0) =~= a@);
        assert(b@.skip(0) =~= b@);
    }
    let mut i: usize = 0;
    loop
        invariant
            i <= na,
            i <= nb,
            na == a@.len(),
            nb == b@.len(),
            lex_lt(a@, b@) == lex_lt(a@.skip(i as int), b@.skip(i as int)),
        decreases na - i,
    {
        if i == na || i == nb {
            return i == na && i < nb;
        }
        let ca = a.get_char(i);
        let cb = b.get_char(i);
        if ca != cb {
            return ca < cb;
        }
        proof {
            assert(a@.skip(i as int).drop_first() =~= a@.skip(i as int + 1));
            assert(b@.skip(i as int).drop_first() =~= b@.skip(i as int + 1));
        }
        i = i + 1;
    }
}

/// The characters the trimming scans treat as blank: ASCII
/// whitespace.
pub open spec fn is_space_char(c: char) -> bool {
    c == ' ' || c == '\t' || c == '\n' || c == '\r' || c == '\u{b}' || c == '\u{c}'
}

fn is_space(c: char) -> (r: bool)
    ensures
        r == is_space_char(c),
{
    c == ' ' || c == '\t' || c == '\n' || c == '\r' || c == '\u{b}' || c == '\u{c}'
}

/// `s` with its leading blanks removed.
pub open spec fn trim_start_chars(s: Seq<char>) -> Seq<char>
    decreases s.len(),
{
    if s.len() > 0 && is_space_char(s[0]) {
        trim_start_chars(s.drop_first())
    } else {
        s
    }
}

/// `s` with its trailing blanks removed.
pub open spec fn trim_end_chars(s: Seq<char>) -> Seq<char>
    decreases s.len(),
{
    if s.len() > 0 && is_space_char(s.last()) {
        trim_end_chars(s.drop_last())
    } else {
        s
    }
}

/// `s` with leading and trailing blanks removed.
pub open spec fn trim_chars(s: Seq<char>) -> Seq<char> {
    trim_end_chars(trim_start_chars(s))
}

/// Remove leading and trailing ASCII whitespace.
pub fn trim_spaces<'a>(s: &'a str) -> (t: &'a str)
    ensures
        t@ == trim_chars(s@),
{
    let n = s.unicode_len();
    proof {
        assert(s@.skip(0) =~= s@);
    }
    let mut start: usize = 0;
    while start < n && is_space(s.get_char(start))
        invariant
            start <= n,
            n == s@.len(),
            trim_start_chars(s@) == trim_start_chars(s@.skip(start as int)),
        decreases n - start,
    {
        proof {
            assert(s@.skip(start as int).drop_first() =~= s@.skip(start as int + 1));
        }
        start = start + 1;
    }
    proof {
        assert(trim_start_chars(s@) =~= s@.subrange(start as int, n as int));
    }
    let mut end: usize = n;
    while end > start && is_space(s.get_char(end - 1))
        invariant
            start <= end <= n,
            n == s@.len(),
            trim_end_chars(s@.subrange(start as int, n as int)) == trim_end_chars(
                s@.subrange(start as int, end as int),
            ),
        decreases end,
    {
        proof {
            assert(s@.subrange(start as int, end as int).drop_last() =~= s@.subrange(
                start as int,
                end as int - 1,
            ));
        }
        end = end - 1;
    }
    let t = s.substring_char(start, end);
    proof {
        assert(trim_end_chars(s@.subrange(start as int, end as int)) == s@.subrange(
            start as int,
            end as int,
        ));
    }
    t
}

/// Whether `p` is a prefix of `s`.
pub open spec fn starts_with_chars(s: Seq<char>, p: Seq<char>) -> bool {
    p.len() <= s.len() && s.subrange(0, p.len() as int) == p
}

/// Whether `s` starts with `prefix`.
pub fn starts_with_str(s: &str, prefix: &str) -> (r: bool)
    ensures
        r == starts_with_chars(s@, prefix@),
{
    let n = s.unicode_len();
    let m = prefix.unicode_len();
    if m > n {
        return false;
    }
    let mut i: usize = 0;
    while i < m
        invariant
            i <= m <= n,
            n == s@.len(),
            m == prefix@.len(),
            forall|j: int| 0 <= j < i ==> s@[j] == prefix@[j],
        decreases m - i,
    {
        if s.get_char(i) != prefix.get_char(i) {
            proof {
                assert(s@.subrange(0, m as int)[i as int] != prefix@[i as int]);
            }
            return false;
        }
        i = i + 1;
    }
    proof {
        assert(s@.subrange(0, m as int) =~= prefix@);
    }
    true
}

/// Whether `pat` occurs in `s` at position `i`.
pub open spec fn is_match_at(s: Seq<char>, pat: Seq<char>, i: int) -> bool {
    0 <= i && i + pat.len() <= s.len() && s.subrange(i, i + pat.len()) == pat
}

/// The prefix of `s` that ends where `pat` first occurs; all of `s`
/// when `pat` does not occur.
pub open spec fn prefix_to_match_chars(s: Seq<char>, pat: Seq<char>) -> Seq<char>
    decreases s.len(),
{
    if is_match_at(s, pat, 0) {
        Seq::empty()
    } else if s.len() == 0 {
        s
    } else {
        seq![s[0]] + prefix_to_match_chars(s.drop_first(), pat)
    }
}

proof fn lemma_match_shift(s: Seq<char>, pat: Seq<char>, i: int)
    requires
        s.len() > 0,
        0 <= i,
    ensures
        is_match_at(s, pat, i + 1) == is_match_at(s.drop_first(), pat, i),
{
    if i + 1 + pat.len() <= s.len() {
        assert(s.drop_first().subrange(i, i + pat.len() as int) =~= s.subrange(
            i + 1,
            i + 1 + pat.len() as int,
        ));
    }
}

proof fn lemma_prefix_to_match_at(s: Seq<char>, pat: Seq<char>, k: int)
    requires
        is_match_at(s, pat, k),
        forall|j: int| 0 <= j < k ==> !is_match_at(s, pat, j),
    ensures
        prefix_to_match_chars(s, pat) == s.subrange(0, k),
    decreases k,
{
    if k == 0 {
        assert(prefix_to_match_chars(s, pat) =~= s.subrange(0, 0));
    } else {
        assert(s.len() > 0);
        lemma_match_shift(s, pat, k - 1);
        assert forall|j: int| 0 <= j < k - 1 implies !is_match_at(s.drop_first(), pat, j) by {
            lemma_match_shift(s, pat, j);
        }
        lemma_prefix_to_match_at(s.drop_first(), pat, k - 1);
        assert(seq![s[0]] + s.drop_first().subrange(0, k - 1) =~= s.subrange(0, k));
    }
}

proof fn lemma_prefix_to_match_whole(s: Seq<char>, pat: Seq<char>)
    requires
        forall|j: int| !is_match_at(s, pat, j),
    ensures
        prefix_to_match_chars(s, pat) == s,
    decreases s.len(),
{
    assert(!is_match_at(s, pat, 0));
    if s.len() > 0 {
        assert forall|j: int| !is_match_at(s.drop_first(), pat, j) by {
            if 0 <= j {
                lemma_match_shift(s, pat, j);
            }
        }
        lemma_prefix_to_match_whole(s.drop_first(), pat);
        assert(seq![s[0]] + s.drop_first() =~= s);
    }
}

/// The prefix of `s` up to the first occurrence of `pat`, or all of
/// `s` when `pat` never occurs.
pub fn prefix_to_match(s: &str, pat: &str) -> (t: String)
    ensures
        t@ == prefix_to_match_chars(s@, pat@),
    decreases s@.len(),
{
    let n = s.unicode_len();
    let m = pat.unicode_len();
    if m > n {
        proof {
            assert forall|j: int| !is_match_at(s@, pat@, j) by {
                if j >= 0 {
                    assert(j + m > n);
                }
            }
            lemma_prefix_to_match_whole(s@, pat@);
        }
        return s.to_owned();
    }
    let mut i: usize = 0;
    while i <= n - m
        invariant
            n == s@.len(),
            m == pat@.len(),
            m <= n,
            i <= n - m + 1,
            forall|j: int| 0 <= j < i ==> !is_match_at(s@, pat@, j),
        decreases n - i,
    {
        let mut k: usize = 0;
        let mut matched: bool = true;
        while k < m
            invariant
                i + m <= n,
                n == s@.len(),
                m == pat@.len(),
                k <= m,
                matched == (forall|j: int| 0 <= j < k ==> s@[i + j] == pat@[j]),
            decreases m - k,
        {
            if s.get_char(i + k) != pat.get_char(k) {
                matched = false;
                k = m;
            } else {
                k = k + 1;
            }
        }
        if matched {
            proof {
                assert(s@.subrange(i as int, i as int + m as int) =~= pat@);
                lemma_prefix_to_match_at(s@, pat@, i as int);
            }
            let t = s.substring_char(0, i);
            return t.to_owned();
        }
        proof {
            assert(s@.subrange(i as int, i as int + m as int) != pat@) by {
                let j = choose|j: int| 0 <= j < m && s@[i + j] != pat@[j];
                assert(s@.subrange(i as int, i as int + m as int)[j] != pat@[j]);
            }
        }
        i = i + 1;
    }
    proof {
        assert forall|j: int| !is_match_at(s@, pat@, j) by {
            if j >= i {
                assert(j + m > n);
            }
        }
        lemma_prefix_to_match_whole(s@, pat@);
    }
    s.to_owned()
}

/// The prefix of `s` that ends at its `k`-th space character, or all
/// of `s` when it holds fewer than `k` spaces.  This is what keeping
/// the first `k` space-separated fields and joining them with single
/// spaces yields.
pub open spec fn prefix_to_nth_space_chars(s: Seq<char>, k: int) -> Seq<char>
    decreases s.len(),
{
    if s.len() == 0 {
        s
    } else if s[0] == ' ' && k <= 1 {
        Seq::empty()
    } else if s[0] == ' ' {
        seq![s[0]] + prefix_to_nth_space_chars(s.drop_first(), k - 1)
    } else {
        seq![s[0]] + prefix_to_nth_space_chars(s.drop_first(), k)
    }
}

/// How many times `c` occurs in `s`.
pub open spec fn count_char(s: Seq<char>, c: char) -> nat
    decreases s.len(),
{
    if s.len() == 0 {
        0nat
    } else {
        count_char(s.drop_last(), c) + if s.last() == c {
            1nat
        } else {
            0nat
        }
    }
}

proof fn lemma_count_char_singleton(c0: char, c: char)
    ensures
        count_char(seq![c0], c) == if c0 == c {
            1nat
        } else {
            0nat
        },
{
    assert(seq![c0].drop_last() =~= Seq::<char>::empty());
    assert(count_char(Seq::<char>::empty(), c) == 0);
}

proof fn lemma_prefix_to_nth_space_at(s: Seq<char>, k: int, p: int)
    requires
        0 <= p < s.len(),
        s[p] == ' ',
        k >= 1,
        count_char(s.subrange(0, p), ' ') == k - 1,
    ensures
        prefix_to_nth_space_chars(s, k) == s.subrange(0, p),
    decreases s.len(),
{
    lemma_count_char_skip(s, p, ' ');
    if p == 0 {
        assert(prefix_to_nth_space_chars(s, k) =~= s.subrange(0, 0));
    } else {
        assert(count_char(s.subrange(0, p), ' ') == count_char(s.subrange(1, p), ' ') + (
        if s[0] == ' ' {
            1nat
        } else {
            0nat
        })) by {
            lemma_count_char_skip(s.subrange(0, p), 1int, ' ');
            assert(s.subrange(0, p).subrange(1, p) =~= s.subrange(1, p));
            assert(s.subrange(0, p).subrange(0, 1) =~= seq![s[0]]);
            lemma_count_char_singleton(s[0], ' ');
        }
        if s[0] == ' ' {
            assert(k >= 2);
            assert(s.drop_first().subrange(0, p - 1) =~= s.subrange(1, p));
            lemma_prefix_to_nth_space_at(s.drop_first(), k - 1, p - 1);
        } else {
            assert(s.drop_first().subrange(0, p - 1) =~= s.subrange(1, p));
            lemma_prefix_to_nth_space_at(s.drop_first(), k, p - 1);
        }
        assert(seq![s[0]] + s.drop_first().subrange(0, p - 1) =~= s.subrange(0, p));
    }
}

/// Splitting a sequence at `p` splits its character count.
proof fn lemma_count_char_skip(s: Seq<char>, p: int, c: char)
    requires
        0 <= p <= s.len(),
    ensures
        count_char(s, c) == count_char(s.subrange(0, p), c) + count_char(s.subrange(p, s.len() as int), c),
    decreases s.len() - p,
{
    if p == s.len() {
        assert(s.subrange(0, p) =~= s);
        assert(count_char(s.subrange(p, s.len() as int), c) == 0) by {
            assert(s.subrange(p, s.len() as int) =~= Seq::<char>::empty());
        }
    } else {
        lemma_count_char_skip(s, p + 1, c);
        assert(s.subrange(0, p + 1).drop_last() =~= s.subrange(0, p));
        assert(s.subrange(p, s.len() as int).drop_first() =~= s.subrange(p + 1, s.len() as int));
        lemma_count_char_first(s.subrange(p, s.len() as int), c);
    }
}

/// Counting from the front: the count is the head's contribution plus
/// the tail's count.
proof fn lemma_count_char_first(s: Seq<char>, c: char)
    requires
        s.len() > 0,
    ensures
        count_char(s, c) == count_char(s.drop_first(), c) + if s[0] == c {
            1nat
        } else {
            0nat
        },
    decreases s.len(),
{
    if s.len() == 1 {
        assert(s.drop_last() =~= Seq::<char>::empty());
        assert(s.drop_first() =~= Seq::<char>::empty());
    } else {
        lemma_count_char_first(s.drop_last(), c);
        assert(s.drop_last().drop_first() =~= s.drop_first().drop_last());
        assert(s.drop_last()[0] == s[0]);
        assert(s.drop_first().last() == s.last());
    }
}

proof fn lemma_prefix_to_nth_space_whole(s: Seq<char>, k: int)
    requires
        count_char(s, ' ') < k,
    ensures
        prefix_to_nth_space_chars(s, k) == s,
    decreases s.len(),
{
    if s.len() > 0 {
        lemma_count_char_first(s, ' ');
        if s[0] == ' ' {
            assert(k >= 2);
            lemma_prefix_to_nth_space_whole(s.drop_first(), k - 1);
        } else {
            lemma_prefix_to_nth_space_whole(s.drop_first(), k);
        }
        assert(seq![s[0]] + s.drop_first() =~= s);
    }
}

/// The prefix of `s` up to its `k`-th space, or all of `s` when it
/// holds fewer than `k` spaces.
pub fn prefix_to_nth_space(s: &str, k: usize) -> (t: String)
    requires
        k >= 1,
    ensures
        t@ == prefix_to_nth_space_chars(s@, k as int),
{
    let n = s.unicode_len();
    let mut i: usize = 0;
    let mut seen: usize = 0;
    while i < n
        invariant
            i <= n,
            n == s@.len(),
            seen < k,
            seen == count_char(s@.subrange(0, i as int), ' '),
        decreases n - i,
    {
        let c = s.get_char(i);
        proof {
            assert(s@.subrange(0, i as int + 1).drop_last() =~= s@.subrange(0, i as int));
        }
        if c == ' ' {
            if seen + 1 == k {
                proof {
                    lemma_prefix_to_nth_space_at(s@, k as int, i as int);
                }
                let t = s.substring_char(0, i);
                return t.to_owned();
            }
            seen = seen + 1;
        }
        i = i + 1;
    }
    proof {
        assert(s@.subrange(0, n as int) =~= s@);
        lemma_prefix_to_nth_space_whole(s@, k as int);
    }
    s.to_owned()
}

} // verus!
