//! Resolving a session's working directory: the parsing of the
//! listing that the host's `lsof` utility prints for a process's
//! current working directory.  Running the utility is the driver's
//! task; the last-line field extraction is verified here.

use vstd::prelude::*;

verus! {

use vstd::string::StrSliceExecFns;
use crate::file::dir_path_chars;

/// The tail of `t` after its last newline; all of `t` when it holds
/// none.
pub open spec fn after_last_newline(t: Seq<char>) -> Seq<char>
    decreases t.len(),
{
    if t.len() == 0 {
        t
    } else if t.last() == '\n' {
        Seq::empty()
    } else {
        after_last_newline(t.drop_last()).push(t.last())
    }
}

/// The last line of `s`: a trailing newline terminates the last line
/// rather than opening an empty one, and a carriage return before the
/// line break is not part of the line.
pub open spec fn last_line_chars(s: Seq<char>) -> Seq<char> {
    let t = if s.len() > 0 && s.last() == '\n' {
        s.drop_last()
    } else {
        s
    };
    let line = after_last_newline(t);
    if line.len() > 0 && line.last() == '\r' {
        line.drop_last()
    } else {
        line
    }
}

/// The working directory in a per-process `lsof` field listing: the
/// last line with its one-character field tag removed.  `None` when
/// the listing is empty or its last line holds nothing but the tag.
pub open spec fn cwd_of_listing(s: Seq<char>) -> Option<Seq<char>> {
    let line = last_line_chars(s);
    if line.len() > 0 {
        Some(line.drop_first())
    } else {
        None
    }
}

proof fn lemma_after_last_newline_at(t: Seq<char>, k: int)
    requires
        0 <= k <= t.len(),
        forall|i: int| k <= i < t.len() ==> t[i] != '\n',
        k > 0 ==> t[k - 1] == '\n',
    ensures
        after_last_newline(t) == t.subrange(k, t.len() as int),
    decreases t.len() - k,
{
    if k == t.len() {
        if t.len() == 0 {
        } else if t.last() == '\n' {
        } else {
            assert(t[t.len() - 1] != '\n');
            assert(t.last() == '\n');
        }
        assert(after_last_newline(t) =~= t.subrange(k, t.len() as int));
    } else {
        assert(t.last() == t[t.len() - 1]);
        assert(t.last() != '\n');
        lemma_after_last_newline_at(t.drop_last(), k);
        assert(t.drop_last().subrange(k, t.len() - 1) =~= t.subrange(k, t.len() - 1));
        assert(t.subrange(k, t.len() - 1).push(t.last()) =~= t.subrange(k, t.len() as int));
    }
}

/// Extract the working directory from a per-process `lsof` field
/// listing.
pub fn cwd_from_listing(output: &str) -> (cwd: Option<String>)
    ensures
        match cwd {
            Some(c) => cwd_of_listing(output@) == Some(c@),
            None => cwd_of_listing(output@) is None,
        },
{
    let n = output.unicode_len();
    let t_end: usize = if n > 0 && output.get_char(n - 1) == '\n' {
        n - 1
    } else {
        n
    };
    let ghost t = if output@.len() > 0 && output@.last() == '\n' {
        output@.drop_last()
    } else {
        output@
    };
    proof {
        assert(t =~= output@.subrange(0, t_end as int));
    }
    let mut start: usize = t_end;
    while start > 0 && output.get_char(start - 1) != '\n'
        invariant
            start <= t_end,
            t_end <= n,
            n == output@.len(),
            t == output@.subrange(0, t_end as int),
            forall|i: int| start <= i < t_end ==> t[i] != '\n',
        decreases start,
    {
        start = start - 1;
    }
    proof {
        lemma_after_last_newline_at(t, start as int);
    }
    let line_end: usize = if t_end > start && output.get_char(t_end - 1) == '\r' {
        t_end - 1
    } else {
        t_end
    };
    proof {
        let raw_line = t.subrange(start as int, t_end as int);
        assert(raw_line.len() > 0 ==> raw_line.last() == t[t_end as int - 1] && t[t_end as int - 1]
            == output@[t_end as int - 1]);
        assert(last_line_chars(output@) =~= t.subrange(start as int, line_end as int));
        assert(t.subrange(start as int, line_end as int) =~= output@.subrange(
            start as int,
            line_end as int,
        ));
    }
    if line_end > start {
        let c = output.substring_char(start + 1, line_end);
        proof {
            assert(output@.subrange(start as int, line_end as int).drop_first() =~= output@
                .subrange(start as int + 1, line_end as int));
        }
        Some(c.to_owned())
    } else {
        None
    }
}

/// Append a trailing slash to a directory's path when it lacks one.
pub fn convert_path_to_strong(path_str: &str, is_directory: bool) -> (converted: String)
    ensures
        converted@ == dir_path_chars(path_str@, is_directory),
{
    crate::file::convert_path_to_string(path_str, is_directory)
}

} // verus!
