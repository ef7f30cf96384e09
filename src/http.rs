//! Reading HTTP/1.1 response headers: the status line and the
//! `Content-Length` header.
use vstd::prelude::*;
use crate::text::{
    chars_of, parse_unsigned, parse_unsigned_in, range_eq_ascii_nocase, seq_eq_ascii_nocase,
    skip_nonwhitespace, skip_whitespace, skip_word, skip_ws, trim, trim_bounds,
};

verus! {

/// Index of the first `\n` at or after `i`, or the length when there is none.
pub open spec fn line_end(s: Seq<char>, i: int) -> int
    decreases s.len() - i,
{
    if 0 <= i < s.len() && s[i] != '\n' {
        line_end(s, i + 1)
    } else {
        i
    }
}

pub proof fn lemma_line_end_bounds(s: Seq<char>, i: int)
    requires
        0 <= i <= s.len(),
    ensures
        i <= line_end(s, i) <= s.len(),
        line_end(s, i) < s.len() ==> s[line_end(s, i)] == '\n',
    decreases s.len() - i,
{
    if i < s.len() && s[i] != '\n' {
        lemma_line_end_bounds(s, i + 1);
    }
}

/// The line that starts at `i`, as `str::lines` yields it: without its `\n`,
/// and without a `\r` just before that `\n`.
pub open spec fn line_at(s: Seq<char>, i: int) -> Seq<char> {
    let e = line_end(s, i);
    if e < s.len() && e > i && s[e - 1] == '\r' {
        s.subrange(i, e - 1)
    } else {
        s.subrange(i, e)
    }
}

/// The status code of a response: the second whitespace-separated field of
/// its first line, read as a `u16`.
pub open spec fn status_code_of(s: Seq<char>) -> Option<nat> {
    let l = s.subrange(0, line_end(s, 0));
    let a0 = skip_ws(l, 0);
    let b0 = skip_word(l, a0);
    let a1 = skip_ws(l, b0);
    let b1 = skip_word(l, a1);
    if a1 < l.len() {
        parse_unsigned(l.subrange(a1, b1), 0xffff)
    } else {
        None
    }
}

/// The name of the header that gives the body length, in lower case.
pub open spec fn content_length_name() -> Seq<char> {
    seq!['c', 'o', 'n', 't', 'e', 'n', 't', '-', 'l', 'e', 'n', 'g', 't', 'h', ':']
}

/// The length that one header line announces, when it is a `Content-Length`
/// line (the name in any ASCII case) with a valid `usize` after the colon.
pub open spec fn line_content_length(l: Seq<char>) -> Option<nat> {
    if l.len() >= 15 && seq_eq_ascii_nocase(l.take(15), content_length_name()) {
        parse_unsigned(trim(l.skip(15)), usize::MAX as nat)
    } else {
        None
    }
}

/// The first announced length among the lines from `i` on, stopping at the
/// first empty line.
pub open spec fn content_length_from(s: Seq<char>, i: int) -> Option<nat>
    decreases s.len() - i,
    via content_length_from_decreases
{
    if i < 0 || i >= s.len() {
        None
    } else {
        let l = line_at(s, i);
        match line_content_length(l) {
            Some(n) => Some(n),
            None => if l.len() == 0 || line_end(s, i) >= s.len() {
                None
            } else {
                content_length_from(s, line_end(s, i) + 1)
            },
        }
    }
}

#[via_fn]
proof fn content_length_from_decreases(s: Seq<char>, i: int) {
    if 0 <= i < s.len() {
        lemma_line_end_bounds(s, i);
    }
}

/// The body length that a response header announces.
pub open spec fn content_length_of(s: Seq<char>) -> Option<nat> {
    content_length_from(s, 0)
}

/// Index of the first `\n` at or after `i` in `v`, or its length.
fn find_line_end(v: &Vec<char>, i: usize) -> (r: usize)
    requires
        i <= v.len(),
    ensures
        r as int == line_end(v@, i as int),
        i <= r <= v.len(),
{
    let mut k = i;
    while k < v.len() && v[k] != '\n'
        invariant
            i <= k <= v.len(),
            line_end(v@, k as int) == line_end(v@, i as int),
        decreases v.len() - k,
    {
        k = k + 1;
    }
    k
}

/// Parses the status code out of a response such as `HTTP/1.1 200 OK`.
pub fn parse_http_status_code(response: &str) -> (r: Option<u16>)
    ensures
        match status_code_of(response@) {
            Some(n) => r is Some && r->0 == n,
            None => r is None,
        },
{
    let all = chars_of(response);
    let e = find_line_end(&all, 0);
    let mut line: Vec<char> = Vec::new();
    let mut k: usize = 0;
    while k < e
        invariant
            e <= all.len(),
            k <= e,
            line@ == all@.subrange(0, k as int),
        decreases e - k,
    {
        line.push(all[k]);
        k = k + 1;
    }
    let ghost l = all@.subrange(0, e as int);
    assert(line@ == l);
    let a0 = skip_whitespace(&line, 0);
    let b0 = skip_nonwhitespace(&line, a0);
    let a1 = skip_whitespace(&line, b0);
    let b1 = skip_nonwhitespace(&line, a1);
    if a1 < line.len() {
        match parse_unsigned_in(&line, a1, b1, 0xffff) {
            Some(n) => Some(n as u16),
            None => None,
        }
    } else {
        None
    }
}

/// Reads the body length that a response header announces.
pub fn parse_content_length(header: &str) -> (r: Option<usize>)
    ensures
        match content_length_of(header@) {
            Some(n) => r is Some && r->0 == n,
            None => r is None,
        },
{
    let s = chars_of(header);
    let name: Vec<char> = vec!['c', 'o', 'n', 't', 'e', 'n', 't', '-', 'l', 'e', 'n', 'g', 't', 'h', ':'];
    assert(name@ =~= content_length_name());
    let mut i: usize = 0;
    while i < s.len()
        invariant
            i <= s.len(),
            s@ == header@,
            name@ == content_length_name(),
            content_length_from(s@, i as int) == content_length_from(s@, 0),
        decreases s.len() - i,
    {
        let e = find_line_end(&s, i);
        proof {
            lemma_line_end_bounds(s@, i as int);
        }
        let stop = if e < s.len() && e > i && s[e - 1] == '\r' {
            e - 1
        } else {
            e
        };
        let ghost l = line_at(s@, i as int);
        assert(l =~= s@.subrange(i as int, stop as int));
        if stop - i >= 15 && range_eq_ascii_nocase(&s, i, i + 15, &name) {
            assert(l.take(15) =~= s@.subrange(i as int, i + 15));
            let (a, b) = trim_bounds(&s, i + 15, stop);
            assert(l.skip(15) =~= s@.subrange(i + 15, stop as int));
            match parse_unsigned_in(&s, a, b, usize::MAX as u64) {
                Some(n) => {
                    assert(line_content_length(l) == Some(n as nat));
                    assert(content_length_from(s@, i as int) == Some(n as nat));
                    return Some(n as usize);
                },
                None => {
                    assert(line_content_length(l) is None);
                },
            }
        } else {
            assert(l.len() >= 15 ==> l.take(15) =~= s@.subrange(i as int, i + 15));
        }
        assert(line_content_length(l) is None);
        if stop == i || e >= s.len() {
            assert(content_length_from(s@, i as int) is None);
            return None;
        }
        i = e + 1;
    }
    None
}

} // verus!
