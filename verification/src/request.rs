//! Request-line handling: the first CRLF-terminated line of the received
//! buffer is split on whitespace, and the first two tokens are the method
//! and the path. A line with fewer than two tokens is rejected.

use vstd::prelude::*;

verus! {

/// The bytes that separate tokens on a request line: the ASCII whitespace
/// bytes — space, tab, LF, VT, FF, CR. A bare CR or LF that is not part of
/// a CRLF pair separates tokens rather than ending the line. Splitting
/// works byte for byte, so a multi-byte Unicode space never separates
/// tokens; that is a deliberate boundary of the wire contract.
pub open spec fn is_ws(b: u8) -> bool {
    b == 32 || (9 <= b && b <= 13)
}

/// The prefix of `b` before its first CRLF pair, or all of `b` when no CRLF
/// occurs.
pub open spec fn first_line(b: Seq<u8>) -> Seq<u8>
    decreases b.len(),
{
    if b.len() < 2 {
        b
    } else if b[0] == 13 && b[1] == 10 {
        Seq::empty()
    } else {
        seq![b[0]] + first_line(b.drop_first())
    }
}

/// The length of the maximal non-whitespace prefix of `s`.
pub open spec fn tok_len(s: Seq<u8>) -> nat
    decreases s.len(),
{
    if s.len() == 0 || is_ws(s[0]) {
        0
    } else {
        1 + tok_len(s.drop_first())
    }
}

proof fn lemma_tok_len_le(s: Seq<u8>)
    ensures
        tok_len(s) <= s.len(),
    decreases s.len(),
{
    if s.len() != 0 && !is_ws(s[0]) {
        lemma_tok_len_le(s.drop_first());
    }
}

/// The whitespace-separated tokens of `s`, in order.
pub open spec fn tokens_of(s: Seq<u8>) -> Seq<Seq<u8>>
    decreases s.len(),
    via tokens_of_dec
{
    if s.len() == 0 {
        Seq::empty()
    } else if is_ws(s[0]) {
        tokens_of(s.drop_first())
    } else {
        seq![s.take(tok_len(s) as int)] + tokens_of(s.skip(tok_len(s) as int))
    }
}

#[via_fn]
proof fn tokens_of_dec(s: Seq<u8>) {
    if s.len() != 0 && !is_ws(s[0]) {
        lemma_tok_len_le(s);
    }
}

/// A CRLF pair at position `i`, with no CRLF pair before it, ends the first
/// line exactly there.
proof fn lemma_first_line_crlf(b: Seq<u8>, i: int)
    requires
        0 <= i,
        i + 1 < b.len(),
        b[i] == 13 && b[i + 1] == 10,
        forall|j: int| #![trigger b[j]] 0 <= j < i ==> !(b[j] == 13 && b[j + 1] == 10),
    ensures
        first_line(b) == b.take(i),
    decreases i,
{
    if i == 0 {
        assert(first_line(b) =~= b.take(0));
    } else {
        lemma_first_line_crlf(b.drop_first(), i - 1);
        assert(seq![b[0]] + b.drop_first().take(i - 1) =~= b.take(i));
    }
}

/// With no CRLF pair anywhere, the first line is the whole buffer.
proof fn lemma_first_line_no_crlf(b: Seq<u8>)
    requires
        forall|j: int| #![trigger b[j]] 0 <= j < b.len() - 1 ==> !(b[j] == 13 && b[j + 1] == 10),
    ensures
        first_line(b) == b,
    decreases b.len(),
{
    if b.len() >= 2 {
        lemma_first_line_no_crlf(b.drop_first());
        assert(seq![b[0]] + b.drop_first() =~= b);
    }
}

/// Dropping a run of leading whitespace does not change the token list.
proof fn lemma_tokens_skip_ws(s: Seq<u8>, k: int)
    requires
        0 <= k <= s.len(),
        forall|j: int| 0 <= j < k ==> is_ws(s[j]),
    ensures
        tokens_of(s) == tokens_of(s.skip(k)),
    decreases k,
{
    if k == 0 {
        assert(s.skip(0) =~= s);
    } else {
        lemma_tokens_skip_ws(s.drop_first(), k - 1);
        assert(s.drop_first().skip(k - 1) =~= s.skip(k));
    }
}

/// A non-whitespace run of length `t` at the front of `s`, ended by
/// whitespace or by the end of `s`, is exactly the maximal token prefix.
proof fn lemma_tok_len_exact(s: Seq<u8>, t: int)
    requires
        0 <= t <= s.len(),
        forall|j: int| 0 <= j < t ==> !is_ws(s[j]),
        t == s.len() || is_ws(s[t]),
    ensures
        tok_len(s) == t,
    decreases t,
{
    if t > 0 {
        lemma_tok_len_exact(s.drop_first(), t - 1);
    }
}

fn find_line_end(b: &[u8]) -> (e: usize)
    ensures
        e <= b@.len(),
        first_line(b@) == b@.take(e as int),
{
    let n = b.len();
    let mut i: usize = 0;
    while n - i > 1
        invariant
            i <= n,
            n == b@.len(),
            forall|j: int| #![trigger b@[j]] 0 <= j < i ==> !(b@[j] == 13 && b@[j + 1] == 10),
        decreases n - i,
    {
        if *vstd::slice::slice_index_get(b, i) == 13 && *vstd::slice::slice_index_get(b, i + 1)
            == 10 {
            proof {
                lemma_first_line_crlf(b@, i as int);
            }
            return i;
        }
        i += 1;
    }
    proof {
        lemma_first_line_no_crlf(b@);
        assert(b@.take(n as int) =~= b@);
    }
    n
}

/// Splits the first line of `buffer` on whitespace and returns its first two
/// tokens — the request method and path — or nothing when the line has fewer
/// than two tokens.
pub fn parse_request_line(buffer: &[u8]) -> (r: Option<(Vec<u8>, Vec<u8>)>)
    ensures
        ({
            let toks = tokens_of(first_line(buffer@));
            match r {
                Some(mp) => toks.len() >= 2 && mp.0@ == toks[0] && mp.1@ == toks[1],
                None => toks.len() < 2,
            }
        }),
{
    let line_end = find_line_end(buffer);
    let ghost line = buffer@.take(line_end as int);

    // Skip leading whitespace.
    let mut a: usize = 0;
    while a < line_end && byte_is_ws(*vstd::slice::slice_index_get(buffer, a))
        invariant
            a <= line_end <= buffer@.len(),
            line == buffer@.take(line_end as int),
            forall|j: int| 0 <= j < a ==> is_ws(line[j]),
        decreases line_end - a,
    {
        a += 1;
    }
    proof {
        lemma_tokens_skip_ws(line, a as int);
    }
    if a == line_end {
        proof {
            assert(line.skip(a as int) =~= Seq::<u8>::empty());
        }
        return None;
    }

    // The method token runs to the next whitespace byte or the end of line.
    let mut b: usize = a;
    while b < line_end && !byte_is_ws(*vstd::slice::slice_index_get(buffer, b))
        invariant
            a <= b <= line_end <= buffer@.len(),
            line == buffer@.take(line_end as int),
            forall|j: int| a <= j < b ==> !is_ws(line[j]),
        decreases line_end - b,
    {
        b += 1;
    }
    proof {
        lemma_tok_len_exact(line.skip(a as int), b - a);
        assert(line.skip(a as int).take(b - a) =~= buffer@.subrange(a as int, b as int));
        assert(line.skip(a as int).skip(b - a) =~= line.skip(b as int));
    }
    let method = vstd::slice::slice_to_vec(vstd::slice::slice_subrange(buffer, a, b));

    // Skip the whitespace between the two tokens.
    let mut c: usize = b;
    while c < line_end && byte_is_ws(*vstd::slice::slice_index_get(buffer, c))
        invariant
            b <= c <= line_end <= buffer@.len(),
            line == buffer@.take(line_end as int),
            forall|j: int| b <= j < c ==> is_ws(line[j]),
        decreases line_end - c,
    {
        c += 1;
    }
    proof {
        lemma_tokens_skip_ws(line.skip(b as int), c - b);
        assert(line.skip(b as int).skip(c - b) =~= line.skip(c as int));
    }
    if c == line_end {
        proof {
            assert(line.skip(c as int) =~= Seq::<u8>::empty());
        }
        return None;
    }

    // The path token.
    let mut d: usize = c;
    while d < line_end && !byte_is_ws(*vstd::slice::slice_index_get(buffer, d))
        invariant
            c <= d <= line_end <= buffer@.len(),
            line == buffer@.take(line_end as int),
            forall|j: int| c <= j < d ==> !is_ws(line[j]),
        decreases line_end - d,
    {
        d += 1;
    }
    proof {
        lemma_tok_len_exact(line.skip(c as int), d - c);
        assert(line.skip(c as int).take(d - c) =~= buffer@.subrange(c as int, d as int));
    }
    let path = vstd::slice::slice_to_vec(vstd::slice::slice_subrange(buffer, c, d));

    Some((method, path))
}

/// Byte-for-byte equality of two byte strings.
pub fn bytes_eq(a: &[u8], b: &[u8]) -> (r: bool)
    ensures
        r == (a@ == b@),
{
    if a.len() != b.len() {
        return false;
    }
    let mut i: usize = 0;
    while i < a.len()
        invariant
            i <= a@.len(),
            a@.len() == b@.len(),
            forall|j: int| 0 <= j < i ==> a@[j] == b@[j],
        decreases a@.len() - i,
    {
        if *vstd::slice::slice_index_get(a, i) != *vstd::slice::slice_index_get(b, i) {
            return false;
        }
        i += 1;
    }
    proof {
        assert(a@ =~= b@);
    }
    true
}

fn byte_is_ws(b: u8) -> (r: bool)
    ensures
        r == is_ws(b),
{
    b == 32 || (9 <= b && b <= 13)
}

} // verus!
