//! Verified splitting of a byte buffer into lines, of a line into
//! whitespace-separated tokens, and of a face corner token into its
//! `/`-separated components.

use vstd::prelude::*;
use vstd::slice::slice_subrange;

verus! {

/// A byte that ends a line (`\n` or `\r`).
pub open spec fn is_line_break(c: u8) -> bool {
    c == 10u8 || c == 13u8
}

/// ASCII whitespace, as `u8::is_ascii_whitespace` recognizes it.
pub open spec fn is_space(c: u8) -> bool {
    c == 32u8 || c == 9u8 || c == 10u8 || c == 12u8 || c == 13u8
}

/// The component separator inside a face corner token (`/`).
pub open spec fn is_slash(c: u8) -> bool {
    c == 47u8
}

/// The lines of a buffer: segments between line-break bytes, empties kept.
/// The result always holds at least one line.
pub open spec fn spec_lines(s: Seq<u8>) -> Seq<Seq<u8>>
    decreases s.len(),
{
    if s.len() == 0 {
        seq![Seq::<u8>::empty()]
    } else if is_line_break(s[0]) {
        seq![Seq::<u8>::empty()] + spec_lines(s.drop_first())
    } else {
        let rest = spec_lines(s.drop_first());
        seq![seq![s[0]] + rest[0]] + rest.drop_first()
    }
}

/// The `/`-separated components of a face corner token, empties kept.
/// The result always holds at least one component.
pub open spec fn spec_corner_parts(s: Seq<u8>) -> Seq<Seq<u8>>
    decreases s.len(),
{
    if s.len() == 0 {
        seq![Seq::<u8>::empty()]
    } else if is_slash(s[0]) {
        seq![Seq::<u8>::empty()] + spec_corner_parts(s.drop_first())
    } else {
        let rest = spec_corner_parts(s.drop_first());
        seq![seq![s[0]] + rest[0]] + rest.drop_first()
    }
}

/// The whitespace-separated tokens of a line, in order; empties dropped.
pub open spec fn spec_tokens(s: Seq<u8>) -> Seq<Seq<u8>>
    decreases s.len(),
{
    if s.len() == 0 {
        Seq::<Seq<u8>>::empty()
    } else if is_space(s[0]) {
        spec_tokens(s.drop_first())
    } else {
        let rest = spec_tokens(s.drop_first());
        if s.len() >= 2 && !is_space(s[1]) {
            seq![seq![s[0]] + rest[0]] + rest.drop_first()
        } else {
            seq![seq![s[0]]] + rest
        }
    }
}

pub proof fn lemma_lines_len(s: Seq<u8>)
    ensures
        spec_lines(s).len() >= 1,
    decreases s.len(),
{
    if s.len() == 0 {
    } else {
        lemma_lines_len(s.drop_first());
    }
}

pub proof fn lemma_corner_parts_len(s: Seq<u8>)
    ensures
        spec_corner_parts(s).len() >= 1,
    decreases s.len(),
{
    if s.len() == 0 {
    } else {
        lemma_corner_parts_len(s.drop_first());
    }
}

/// A run without line breaks is a single line.
pub proof fn lemma_lines_no_sep(s: Seq<u8>)
    requires
        forall|j: int| 0 <= j < s.len() ==> !is_line_break(s[j]),
    ensures
        spec_lines(s) == seq![s],
    decreases s.len(),
{
    if s.len() == 0 {
        assert(s =~= Seq::<u8>::empty());
        assert(spec_lines(s) =~~= seq![s]);
    } else {
        lemma_lines_no_sep(s.drop_first());
        let rest = spec_lines(s.drop_first());
        assert(rest.drop_first() =~~= Seq::<Seq<u8>>::empty());
        assert(seq![s[0]] + s.drop_first() =~= s);
        assert(spec_lines(s) =~~= seq![s]);
    }
}

/// A run without slashes is a single component.
pub proof fn lemma_corner_parts_no_sep(s: Seq<u8>)
    requires
        forall|j: int| 0 <= j < s.len() ==> !is_slash(s[j]),
    ensures
        spec_corner_parts(s) == seq![s],
    decreases s.len(),
{
    if s.len() == 0 {
        assert(s =~= Seq::<u8>::empty());
        assert(spec_corner_parts(s) =~~= seq![s]);
    } else {
        lemma_corner_parts_no_sep(s.drop_first());
        let rest = spec_corner_parts(s.drop_first());
        assert(rest.drop_first() =~~= Seq::<Seq<u8>>::empty());
        assert(seq![s[0]] + s.drop_first() =~= s);
        assert(spec_corner_parts(s) =~~= seq![s]);
    }
}

/// Splitting at the first line break peels off one line.
pub proof fn lemma_lines_first_sep(s: Seq<u8>, i: int)
    requires
        0 <= i < s.len(),
        is_line_break(s[i]),
        forall|j: int| 0 <= j < i ==> !is_line_break(s[j]),
    ensures
        spec_lines(s) == seq![s.subrange(0, i)] + spec_lines(s.subrange(i + 1, s.len() as int)),
    decreases i,
{
    if i == 0 {
        assert(s.subrange(0, 0) =~= Seq::<u8>::empty());
        assert(s.subrange(1, s.len() as int) =~= s.drop_first());
        assert(spec_lines(s) =~~= seq![s.subrange(0, 0)] + spec_lines(
            s.subrange(1, s.len() as int),
        ));
    } else {
        let d = s.drop_first();
        lemma_lines_first_sep(d, i - 1);
        let tail = spec_lines(d.subrange(i, d.len() as int));
        let rest = spec_lines(d);
        assert(rest[0] == d.subrange(0, i - 1));
        assert(rest.drop_first() =~~= tail);
        assert(seq![s[0]] + d.subrange(0, i - 1) =~= s.subrange(0, i));
        assert(d.subrange(i, d.len() as int) =~= s.subrange(i + 1, s.len() as int));
        assert(spec_lines(s) =~~= seq![s.subrange(0, i)] + spec_lines(
            s.subrange(i + 1, s.len() as int),
        ));
    }
}

/// Splitting at the first slash peels off one component.
pub proof fn lemma_corner_parts_first_sep(s: Seq<u8>, i: int)
    requires
        0 <= i < s.len(),
        is_slash(s[i]),
        forall|j: int| 0 <= j < i ==> !is_slash(s[j]),
    ensures
        spec_corner_parts(s) == seq![s.subrange(0, i)] + spec_corner_parts(
            s.subrange(i + 1, s.len() as int),
        ),
    decreases i,
{
    if i == 0 {
        assert(s.subrange(0, 0) =~= Seq::<u8>::empty());
        assert(s.subrange(1, s.len() as int) =~= s.drop_first());
        assert(spec_corner_parts(s) =~~= seq![s.subrange(0, 0)] + spec_corner_parts(
            s.subrange(1, s.len() as int),
        ));
    } else {
        let d = s.drop_first();
        lemma_corner_parts_first_sep(d, i - 1);
        let tail = spec_corner_parts(d.subrange(i, d.len() as int));
        let rest = spec_corner_parts(d);
        assert(rest[0] == d.subrange(0, i - 1));
        assert(rest.drop_first() =~~= tail);
        assert(seq![s[0]] + d.subrange(0, i - 1) =~= s.subrange(0, i));
        assert(d.subrange(i, d.len() as int) =~= s.subrange(i + 1, s.len() as int));
        assert(spec_corner_parts(s) =~~= seq![s.subrange(0, i)] + spec_corner_parts(
            s.subrange(i + 1, s.len() as int),
        ));
    }
}

/// A leading token of length `q` (delimited by whitespace or the end)
/// peels off as the first token.
pub proof fn lemma_tokens_head_token(s: Seq<u8>, q: int)
    requires
        0 < q <= s.len(),
        forall|j: int| 0 <= j < q ==> !is_space(s[j]),
        q == s.len() || is_space(s[q]),
    ensures
        spec_tokens(s) == seq![s.subrange(0, q)] + spec_tokens(s.subrange(q, s.len() as int)),
    decreases q,
{
    if q == 1 {
        assert(s.subrange(0, 1) =~= seq![s[0]]);
        assert(s.subrange(1, s.len() as int) =~= s.drop_first());
        assert(spec_tokens(s) =~~= seq![s.subrange(0, 1)] + spec_tokens(
            s.subrange(1, s.len() as int),
        ));
    } else {
        let d = s.drop_first();
        lemma_tokens_head_token(d, q - 1);
        let tail = spec_tokens(d.subrange(q - 1, d.len() as int));
        let rest = spec_tokens(d);
        assert(rest[0] == d.subrange(0, q - 1));
        assert(rest.drop_first() =~~= tail);
        assert(seq![s[0]] + d.subrange(0, q - 1) =~= s.subrange(0, q));
        assert(d.subrange(q - 1, d.len() as int) =~= s.subrange(q, s.len() as int));
        assert(spec_tokens(s) =~~= seq![s.subrange(0, q)] + spec_tokens(
            s.subrange(q, s.len() as int),
        ));
    }
}

/// Every token is nonempty.
pub proof fn lemma_tokens_nonempty(s: Seq<u8>)
    ensures
        forall|i: int| 0 <= i < spec_tokens(s).len() ==> #[trigger] spec_tokens(s)[i].len() > 0,
    decreases s.len(),
{
    if s.len() == 0 {
    } else {
        lemma_tokens_nonempty(s.drop_first());
        let rest = spec_tokens(s.drop_first());
        if !is_space(s[0]) && s.len() >= 2 && !is_space(s[1]) {
            assert forall|i: int| 0 <= i < spec_tokens(s).len() implies #[trigger] spec_tokens(
                s,
            )[i].len() > 0 by {
                if i > 0 {
                    assert(spec_tokens(s)[i] == rest.drop_first()[i - 1]);
                    assert(rest.drop_first()[i - 1] == rest[i]);
                }
            }
        }
    }
}

/// Splits a buffer into its lines, at every `\n` or `\r` byte.
pub fn split_lines<'a>(input: &'a [u8]) -> (lines: Vec<&'a [u8]>)
    ensures
        lines@.len() == spec_lines(input@).len(),
        forall|i: int| 0 <= i < lines@.len() ==> lines@[i]@ == spec_lines(input@)[i],
{
    let mut lines: Vec<&'a [u8]> = Vec::new();
    let mut start: usize = 0;
    let mut idx: usize = 0;
    let n = input.len();
    proof {
        assert(input@.subrange(0, n as int) =~= input@);
        assert(lines@.map_values(|l: &[u8]| l@) + spec_lines(input@) =~~= spec_lines(input@));
    }
    while idx < n
        invariant
            0 <= start <= idx <= n,
            n == input@.len(),
            forall|j: int| start <= j < idx ==> !is_line_break(input@[j]),
            spec_lines(input@) == lines@.map_values(|l: &[u8]| l@) + spec_lines(
                input@.subrange(start as int, n as int),
            ),
        decreases n - idx,
    {
        let c = input[idx];
        if c == 10u8 || c == 13u8 {
            let line = slice_subrange(input, start, idx);
            proof {
                let suffix = input@.subrange(start as int, n as int);
                lemma_lines_first_sep(suffix, idx - start);
                assert(suffix.subrange(0, idx - start) =~= input@.subrange(
                    start as int,
                    idx as int,
                ));
                assert(suffix.subrange(idx - start + 1, suffix.len() as int) =~= input@.subrange(
                    idx + 1,
                    n as int,
                ));
            }
            let ghost prev = lines@;
            lines.push(line);
            proof {
                assert(lines@.map_values(|l: &[u8]| l@) =~= prev.map_values(|l: &[u8]| l@).push(
                    line@,
                ));
                assert(spec_lines(input@) =~~= lines@.map_values(|l: &[u8]| l@) + spec_lines(
                    input@.subrange(idx + 1, n as int),
                ));
            }
            start = idx + 1;
        }
        idx = idx + 1;
    }
    let line = slice_subrange(input, start, n);
    proof {
        let suffix = input@.subrange(start as int, n as int);
        lemma_lines_no_sep(suffix);
    }
    let ghost prev = lines@;
    lines.push(line);
    proof {
        assert(lines@.map_values(|l: &[u8]| l@) =~= prev.map_values(|l: &[u8]| l@).push(line@));
        assert(spec_lines(input@) =~~= lines@.map_values(|l: &[u8]| l@));
    }
    lines
}

/// True when the byte is ASCII whitespace.
pub fn byte_is_space(c: u8) -> (r: bool)
    ensures
        r == is_space(c),
{
    c == 32u8 || c == 9u8 || c == 10u8 || c == 12u8 || c == 13u8
}

/// Splits a line into its whitespace-separated tokens, dropping empty
/// segments; every returned token is nonempty.
pub fn split_tokens<'a>(line: &'a [u8]) -> (toks: Vec<&'a [u8]>)
    ensures
        toks@.len() == spec_tokens(line@).len(),
        forall|i: int| 0 <= i < toks@.len() ==> toks@[i]@ == spec_tokens(line@)[i],
{
    let mut toks: Vec<&'a [u8]> = Vec::new();
    let mut p: usize = 0;
    let n = line.len();
    proof {
        assert(line@.subrange(0, n as int) =~= line@);
        assert(toks@.map_values(|t: &[u8]| t@) + spec_tokens(line@) =~~= spec_tokens(line@));
    }
    while p < n
        invariant
            0 <= p <= n,
            n == line@.len(),
            spec_tokens(line@) == toks@.map_values(|t: &[u8]| t@) + spec_tokens(
                line@.subrange(p as int, n as int),
            ),
        decreases n - p,
    {
        if byte_is_space(line[p]) {
            proof {
                let suffix = line@.subrange(p as int, n as int);
                assert(suffix.drop_first() =~= line@.subrange(p + 1, n as int));
            }
            p = p + 1;
        } else {
            let mut q: usize = p + 1;
            while q < n && !byte_is_space(line[q])
                invariant
                    p < q <= n,
                    n == line@.len(),
                    forall|j: int| p <= j < q ==> !is_space(line@[j]),
                decreases n - q,
            {
                q = q + 1;
            }
            let tok = slice_subrange(line, p, q);
            proof {
                let suffix = line@.subrange(p as int, n as int);
                lemma_tokens_head_token(suffix, q - p);
                assert(suffix.subrange(0, q - p) =~= line@.subrange(p as int, q as int));
                assert(suffix.subrange(q - p, suffix.len() as int) =~= line@.subrange(
                    q as int,
                    n as int,
                ));
            }
            let ghost prev = toks@;
            toks.push(tok);
            proof {
                assert(toks@.map_values(|t: &[u8]| t@) =~= prev.map_values(|t: &[u8]| t@).push(
                    tok@,
                ));
                assert(spec_tokens(line@) =~~= toks@.map_values(|t: &[u8]| t@) + spec_tokens(
                    line@.subrange(q as int, n as int),
                ));
            }
            p = q;
        }
    }
    proof {
        assert(line@.subrange(p as int, n as int) =~= Seq::<u8>::empty());
        assert(spec_tokens(line@) =~~= toks@.map_values(|t: &[u8]| t@));
    }
    toks
}

/// Splits a face corner token at every `/`, keeping empty components.
pub fn split_corner<'a>(token: &'a [u8]) -> (parts: Vec<&'a [u8]>)
    ensures
        parts@.len() == spec_corner_parts(token@).len(),
        forall|i: int| 0 <= i < parts@.len() ==> parts@[i]@ == spec_corner_parts(token@)[i],
        parts@.len() >= 1,
{
    let mut parts: Vec<&'a [u8]> = Vec::new();
    let mut start: usize = 0;
    let mut idx: usize = 0;
    let n = token.len();
    proof {
        assert(token@.subrange(0, n as int) =~= token@);
        assert(parts@.map_values(|l: &[u8]| l@) + spec_corner_parts(token@)
            =~~= spec_corner_parts(token@));
    }
    while idx < n
        invariant
            0 <= start <= idx <= n,
            n == token@.len(),
            forall|j: int| start <= j < idx ==> !is_slash(token@[j]),
            spec_corner_parts(token@) == parts@.map_values(|l: &[u8]| l@) + spec_corner_parts(
                token@.subrange(start as int, n as int),
            ),
        decreases n - idx,
    {
        if token[idx] == 47u8 {
            let part = slice_subrange(token, start, idx);
            proof {
                let suffix = token@.subrange(start as int, n as int);
                lemma_corner_parts_first_sep(suffix, idx - start);
                assert(suffix.subrange(0, idx - start) =~= token@.subrange(
                    start as int,
                    idx as int,
                ));
                assert(suffix.subrange(idx - start + 1, suffix.len() as int) =~= token@.subrange(
                    idx + 1,
                    n as int,
                ));
            }
            let ghost prev = parts@;
            parts.push(part);
            proof {
                assert(parts@.map_values(|l: &[u8]| l@) =~= prev.map_values(|l: &[u8]| l@).push(
                    part@,
                ));
                assert(spec_corner_parts(token@) =~~= parts@.map_values(|l: &[u8]| l@)
                    + spec_corner_parts(token@.subrange(idx + 1, n as int)));
            }
            start = idx + 1;
        }
        idx = idx + 1;
    }
    let part = slice_subrange(token, start, n);
    proof {
        let suffix = token@.subrange(start as int, n as int);
        lemma_corner_parts_no_sep(suffix);
    }
    let ghost prev = parts@;
    parts.push(part);
    proof {
        assert(parts@.map_values(|l: &[u8]| l@) =~= prev.map_values(|l: &[u8]| l@).push(part@));
        assert(spec_corner_parts(token@) =~~= parts@.map_values(|l: &[u8]| l@));
        lemma_corner_parts_len(token@);
    }
    parts
}

/// The byte sequences denoted by a sequence of byte slices.
pub open spec fn byte_views(s: Seq<&[u8]>) -> Seq<Seq<u8>> {
    Seq::new(s.len(), |i: int| s[i]@)
}

/// Copies a byte slice into an owned vector.
pub fn copy_bytes(s: &[u8]) -> (v: Vec<u8>)
    ensures
        v@ == s@,
{
    let n = s.len();
    let mut v: Vec<u8> = Vec::new();
    let mut i: usize = 0;
    while i < n
        invariant
            0 <= i <= n,
            n == s@.len(),
            v@ == s@.subrange(0, i as int),
        decreases n - i,
    {
        v.push(s[i]);
        proof {
            assert(v@ =~= s@.subrange(0, i + 1));
        }
        i = i + 1;
    }
    proof {
        assert(v@ =~= s@);
    }
    v
}

/// Byte-slice equality.
pub fn bytes_eq(a: &[u8], b: &[u8]) -> (r: bool)
    ensures
        r == (a@ == b@),
{
    if a.len() != b.len() {
        proof {
            assert(a@.len() != b@.len());
        }
        return false;
    }
    let n = a.len();
    let mut i: usize = 0;
    while i < n
        invariant
            0 <= i <= n,
            n == a@.len(),
            n == b@.len(),
            forall|j: int| 0 <= j < i ==> a@[j] == b@[j],
        decreases n - i,
    {
        if a[i] != b[i] {
            return false;
        }
        i = i + 1;
    }
    proof {
        assert(a@ =~= b@);
    }
    true
}

} // verus!
