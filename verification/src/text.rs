//! Verified text utilities over byte slices: the tool output and sysfs file
//! parsers are built from these.

use vstd::prelude::*;
use vstd::slice::{slice_index_get, slice_subrange};

verus! {

broadcast use vstd::slice::axiom_spec_len;

/// ASCII whitespace, as `u8::is_ascii_whitespace` has it: space, tab, line
/// feed, form feed, carriage return.
pub open spec fn is_ascii_ws(b: u8) -> bool {
    b == 32 || b == 9 || b == 10 || b == 12 || b == 13
}

/// ASCII decimal digit
pub open spec fn is_ascii_digit_spec(b: u8) -> bool {
    48 <= b <= 57
}

/// Test a byte for ASCII whitespace.
pub fn byte_is_whitespace(b: u8) -> (r: bool)
    ensures
        r == is_ascii_ws(b),
{
    b == 32 || b == 9 || b == 10 || b == 12 || b == 13
}

/// Test a byte for an ASCII decimal digit.
pub fn byte_is_digit(b: u8) -> (r: bool)
    ensures
        r == is_ascii_digit_spec(b),
{
    48 <= b && b <= 57
}

/// Byte-for-byte equality of two slices.
pub fn bytes_eq(a: &[u8], b: &[u8]) -> (r: bool)
    ensures
        r <==> a@ =~= b@,
{
    if a.len() != b.len() {
        return false;
    }
    let n = a.len();
    let mut i: usize = 0;
    while i < n
        invariant
            0 <= i <= n,
            n == a@.len() == b@.len(),
            forall|j: int| 0 <= j < i ==> a@[j] == b@[j],
        decreases n - i,
    {
        if *slice_index_get(a, i) != *slice_index_get(b, i) {
            return false;
        }
        i += 1;
    }
    true
}

/// `pre` is an initial segment of `s`.
pub open spec fn is_prefix_of(pre: Seq<u8>, s: Seq<u8>) -> bool {
    pre.len() <= s.len() && s.subrange(0, pre.len() as int) =~= pre
}

/// `suf` is a final segment of `s`.
pub open spec fn is_suffix_of(suf: Seq<u8>, s: Seq<u8>) -> bool {
    suf.len() <= s.len() && s.subrange(s.len() - suf.len(), s.len() as int) =~= suf
}

/// Does `s` start with `pre`?
pub fn starts_with(s: &[u8], pre: &[u8]) -> (r: bool)
    ensures
        r <==> is_prefix_of(pre@, s@),
{
    if pre.len() > s.len() {
        return false;
    }
    let n = pre.len();
    let mut i: usize = 0;
    while i < n
        invariant
            0 <= i <= n,
            n == pre@.len() <= s@.len(),
            forall|j: int| 0 <= j < i ==> s@[j] == pre@[j],
        decreases n - i,
    {
        if *slice_index_get(s, i) != *slice_index_get(pre, i) {
            return false;
        }
        i += 1;
    }
    true
}

/// Does `s` end with `suf`?
pub fn ends_with(s: &[u8], suf: &[u8]) -> (r: bool)
    ensures
        r <==> is_suffix_of(suf@, s@),
{
    if suf.len() > s.len() {
        return false;
    }
    let off = s.len() - suf.len();
    let tail = slice_subrange(s, off, s.len());
    bytes_eq(tail, suf)
}

/// The rest of `s` after `pre`, when `s` starts with it.
pub fn strip_prefix<'a>(s: &'a [u8], pre: &[u8]) -> (r: Option<&'a [u8]>)
    ensures
        r matches Some(t) ==> is_prefix_of(pre@, s@) && t@ =~= s@.skip(pre@.len() as int),
        r is None ==> !is_prefix_of(pre@, s@),
{
    if starts_with(s, pre) {
        Some(slice_subrange(s, pre.len(), s.len()))
    } else {
        None
    }
}

/// `pat` occurs somewhere inside `s`.
pub open spec fn contains_seq(s: Seq<u8>, pat: Seq<u8>) -> bool {
    exists|i: int|
        0 <= i <= s.len() - pat.len() && #[trigger] s.subrange(i, i + pat.len()) =~= pat
}

/// Does `pat` occur anywhere inside `s`?
pub fn contains_bytes(s: &[u8], pat: &[u8]) -> (r: bool)
    ensures
        r <==> contains_seq(s@, pat@),
{
    if pat.len() > s.len() {
        return false;
    }
    let last_start = s.len() - pat.len();
    let mut i: usize = 0;
    while i <= last_start
        invariant
            0 <= i <= last_start + 1,
            last_start == s@.len() - pat@.len(),
            pat@.len() <= s@.len(),
            forall|j: int| 0 <= j < i ==> !(#[trigger] s@.subrange(j, j + pat@.len()) =~= pat@),
        decreases last_start + 1 - i,
    {
        let span = pat.len();
        proof {
            assert(vstd::slice::spec_slice_len(s) == s@.len());
            assert(i + span <= s@.len());
        }
        let window = slice_subrange(s, i, i + span);
        if bytes_eq(window, pat) {
            return true;
        }
        i += 1;
    }
    false
}

/// `s` without trailing ASCII whitespace.
pub open spec fn trim_end_spec(s: Seq<u8>) -> Seq<u8>
    decreases s.len(),
{
    if s.len() > 0 && is_ascii_ws(s.last()) {
        trim_end_spec(s.drop_last())
    } else {
        s
    }
}

/// `s` without leading ASCII whitespace.
pub open spec fn trim_start_spec(s: Seq<u8>) -> Seq<u8>
    decreases s.len(),
{
    if s.len() > 0 && is_ascii_ws(s.first()) {
        trim_start_spec(s.skip(1))
    } else {
        s
    }
}

/// `s` without leading and trailing ASCII whitespace.
pub open spec fn trim_spec(s: Seq<u8>) -> Seq<u8> {
    trim_start_spec(trim_end_spec(s))
}

/// Drop trailing ASCII whitespace.
pub fn trim_end(s: &[u8]) -> (r: &[u8])
    ensures
        r@ =~= trim_end_spec(s@),
{
    let mut j = s.len();
    proof {
        assert(s@.take(s@.len() as int) =~= s@);
    }
    while j > 0 && byte_is_whitespace(*slice_index_get(s, j - 1))
        invariant
            0 <= j <= s@.len(),
            trim_end_spec(s@) =~= trim_end_spec(s@.take(j as int)),
        decreases j,
    {
        proof {
            assert(s@.take(j as int).last() == s@[j - 1]);
            assert(s@.take(j as int).drop_last() =~= s@.take(j - 1));
        }
        j -= 1;
    }
    proof {
        if j > 0 {
            assert(s@.take(j as int).last() == s@[j - 1]);
        }
        assert(trim_end_spec(s@.take(j as int)) =~= s@.take(j as int));
    }
    slice_subrange(s, 0, j)
}

/// Drop leading ASCII whitespace.
pub fn trim_start(s: &[u8]) -> (r: &[u8])
    ensures
        r@ =~= trim_start_spec(s@),
{
    let mut i: usize = 0;
    proof {
        assert(s@.skip(0) =~= s@);
    }
    while i < s.len() && byte_is_whitespace(*slice_index_get(s, i))
        invariant
            0 <= i <= s@.len(),
            trim_start_spec(s@) =~= trim_start_spec(s@.skip(i as int)),
        decreases s@.len() - i,
    {
        proof {
            assert(s@.skip(i as int).first() == s@[i as int]);
            assert(s@.skip(i as int).skip(1) =~= s@.skip(i as int + 1));
        }
        i += 1;
    }
    proof {
        if i < s@.len() {
            assert(s@.skip(i as int).first() == s@[i as int]);
        }
        assert(trim_start_spec(s@.skip(i as int)) =~= s@.skip(i as int));
    }
    slice_subrange(s, i, s.len())
}

/// Drop leading and trailing ASCII whitespace.
pub fn trim(s: &[u8]) -> (r: &[u8])
    ensures
        r@ =~= trim_spec(s@),
{
    trim_start(trim_end(s))
}

/// Length of the token at the head of `s`: the bytes before the first ASCII
/// whitespace.
pub open spec fn token_len_spec(s: Seq<u8>) -> nat
    decreases s.len(),
{
    if s.len() == 0 || is_ascii_ws(s.first()) {
        0
    } else {
        1 + token_len_spec(s.skip(1))
    }
}

/// A head token never runs past the end of the text.
pub proof fn lemma_token_len_bounds(s: Seq<u8>)
    ensures
        token_len_spec(s) <= s.len(),
    decreases s.len(),
{
    if s.len() > 0 && !is_ascii_ws(s.first()) {
        lemma_token_len_bounds(s.skip(1));
    }
}

/// A head token ends exactly at the first whitespace byte (or the end).
pub proof fn lemma_token_len_at(s: Seq<u8>, k: int)
    requires
        0 <= k <= s.len(),
        forall|j: int| 0 <= j < k ==> !is_ascii_ws(#[trigger] s[j]),
        k == s.len() || is_ascii_ws(s[k]),
    ensures
        token_len_spec(s) == k,
    decreases k,
{
    if k > 0 {
        assert(!is_ascii_ws(s[0]));
        assert forall|j: int| 0 <= j < k - 1 implies !is_ascii_ws(#[trigger] s.skip(1)[j]) by {
            assert(s.skip(1)[j] == s[j + 1]);
        }
        if k < s.len() {
            assert(s.skip(1)[k - 1] == s[k]);
        }
        lemma_token_len_at(s.skip(1), k - 1);
    }
}

/// The ASCII-whitespace-separated tokens of `s`, in order.
pub open spec fn tokens_spec(s: Seq<u8>) -> Seq<Seq<u8>>
    decreases s.len(),
    via tokens_spec_decreases
{
    if s.len() == 0 {
        Seq::empty()
    } else if is_ascii_ws(s.first()) {
        tokens_spec(s.skip(1))
    } else {
        seq![s.take(token_len_spec(s) as int)] + tokens_spec(s.skip(token_len_spec(s) as int))
    }
}

#[via_fn]
proof fn tokens_spec_decreases(s: Seq<u8>) {
    if s.len() > 0 && !is_ascii_ws(s.first()) {
        lemma_token_len_bounds(s);
    }
}

/// Split on runs of ASCII whitespace, keeping the nonempty tokens.
pub fn split_whitespace_tokens(s: &[u8]) -> (toks: Vec<Vec<u8>>)
    ensures
        toks.deep_view() =~= tokens_spec(s@),
{
    let mut toks: Vec<Vec<u8>> = Vec::new();
    let mut i: usize = 0;
    proof {
        assert(s@.skip(0) =~= s@);
    }
    while i < s.len()
        invariant
            0 <= i <= s@.len(),
            tokens_spec(s@) =~= toks.deep_view() + tokens_spec(s@.skip(i as int)),
        decreases s@.len() - i,
    {
        let b = *slice_index_get(s, i);
        if byte_is_whitespace(b) {
            proof {
                assert(s@.skip(i as int).first() == s@[i as int]);
                assert(s@.skip(i as int).skip(1) =~= s@.skip(i as int + 1));
            }
            i += 1;
        } else {
            let ghost start_tokens = toks.deep_view();
            let start = i;
            let mut tok: Vec<u8> = Vec::new();
            while i < s.len() && !byte_is_whitespace(*slice_index_get(s, i))
                invariant
                    start <= i <= s@.len(),
                    start < s@.len(),
                    !is_ascii_ws(s@[start as int]),
                    forall|j: int| start <= j < i ==> !is_ascii_ws(#[trigger] s@[j]),
                    tok@ =~= s@.subrange(start as int, i as int),
                    toks.deep_view() =~= start_tokens,
                    tokens_spec(s@) =~= start_tokens + tokens_spec(s@.skip(start as int)),
                decreases s@.len() - i,
            {
                tok.push(*slice_index_get(s, i));
                i += 1;
            }
            proof {
                let t = s@.skip(start as int);
                assert forall|j: int| 0 <= j < i - start implies !is_ascii_ws(#[trigger] t[j]) by {
                    assert(t[j] == s@[start + j]);
                }
                if i < s@.len() {
                    assert(t[i - start] == s@[i as int]);
                }
                lemma_token_len_at(t, i - start);
                assert(t.first() == s@[start as int]);
                assert(t.take(i - start) =~= s@.subrange(start as int, i as int));
                assert(t.skip(i - start) =~= s@.skip(i as int));
                assert(tokens_spec(t) =~= seq![tok@] + tokens_spec(s@.skip(i as int)));
            }
            toks.push(tok);
            proof {
                assert(toks.deep_view() =~~= start_tokens.push(tok@));
                assert(start_tokens.push(tok@) + tokens_spec(s@.skip(i as int)) =~= start_tokens
                    + (seq![tok@] + tokens_spec(s@.skip(i as int))));
            }
        }
    }
    proof {
        assert(s@.skip(s@.len() as int) =~= Seq::<u8>::empty());
    }
    toks
}

/// Every byte is an ASCII decimal digit.
pub open spec fn all_digits(s: Seq<u8>) -> bool {
    forall|i: int| 0 <= i < s.len() ==> is_ascii_digit_spec(#[trigger] s[i])
}

/// Value of an unsigned decimal numeral.
pub open spec fn dec_value_spec(s: Seq<u8>) -> int
    decreases s.len(),
{
    if s.len() == 0 {
        0
    } else {
        dec_value_spec(s.drop_last()) * 10 + (s.last() - 48)
    }
}

/// A numeral of digits has a nonnegative value.
pub proof fn lemma_dec_value_nonneg(s: Seq<u8>)
    requires
        all_digits(s),
    ensures
        dec_value_spec(s) >= 0,
    decreases s.len(),
{
    if s.len() > 0 {
        assert(all_digits(s.drop_last())) by {
            assert forall|i: int| 0 <= i < s.len() - 1 implies is_ascii_digit_spec(
                #[trigger] s.drop_last()[i],
            ) by {
                assert(s.drop_last()[i] == s[i]);
            }
        }
        lemma_dec_value_nonneg(s.drop_last());
        assert(is_ascii_digit_spec(s.last()));
    }
}

/// A longer prefix of a numeral never has a smaller value.
pub proof fn lemma_dec_value_monotone(s: Seq<u8>, i: int, j: int)
    requires
        all_digits(s),
        0 <= i <= j <= s.len(),
    ensures
        dec_value_spec(s.take(i)) <= dec_value_spec(s.take(j)),
    decreases j - i,
{
    if i < j {
        lemma_dec_value_monotone(s, i, j - 1);
        assert(s.take(j).drop_last() =~= s.take(j - 1));
        assert(all_digits(s.take(j - 1))) by {
            assert forall|k: int| 0 <= k < j - 1 implies is_ascii_digit_spec(
                #[trigger] s.take(j - 1)[k],
            ) by {
                assert(s.take(j - 1)[k] == s[k]);
            }
        }
        lemma_dec_value_nonneg(s.take(j - 1));
        assert(s.take(j).last() == s[j - 1]);
        assert(is_ascii_digit_spec(s[j - 1]));
    }
}

/// Parse an unsigned decimal numeral: every byte must be a digit and the
/// value must fit.
pub fn parse_u64(s: &[u8]) -> (r: Option<u64>)
    ensures
        r matches Some(v) ==> s@.len() > 0 && all_digits(s@) && v as int == dec_value_spec(s@),
        r is None ==> s@.len() == 0 || !all_digits(s@) || dec_value_spec(s@) > u64::MAX as int,
{
    if s.len() == 0 {
        return None;
    }
    let mut acc: u64 = 0;
    let mut i: usize = 0;
    proof {
        assert(s@.take(0) =~= Seq::<u8>::empty());
    }
    while i < s.len()
        invariant
            0 <= i <= s@.len(),
            all_digits(s@.take(i as int)),
            acc as int == dec_value_spec(s@.take(i as int)),
        decreases s@.len() - i,
    {
        let b = *slice_index_get(s, i);
        if !byte_is_digit(b) {
            proof {
                assert(!is_ascii_digit_spec(s@[i as int]));
            }
            return None;
        }
        let d = (b - 48) as u64;
        proof {
            assert(s@.take(i as int + 1).drop_last() =~= s@.take(i as int));
            assert(s@.take(i as int + 1).last() == s@[i as int]);
            assert(all_digits(s@.take(i as int + 1))) by {
                assert forall|k: int| 0 <= k < i + 1 implies is_ascii_digit_spec(
                    #[trigger] s@.take(i as int + 1)[k],
                ) by {
                    if k < i {
                        assert(s@.take(i as int + 1)[k] == s@.take(i as int)[k]);
                    }
                }
            }
        }
        if acc > (u64::MAX - d) / 10 {
            proof {
                vstd::arithmetic::div_mod::lemma_fundamental_div_mod(
                    (u64::MAX - d) as int,
                    10,
                );
                assert(acc as int * 10 + d > u64::MAX as int);
                assert(dec_value_spec(s@.take(i as int + 1)) > u64::MAX as int);
                if all_digits(s@) {
                    lemma_dec_value_monotone(s@, i as int + 1, s@.len() as int);
                    assert(s@.take(s@.len() as int) =~= s@);
                }
            }
            return None;
        }
        proof {
            vstd::arithmetic::div_mod::lemma_fundamental_div_mod((u64::MAX - d) as int, 10);
            assert(acc as int * 10 + d <= u64::MAX as int);
        }
        acc = acc * 10 + d;
        i += 1;
    }
    proof {
        assert(s@.take(s@.len() as int) =~= s@);
    }
    Some(acc)
}

/// Index of the first occurrence of `b` in `s`, or -1.
pub open spec fn find_byte_spec(s: Seq<u8>, b: u8) -> int
    decreases s.len(),
{
    if s.len() == 0 {
        -1
    } else if s.first() == b {
        0
    } else {
        let r = find_byte_spec(s.skip(1), b);
        if r < 0 {
            -1
        } else {
            r + 1
        }
    }
}

/// What the first-occurrence index means.
pub proof fn lemma_find_byte_spec(s: Seq<u8>, b: u8)
    ensures
        -1 <= find_byte_spec(s, b) < s.len(),
        find_byte_spec(s, b) >= 0 ==> s[find_byte_spec(s, b)] == b,
        forall|j: int|
            0 <= j < s.len() && (find_byte_spec(s, b) < 0 || j < find_byte_spec(s, b))
                ==> s[j] != b,
    decreases s.len(),
{
    if s.len() > 0 && s.first() != b {
        lemma_find_byte_spec(s.skip(1), b);
        assert forall|j: int|
            0 <= j < s.len() && (find_byte_spec(s, b) < 0 || j < find_byte_spec(s, b)) implies s[j]
            != b by {
            if j > 0 {
                assert(s.skip(1)[j - 1] == s[j]);
            }
        }
    }
}

/// Find the first occurrence of one byte.
pub fn find_byte(s: &[u8], b: u8) -> (r: Option<usize>)
    ensures
        r matches Some(k) ==> k as int == find_byte_spec(s@, b),
        r is None ==> find_byte_spec(s@, b) == -1,
{
    let mut i: usize = 0;
    while i < s.len()
        invariant
            0 <= i <= s@.len(),
            forall|j: int| 0 <= j < i ==> s@[j] != b,
        decreases s@.len() - i,
    {
        if *slice_index_get(s, i) == b {
            proof {
                lemma_find_byte_spec(s@, b);
                let k = find_byte_spec(s@, b);
                if k < 0 || k > i {
                    assert(s@[i as int] != b);
                }
                if 0 <= k < i {
                    assert(s@[k] != b);
                }
            }
            return Some(i);
        }
        i += 1;
    }
    proof {
        lemma_find_byte_spec(s@, b);
        let k = find_byte_spec(s@, b);
        if k >= 0 {
            assert(s@[k] != b);
        }
    }
    None
}

/// The segments of `s` between occurrences of `sep`, empty segments kept.
pub open spec fn split_byte_spec(s: Seq<u8>, sep: u8) -> Seq<Seq<u8>>
    decreases s.len(),
    via split_byte_spec_decreases
{
    let k = find_byte_spec(s, sep);
    if k < 0 {
        seq![s]
    } else {
        seq![s.take(k)] + split_byte_spec(s.skip(k + 1), sep)
    }
}

#[via_fn]
proof fn split_byte_spec_decreases(s: Seq<u8>, sep: u8) {
    lemma_find_byte_spec(s, sep);
}

/// Split on a separator byte, keeping empty segments.
pub fn split_byte(s: &[u8], sep: u8) -> (parts: Vec<Vec<u8>>)
    ensures
        parts.deep_view() =~~= split_byte_spec(s@, sep),
{
    let mut parts: Vec<Vec<u8>> = Vec::new();
    let mut seg_start: usize = 0;
    let mut i: usize = 0;
    proof {
        assert(s@.skip(0) =~= s@);
    }
    while i < s.len()
        invariant
            0 <= seg_start <= i <= s@.len(),
            forall|j: int| seg_start <= j < i ==> s@[j] != sep,
            split_byte_spec(s@, sep) =~~= parts.deep_view() + split_byte_spec(
                s@.skip(seg_start as int),
                sep,
            ),
        decreases s@.len() - i,
    {
        if *slice_index_get(s, i) == sep {
            let ghost t = s@.skip(seg_start as int);
            proof {
                assert forall|j: int| 0 <= j < i - seg_start implies t[j] != sep by {
                    assert(t[j] == s@[seg_start + j]);
                }
                assert(t[i - seg_start] == s@[i as int]);
                lemma_find_byte_spec(t, sep);
                let k = find_byte_spec(t, sep);
                if k < 0 || k > i - seg_start {
                    assert(t[i - seg_start] != sep);
                }
                if 0 <= k < i - seg_start {
                    assert(t[k] != sep);
                }
                assert(k == i - seg_start);
                assert(t.take(k) =~= s@.subrange(seg_start as int, i as int));
                assert(t.skip(k + 1) =~= s@.skip(i as int + 1));
            }
            let ghost before = parts.deep_view();
            let seg = slice_subrange(s, seg_start, i);
            parts.push(vstd::slice::slice_to_vec(seg));
            proof {
                assert(parts.deep_view() =~~= before.push(s@.subrange(
                    seg_start as int,
                    i as int,
                )));
            }
            i += 1;
            seg_start = i;
        } else {
            i += 1;
        }
    }
    let ghost t = s@.skip(seg_start as int);
    proof {
        assert forall|j: int| 0 <= j < t.len() implies t[j] != sep by {
            assert(t[j] == s@[seg_start + j]);
        }
        lemma_find_byte_spec(t, sep);
        let k = find_byte_spec(t, sep);
        if k >= 0 {
            assert(t[k] != sep);
        }
        assert(split_byte_spec(t, sep) =~~= seq![t]);
    }
    let ghost before = parts.deep_view();
    let seg = slice_subrange(s, seg_start, s.len());
    parts.push(vstd::slice::slice_to_vec(seg));
    proof {
        assert(parts.deep_view() =~~= before.push(t));
    }
    parts
}

/// Value in millidegrees of up to three fractional-digit bytes, further
/// digits truncated.
pub open spec fn frac_milli_spec(fs: Seq<u8>) -> int {
    (if fs.len() >= 1 {
        (fs[0] - 48) * 100
    } else {
        0
    }) + (if fs.len() >= 2 {
        (fs[1] - 48) * 10
    } else {
        0
    }) + (if fs.len() >= 3 {
        fs[2] - 48
    } else {
        0
    })
}

/// Millidegree value of a plain decimal temperature numeral: an optional
/// sign, an integer part, an optional fraction; absent when the shape is
/// wrong or the value does not fit.
pub open spec fn celsius_milli_spec(s: Seq<u8>) -> Option<int> {
    let neg = s.len() > 0 && s[0] == 45;
    let body = if s.len() > 0 && (s[0] == 45 || s[0] == 43) {
        s.skip(1)
    } else {
        s
    };
    let dotp = find_byte_spec(body, 46);
    let ip = if dotp < 0 {
        body
    } else {
        body.take(dotp)
    };
    let fp = if dotp < 0 {
        Seq::<u8>::empty()
    } else {
        body.skip(dotp + 1)
    };
    if ip.len() > 0 && all_digits(ip) && all_digits(fp) && dec_value_spec(ip) * 1000 + 999
        <= i64::MAX as int {
        Some(
            (if neg {
                -1
            } else {
                1
            }) * (dec_value_spec(ip) * 1000 + frac_milli_spec(fp)),
        )
    } else {
        None
    }
}

/// Parse a plain decimal temperature numeral into millidegrees.
#[verifier::loop_isolation(false)]
pub fn parse_celsius_milli(s: &[u8]) -> (r: Option<i64>)
    ensures
        r matches Some(v) ==> celsius_milli_spec(s@) == Some(v as int),
        r is None ==> celsius_milli_spec(s@) is None,
{
    let ghost spec_body = if s@.len() > 0 && (s@[0] == 45 || s@[0] == 43) {
        s@.skip(1)
    } else {
        s@
    };
    let (neg, body) = if s.len() > 0 && (*slice_index_get(s, 0) == 45 || *slice_index_get(s, 0)
        == 43) {
        (*slice_index_get(s, 0) == 45, slice_subrange(s, 1, s.len()))
    } else {
        (false, slice_subrange(s, 0, s.len()))
    };
    proof {
        assert(body@ =~= spec_body);
    }
    let ghost spec_dotp = find_byte_spec(spec_body, 46);
    let ghost spec_ip = if spec_dotp < 0 {
        spec_body
    } else {
        spec_body.take(spec_dotp)
    };
    let ghost spec_fp = if spec_dotp < 0 {
        Seq::<u8>::empty()
    } else {
        spec_body.skip(spec_dotp + 1)
    };
    let (ip, fp): (&[u8], &[u8]) = match find_byte(body, 46) {
        Some(dotp) => {
            proof {
                lemma_find_byte_spec(body@, 46);
            }
            (slice_subrange(body, 0, dotp), slice_subrange(body, dotp + 1, body.len()))
        },
        None => (body, slice_subrange(body, body.len(), body.len())),
    };
    proof {
        assert(ip@ =~= spec_ip);
        assert(fp@ =~= spec_fp);
    }
    let int_part = match parse_u64(ip) {
        Some(v) => v,
        None => {
            proof {
                if ip@.len() > 0 && all_digits(ip@) {
                    lemma_dec_value_nonneg(ip@);
                    assert(dec_value_spec(spec_ip) > u64::MAX as int);
                    assert(dec_value_spec(spec_ip) * 1000 + 999 > i64::MAX as int)
                        by (nonlinear_arith)
                        requires
                            dec_value_spec(spec_ip) > u64::MAX as int,
                    ;
                }
            }
            return None;
        },
    };
    let mut k: usize = 0;
    let mut frac: i64 = 0;
    while k < fp.len()
        invariant
            0 <= k <= fp@.len(),
            forall|j: int| 0 <= j < k ==> is_ascii_digit_spec(#[trigger] fp@[j]),
            frac as int == (if k >= 1 {
                (fp@[0] - 48) * 100
            } else {
                0
            }) + (if k >= 2 {
                (fp@[1] - 48) * 10
            } else {
                0
            }) + (if k >= 3 {
                fp@[2] - 48
            } else {
                0
            }),
        decreases fp@.len() - k,
    {
        let b = *slice_index_get(fp, k);
        if !byte_is_digit(b) {
            proof {
                assert(!is_ascii_digit_spec(spec_fp[k as int]));
            }
            return None;
        }
        if k == 0 {
            frac = frac + 100 * ((b - 48) as i64);
        } else if k == 1 {
            frac = frac + 10 * ((b - 48) as i64);
        } else if k == 2 {
            frac = frac + ((b - 48) as i64);
        }
        k += 1;
    }
    if int_part > ((i64::MAX - 999) / 1000) as u64 {
        proof {
            vstd::arithmetic::div_mod::lemma_fundamental_div_mod((i64::MAX - 999) as int, 1000);
        }
        return None;
    }
    proof {
        vstd::arithmetic::div_mod::lemma_fundamental_div_mod((i64::MAX - 999) as int, 1000);
        assert(int_part as int * 1000 + 999 <= i64::MAX as int);
        assert(frac as int == frac_milli_spec(fp@));
    }
    let magnitude: i64 = (int_part as i64) * 1000 + frac;
    if neg {
        Some(-magnitude)
    } else {
        Some(magnitude)
    }
}

/// Decimal digits of a raw PWM value.
pub open spec fn u8_decimal_spec(v: u8) -> Seq<u8> {
    if v >= 100 {
        seq![(48 + v / 100) as u8, (48 + (v / 10) % 10) as u8, (48 + v % 10) as u8]
    } else if v >= 10 {
        seq![(48 + v / 10) as u8, (48 + v % 10) as u8]
    } else {
        seq![(48 + v) as u8]
    }
}

/// The line written to a sysfs file to set a value: its decimal digits and a
/// newline.
pub open spec fn value_line_spec(v: u8) -> Seq<u8> {
    u8_decimal_spec(v).push(10)
}

/// Render the line written to a sysfs value or mode file.
pub fn render_value_line(v: u8) -> (r: Vec<u8>)
    ensures
        r@ =~= value_line_spec(v),
{
    let mut out: Vec<u8> = Vec::new();
    if v >= 100 {
        out.push(48 + v / 100);
        out.push(48 + (v / 10) % 10);
        out.push(48 + v % 10);
    } else if v >= 10 {
        out.push(48 + v / 10);
        out.push(48 + v % 10);
    } else {
        out.push(48 + v);
    }
    out.push(10);
    out
}

} // verus!

