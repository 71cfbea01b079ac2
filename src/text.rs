//! Scanning of ASCII text held as bytes: spaces, tokens, separators and
//! unsigned decimal numbers.
use vstd::prelude::*;

verus! {

pub open spec fn is_space(c: u8) -> bool {
    c == 32 || c == 9 || c == 10 || c == 11 || c == 12 || c == 13
}

pub open spec fn is_digit(c: u8) -> bool {
    48 <= c <= 57
}

/// The decimal digits of `n`, most significant first.
pub open spec fn decimal(n: nat) -> Seq<u8>
    decreases n,
{
    if n < 10 {
        seq![(48 + n) as u8]
    } else {
        decimal(n / 10).push((48 + n % 10) as u8)
    }
}

/// The first position at or after `i` (and before `end`) that holds no space.
pub open spec fn skip_spaces(b: Seq<u8>, i: int, end: int) -> int
    decreases end - i,
{
    if i < end && is_space(b[i]) {
        skip_spaces(b, i + 1, end)
    } else {
        i
    }
}

/// The end of `b[start..end]` once trailing spaces are dropped.
pub open spec fn trim_end(b: Seq<u8>, start: int, end: int) -> int
    decreases end - start,
{
    if start < end && is_space(b[end - 1]) {
        trim_end(b, start, end - 1)
    } else {
        end
    }
}

/// The first position at or after `i` that holds `c`, or `end` when none before it does.
pub open spec fn find_byte(b: Seq<u8>, i: int, end: int, c: u8) -> int
    decreases end - i,
{
    if i < end && b[i] != c {
        find_byte(b, i + 1, end, c)
    } else {
        i
    }
}

/// The end of the run of non-space bytes that starts at `i`.
pub open spec fn skip_token(b: Seq<u8>, i: int, end: int) -> int
    decreases end - i,
{
    if i < end && !is_space(b[i]) {
        skip_token(b, i + 1, end)
    } else {
        i
    }
}

/// The value of the decimal digits `b[s..e]`.
pub open spec fn digits_value(b: Seq<u8>, s: int, e: int) -> int
    decreases e - s,
{
    if e <= s {
        0
    } else {
        10 * digits_value(b, s, e - 1) + (b[e - 1] - 48)
    }
}

/// `b[s..e]` read as an unsigned 32-bit decimal number: at least one digit,
/// digits only, and no more than `u32::MAX`.
pub open spec fn spec_parse_u32(b: Seq<u8>, s: int, e: int) -> Option<u32> {
    if s < e && (forall|i: int| s <= i < e ==> is_digit(#[trigger] b[i])) && digits_value(b, s, e)
        <= u32::MAX {
        Some(digits_value(b, s, e) as u32)
    } else {
        None
    }
}

pub proof fn lemma_find_byte_bounds(b: Seq<u8>, i: int, end: int, c: u8)
    requires
        i <= end,
    ensures
        i <= find_byte(b, i, end, c) <= end,
    decreases end - i,
{
    if i < end && b[i] != c {
        lemma_find_byte_bounds(b, i + 1, end, c);
    }
}

pub fn skip_spaces_at(b: &[u8], i: usize, end: usize) -> (r: usize)
    requires
        i <= end <= b@.len(),
    ensures
        r == skip_spaces(b@, i as int, end as int),
        i <= r <= end,
{
    let mut j = i;
    while j < end && (b[j] == 32 || b[j] == 9 || b[j] == 10 || b[j] == 11 || b[j] == 12 || b[j]
        == 13)
        invariant
            i <= j <= end <= b@.len(),
            skip_spaces(b@, i as int, end as int) == skip_spaces(b@, j as int, end as int),
        decreases end - j,
    {
        j = j + 1;
    }
    j
}

pub fn trim_end_at(b: &[u8], start: usize, end: usize) -> (r: usize)
    requires
        start <= end <= b@.len(),
    ensures
        r == trim_end(b@, start as int, end as int),
        start <= r <= end,
{
    let mut j = end;
    while start < j && (b[j - 1] == 32 || b[j - 1] == 9 || b[j - 1] == 10 || b[j - 1] == 11 || b[j
        - 1] == 12 || b[j - 1] == 13)
        invariant
            start <= j <= end <= b@.len(),
            trim_end(b@, start as int, end as int) == trim_end(b@, start as int, j as int),
        decreases j - start,
    {
        j = j - 1;
    }
    j
}

pub fn find_byte_at(b: &[u8], i: usize, end: usize, c: u8) -> (r: usize)
    requires
        i <= end <= b@.len(),
    ensures
        r == find_byte(b@, i as int, end as int, c),
        i <= r <= end,
{
    let mut j = i;
    while j < end && b[j] != c
        invariant
            i <= j <= end <= b@.len(),
            find_byte(b@, i as int, end as int, c) == find_byte(b@, j as int, end as int, c),
        decreases end - j,
    {
        j = j + 1;
    }
    j
}

pub fn skip_token_at(b: &[u8], i: usize, end: usize) -> (r: usize)
    requires
        i <= end <= b@.len(),
    ensures
        r == skip_token(b@, i as int, end as int),
        i <= r <= end,
{
    let mut j = i;
    while j < end && !(b[j] == 32 || b[j] == 9 || b[j] == 10 || b[j] == 11 || b[j] == 12 || b[j]
        == 13)
        invariant
            i <= j <= end <= b@.len(),
            skip_token(b@, i as int, end as int) == skip_token(b@, j as int, end as int),
        decreases end - j,
    {
        j = j + 1;
    }
    j
}

/// Whether `b[s..e]` is exactly `word`.
pub fn matches_at(b: &[u8], s: usize, e: usize, word: &[u8]) -> (r: bool)
    requires
        s <= e <= b@.len(),
    ensures
        r == (b@.subrange(s as int, e as int) == word@),
{
    if e - s != word.len() {
        proof {
            assert(b@.subrange(s as int, e as int).len() != word@.len());
        }
        return false;
    }
    let mut k: usize = 0;
    while k < word.len()
        invariant
            e - s == word@.len(),
            s <= e <= b@.len(),
            k <= word@.len(),
            forall|j: int| 0 <= j < k ==> b@[s + j] == word@[j],
        decreases word@.len() - k,
    {
        if b[s + k] != word[k] {
            proof {
                assert(b@.subrange(s as int, e as int)[k as int] != word@[k as int]);
            }
            return false;
        }
        k = k + 1;
    }
    proof {
        assert(b@.subrange(s as int, e as int) =~= word@);
    }
    true
}

/// Reads `b[s..e]` as an unsigned 32-bit decimal number.
pub fn parse_u32_at(b: &[u8], s: usize, e: usize) -> (r: Option<u32>)
    requires
        s <= e <= b@.len(),
    ensures
        r == spec_parse_u32(b@, s as int, e as int),
{
    if s == e {
        return None;
    }
    let mut value: u64 = 0;
    let mut too_big = false;
    let mut i = s;
    while i < e
        invariant
            s <= i <= e <= b@.len(),
            forall|j: int| s <= j < i ==> is_digit(#[trigger] b@[j]),
            !too_big ==> value == digits_value(b@, s as int, i as int),
            !too_big ==> value <= u32::MAX,
            too_big ==> digits_value(b@, s as int, i as int) > u32::MAX,
            digits_value(b@, s as int, i as int) >= 0,
        decreases e - i,
    {
        let c = b[i];
        if c < 48 || c > 57 {
            proof {
                assert(!is_digit(b@[i as int]));
            }
            return None;
        }
        if !too_big {
            value = value * 10 + (c - 48) as u64;
            if value > 0xFFFF_FFFF {
                too_big = true;
            }
        }
        i = i + 1;
    }
    if too_big {
        None
    } else {
        Some(value as u32)
    }
}

/// Appends the decimal digits of `n`.
pub fn push_decimal(out: &mut Vec<u8>, n: u64)
    ensures
        final(out)@ == old(out)@ + decimal(n as nat),
    decreases n,
{
    if n >= 10 {
        push_decimal(out, n / 10);
    }
    out.push((48 + n % 10) as u8);
    proof {
        if n >= 10 {
            assert(decimal(n as nat) == decimal((n / 10) as nat).push((48 + n % 10) as u8));
        }
    }
}

} // verus!
