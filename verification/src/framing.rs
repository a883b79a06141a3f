//! The length-prefixed framing both pipes speak.
//!
//! Every message on the wire is `Content-Length: N\r\n`, further header lines
//! that are tolerated and ignored, an empty line, and then exactly `N` bytes
//! of JSON. This module parses header lines and builds the outgoing header;
//! the byte reads and writes around it are the caller's.

use vstd::prelude::*;

verus! {

broadcast use vstd::std_specs::vec::group_vec_axioms;

/// An ASCII decimal digit.
pub open spec fn is_digit(b: u8) -> bool {
    48 <= b <= 57
}

/// Every byte is an ASCII decimal digit.
pub open spec fn all_digits(s: Seq<u8>) -> bool {
    forall|i: int| 0 <= i < s.len() ==> is_digit(#[trigger] s[i])
}

/// The number an ASCII digit string denotes.
pub open spec fn dec_value(s: Seq<u8>) -> nat
    decreases s.len(),
{
    if s.len() == 0 {
        0
    } else {
        dec_value(s.drop_last()) * 10 + (s.last() - 48) as nat
    }
}

/// The ASCII digit string denoting `n`, without leading zeros.
pub open spec fn dec_digits(n: nat) -> Seq<u8>
    decreases n,
{
    if n < 10 {
        seq![(48 + n) as u8]
    } else {
        dec_digits(n / 10).push((48 + n % 10) as u8)
    }
}

/// An ASCII whitespace byte, as `str::trim` sees ASCII text.
pub open spec fn is_ws_byte(b: u8) -> bool {
    b == 32 || b == 9 || b == 13 || b == 10
}

fn is_ws_byte_exec(b: u8) -> (r: bool)
    ensures
        r == is_ws_byte(b),
{
    b == 32 || b == 9 || b == 13 || b == 10
}

/// `s` without its leading ASCII whitespace.
pub open spec fn drop_leading_ws(s: Seq<u8>) -> Seq<u8>
    decreases s.len(),
{
    if s.len() > 0 && is_ws_byte(s[0]) {
        drop_leading_ws(s.drop_first())
    } else {
        s
    }
}

/// `s` without its trailing ASCII whitespace.
pub open spec fn drop_trailing_ws(s: Seq<u8>) -> Seq<u8>
    decreases s.len(),
{
    if s.len() > 0 && is_ws_byte(s.last()) {
        drop_trailing_ws(s.drop_last())
    } else {
        s
    }
}

/// A byte line without leading and trailing ASCII whitespace.
pub open spec fn trim_bytes(s: Seq<u8>) -> Seq<u8> {
    drop_trailing_ws(drop_leading_ws(s))
}

/// Dropping leading whitespace lands on the first non-whitespace byte.
proof fn lemma_drop_leading_at(s: Seq<u8>, k: int)
    requires
        0 <= k <= s.len(),
        forall|j: int| 0 <= j < k ==> is_ws_byte(s[j]),
        k == s.len() || !is_ws_byte(s[k]),
    ensures
        drop_leading_ws(s) =~= s.skip(k),
    decreases k,
{
    if k > 0 {
        lemma_drop_leading_at(s.drop_first(), k - 1);
        assert(s.drop_first().skip(k - 1) =~= s.skip(k));
    }
}

/// Dropping trailing whitespace lands after the last non-whitespace byte.
proof fn lemma_drop_trailing_at(s: Seq<u8>, k: int)
    requires
        0 <= k <= s.len(),
        forall|j: int| k <= j < s.len() ==> is_ws_byte(s[j]),
        k == 0 || !is_ws_byte(s[k - 1]),
    ensures
        drop_trailing_ws(s) =~= s.take(k),
    decreases s.len(),
{
    if k < s.len() {
        lemma_drop_trailing_at(s.drop_last(), k);
        assert(s.drop_last().take(k) =~= s.take(k));
    }
}

/// The bytes of the `Content-Length: ` header prefix.
pub open spec fn content_length_prefix() -> Seq<u8> {
    seq![
        67u8, 111u8, 110u8, 116u8, 101u8, 110u8, 116u8, 45u8, 76u8, 101u8, 110u8, 103u8, 116u8, 104u8, 58u8,
        32u8,
    ]
}

/// The bytes of one complete header block announcing an `n`-byte body:
/// `Content-Length: n\r\n\r\n`.
pub open spec fn header_bytes(n: nat) -> Seq<u8> {
    content_length_prefix() + dec_digits(n) + seq![13u8, 10u8, 13u8, 10u8]
}

/// What one header line means.
pub enum HeaderLine {
    /// The empty line that ends the header block.
    Blank,
    /// A well-formed `Content-Length` header announcing this body length.
    ContentLength(u64),
    /// A `Content-Length` header whose value is not a plain decimal number
    /// that fits; the frame is unusable.
    BadContentLength,
    /// Any other header line; tolerated and ignored.
    Other,
}

/// The digit prefix grows the value: a digit string is worth at least any of
/// its prefixes.
proof fn lemma_dec_value_monotone(s: Seq<u8>, i: int, j: int)
    requires
        0 <= i <= j <= s.len(),
    ensures
        dec_value(s.take(i)) <= dec_value(s.take(j)),
    decreases j - i,
{
    if i < j {
        lemma_dec_value_monotone(s, i, j - 1);
        assert(s.take(j).drop_last() =~= s.take(j - 1));
        assert(dec_value(s.take(j)) == dec_value(s.take(j - 1)) * 10 + (s.take(j).last()
            - 48) as nat);
    }
}

/// Parse the digits after the `Content-Length: ` prefix.
#[verifier::loop_isolation(false)]
fn parse_digits(t: &Vec<u8>, from: usize) -> (r: Option<u64>)
    requires
        from <= t@.len(),
    ensures
        match r {
            Some(n) => {
                let digits = t@.skip(from as int);
                digits.len() > 0 && all_digits(digits) && dec_value(digits) == n
            },
            None => {
                let digits = t@.skip(from as int);
                digits.len() == 0 || !all_digits(digits) || dec_value(digits) > u64::MAX
            },
        },
{
    let ghost digits = t@.skip(from as int);
    let n = t.len();
    if from == n {
        return None;
    }
    let mut value: u64 = 0;
    let mut i: usize = from;
    while i < n
        invariant
            from <= i <= n,
            all_digits(digits.take(i - from)),
            dec_value(digits.take(i - from)) == value,
        decreases n - i,
    {
        let b = t[i];
        if b < 48 || b > 57 {
            proof {
                assert(digits[i - from] == b);
            }
            return None;
        }
        let d = b - 48;
        let next = match value.checked_mul(10) {
            Some(v) => match v.checked_add(d as u64) {
                Some(v2) => v2,
                None => {
                    proof {
                        overflow_means_too_big(digits, i - from + 1, value, d);
                    }
                    return None;
                },
            },
            None => {
                proof {
                    overflow_means_too_big(digits, i - from + 1, value, d);
                }
                return None;
            },
        };
        proof {
            assert(digits.take(i - from + 1).drop_last() =~= digits.take(i - from));
            assert(digits.take(i - from + 1).last() == b);
        }
        value = next;
        i = i + 1;
    }
    proof {
        assert(digits.take(n - from) =~= digits);
    }
    Some(value)
}

/// When one more digit overflows the accumulator, the whole digit string is
/// too large.
proof fn overflow_means_too_big(digits: Seq<u8>, k: int, value: u64, d: u8)
    requires
        0 < k <= digits.len(),
        dec_value(digits.take(k - 1)) == value,
        digits[k - 1] == d + 48,
        value * 10 + d > u64::MAX,
    ensures
        dec_value(digits) > u64::MAX,
{
    assert(digits.take(k).drop_last() =~= digits.take(k - 1));
    assert(digits.take(k).last() == d + 48);
    assert(dec_value(digits.take(k)) == value * 10 + d);
    lemma_dec_value_monotone(digits, k, digits.len() as int);
    assert(digits.take(digits.len() as int) =~= digits);
}

/// Trim a byte line, as [`trim_bytes`] describes.
fn trim_bytes_exec(line: &Vec<u8>) -> (r: Vec<u8>)
    ensures
        r@ == trim_bytes(line@),
{
    let n = line.len();
    let mut start: usize = 0;
    while start < n && is_ws_byte_exec(line[start])
        invariant
            n == line@.len(),
            0 <= start <= n,
            forall|j: int| 0 <= j < start ==> is_ws_byte(line@[j]),
        decreases n - start,
    {
        start = start + 1;
    }
    proof {
        lemma_drop_leading_at(line@, start as int);
    }
    if start == n {
        let r: Vec<u8> = Vec::new();
        proof {
            assert(drop_leading_ws(line@) =~= Seq::<u8>::empty());
            assert(r@ =~= trim_bytes(line@));
        }
        return r;
    }
    let mut end: usize = n - 1;
    while end > start && is_ws_byte_exec(line[end])
        invariant
            n == line@.len(),
            0 <= start <= end < n,
            !is_ws_byte(line@[start as int]),
            forall|j: int| end < j < n ==> is_ws_byte(line@[j]),
        decreases end,
    {
        end = end - 1;
    }
    let mut r: Vec<u8> = Vec::new();
    let mut i: usize = start;
    while i <= end
        invariant
            n == line@.len(),
            0 <= start <= i <= end + 1,
            end < n,
            r@ =~= line@.subrange(start as int, i as int),
        decreases end + 1 - i,
    {
        r.push(line[i]);
        proof {
            assert(r@ =~= line@.subrange(start as int, i + 1));
        }
        i = i + 1;
    }
    proof {
        let lead = line@.skip(start as int);
        lemma_drop_trailing_at(lead, end + 1 - start as int);
        assert(lead.take(end + 1 - start as int) =~= line@.subrange(start as int, end + 1));
        assert(r@ =~= trim_bytes(line@));
    }
    r
}

/// Whether the trimmed line starts with `Content-Length: `.
fn has_length_prefix(t: &Vec<u8>) -> (r: bool)
    ensures
        r == content_length_prefix().is_prefix_of(t@),
{
    let mut prefix: Vec<u8> = Vec::new();
    prefix.push(67u8);
    prefix.push(111u8);
    prefix.push(110u8);
    prefix.push(116u8);
    prefix.push(101u8);
    prefix.push(110u8);
    prefix.push(116u8);
    prefix.push(45u8);
    prefix.push(76u8);
    prefix.push(101u8);
    prefix.push(110u8);
    prefix.push(103u8);
    prefix.push(116u8);
    prefix.push(104u8);
    prefix.push(58u8);
    prefix.push(32u8);
    proof {
        assert(prefix@ =~= content_length_prefix());
    }
    if t.len() < prefix.len() {
        return false;
    }
    let mut i: usize = 0;
    while i < prefix.len()
        invariant
            prefix@ == content_length_prefix(),
            prefix@.len() <= t@.len(),
            0 <= i <= prefix@.len(),
            forall|j: int| 0 <= j < i ==> t@[j] == prefix@[j],
        decreases prefix@.len() - i,
    {
        if t[i] != prefix[i] {
            proof {
                assert(t@.take(prefix@.len() as int)[i as int] == t@[i as int]);
            }
            return false;
        }
        i = i + 1;
    }
    proof {
        assert(t@.take(prefix@.len() as int) =~= prefix@);
    }
    true
}

/// Classify one header line: the line is trimmed of surrounding whitespace
/// (the line terminator included); an empty result ends the header block; a
/// `Content-Length: ` line announces the body length, and is unusable when
/// what follows the prefix is not a plain decimal number that fits in 64
/// bits; anything else is ignored.
#[verifier::rlimit(100)]
pub fn parse_header_line(line: &Vec<u8>) -> (r: HeaderLine)
    ensures
        ({
            let t = trim_bytes(line@);
            match r {
                HeaderLine::Blank => t.len() == 0,
                HeaderLine::ContentLength(n) => {
                    let digits = t.skip(content_length_prefix().len() as int);
                    content_length_prefix().is_prefix_of(t) && digits.len() > 0 && all_digits(
                        digits,
                    ) && dec_value(digits) == n
                },
                HeaderLine::BadContentLength => {
                    let digits = t.skip(content_length_prefix().len() as int);
                    content_length_prefix().is_prefix_of(t) && (digits.len() == 0 || !all_digits(
                        digits,
                    ) || dec_value(digits) > u64::MAX)
                },
                HeaderLine::Other => t.len() > 0 && !content_length_prefix().is_prefix_of(t),
            }
        }),
{
    let t = trim_bytes_exec(line);
    if t.len() == 0 {
        return HeaderLine::Blank;
    }
    if !has_length_prefix(&t) {
        return HeaderLine::Other;
    }
    match parse_digits(&t, 16) {
        Some(n) => {
            proof {
                assert(content_length_prefix().len() == 16);
            }
            HeaderLine::ContentLength(n)
        },
        None => HeaderLine::BadContentLength,
    }
}

/// What feeding one header line to the frame reader yields.
pub enum HeaderStep {
    /// Keep reading header lines; the announced length seen so far, if any.
    NeedMore(Option<u64>),
    /// The header block is complete: a body of this many bytes follows.
    Done(u64),
    /// The header block ended without announcing a length; the frame is
    /// unusable.
    MissingLength,
    /// A `Content-Length` line could not be parsed; the frame is unusable.
    BadLength,
}

/// One step of reading a frame's header block: fold each line read into the
/// length seen so far, until the empty line ends the block.
pub fn header_step(length_so_far: Option<u64>, line: &Vec<u8>) -> (r: HeaderStep)
    ensures
        ({
            let t = trim_bytes(line@);
            match r {
                HeaderStep::NeedMore(l) => t.len() > 0 && (match l {
                    Some(n) => {
                        let digits = t.skip(content_length_prefix().len() as int);
                        (content_length_prefix().is_prefix_of(t) && all_digits(digits) && dec_value(
                            digits,
                        ) == n) || (!content_length_prefix().is_prefix_of(t) && length_so_far
                            == Some(n))
                    },
                    None => !content_length_prefix().is_prefix_of(t) && length_so_far is None,
                }),
                HeaderStep::Done(n) => t.len() == 0 && length_so_far == Some(n),
                HeaderStep::MissingLength => t.len() == 0 && length_so_far is None,
                HeaderStep::BadLength => content_length_prefix().is_prefix_of(t),
            }
        }),
{
    match parse_header_line(line) {
        HeaderLine::Blank => match length_so_far {
            Some(n) => HeaderStep::Done(n),
            None => HeaderStep::MissingLength,
        },
        HeaderLine::ContentLength(n) => HeaderStep::NeedMore(Some(n)),
        HeaderLine::BadContentLength => HeaderStep::BadLength,
        HeaderLine::Other => HeaderStep::NeedMore(length_so_far),
    }
}

/// The ASCII digits of `n`.
fn dec_digits_exec(n: u64) -> (r: Vec<u8>)
    ensures
        r@ == dec_digits(n as nat),
    decreases n,
{
    if n < 10 {
        let mut r: Vec<u8> = Vec::new();
        r.push(48 + n as u8);
        proof {
            assert(r@ =~= dec_digits(n as nat));
        }
        r
    } else {
        let mut r = dec_digits_exec(n / 10);
        r.push(48 + (n % 10) as u8);
        proof {
            assert(r@ =~= dec_digits((n / 10) as nat).push((48 + n % 10) as u8));
        }
        r
    }
}

/// The complete header block announcing an `n`-byte body:
/// `Content-Length: n\r\n\r\n`.
pub fn frame_header(n: u64) -> (r: Vec<u8>)
    ensures
        r@ == header_bytes(n as nat),
{
    let mut r: Vec<u8> = Vec::new();
    r.push(67u8);
    r.push(111u8);
    r.push(110u8);
    r.push(116u8);
    r.push(101u8);
    r.push(110u8);
    r.push(116u8);
    r.push(45u8);
    r.push(76u8);
    r.push(101u8);
    r.push(110u8);
    r.push(103u8);
    r.push(116u8);
    r.push(104u8);
    r.push(58u8);
    r.push(32u8);
    proof {
        assert(r@ =~= content_length_prefix());
    }
    let ghost before_digits = r@;
    let mut digits = dec_digits_exec(n);
    r.append(&mut digits);
    r.push(13);
    r.push(10);
    r.push(13);
    r.push(10);
    proof {
        assert(r@ =~= header_bytes(n as nat));
    }
    r
}

} // verus!
