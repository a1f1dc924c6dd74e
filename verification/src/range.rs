//! Byte-range grammar: decimal numbers, the `Range` request header, and the
//! `Content-Range` response header.
//!
//! Only the single-range form `bytes=<start>-<end?>` is accepted; multi-range
//! and suffix-range requests are treated as unsatisfiable.

use vstd::prelude::*;

verus! {

/// ASCII decimal digit.
pub open spec fn is_digit(b: u8) -> bool {
    48 <= b <= 57
}

/// Every byte of the sequence is an ASCII decimal digit.
pub open spec fn all_digits(s: Seq<u8>) -> bool {
    forall|i: int| 0 <= i < s.len() ==> is_digit(#[trigger] s[i])
}

/// Numeric value of a single byte read as a digit; non-digits below `0`
/// count as zero, so the value is total.
pub open spec fn digit_val(b: u8) -> nat {
    if 48 <= b {
        (b - 48) as nat
    } else {
        0
    }
}

/// Numeric value of a digit sequence, most significant digit first.
pub open spec fn dec_val(s: Seq<u8>) -> nat
    decreases s.len(),
{
    if s.len() == 0 {
        0
    } else {
        dec_val(s.drop_last()) * 10 + digit_val(s.last())
    }
}

/// Canonical decimal digits of `n`: no leading zeros, `0` itself as `"0"`.
pub open spec fn dec_digits(n: nat) -> Seq<u8>
    decreases n,
{
    if n < 10 {
        seq![(n + 48) as u8]
    } else {
        dec_digits(n / 10).push((n % 10 + 48) as u8)
    }
}

/// The canonical digits of `n` are digits, are never empty, and evaluate
/// back to `n`.
pub proof fn lemma_dec_digits_val(n: nat)
    ensures
        dec_digits(n).len() > 0,
        all_digits(dec_digits(n)),
        dec_val(dec_digits(n)) == n,
    decreases n,
{
    if n < 10 {
        let s = dec_digits(n);
        assert(s.drop_last() =~= Seq::<u8>::empty());
        assert(dec_val(Seq::<u8>::empty()) == 0);
        assert(dec_val(s) == dec_val(s.drop_last()) * 10 + digit_val(s.last()));
    } else {
        lemma_dec_digits_val(n / 10);
        let d = dec_digits(n / 10);
        let full = d.push((n % 10 + 48) as u8);
        assert(full.drop_last() =~= d);
        assert(full.last() == (n % 10 + 48) as u8);
        assert(dec_val(full) == dec_val(d) * 10 + n % 10);
        assert((n / 10) * 10 + n % 10 == n) by {
            vstd::arithmetic::div_mod::lemma_fundamental_div_mod(n as int, 10);
        }
        assert forall|i: int| 0 <= i < full.len() implies is_digit(#[trigger] full[i]) by {
            if i < d.len() {
                assert(is_digit(d[i]));
            }
        }
    }
}

/// Appends the canonical decimal digits of `n` to `out`.
pub fn push_u64_dec(out: &mut Vec<u8>, n: u64)
    ensures
        final(out)@ == old(out)@ + dec_digits(n as nat),
    decreases n,
{
    if n < 10 {
        out.push(n as u8 + 48);
        assert(out@ =~= old(out)@ + dec_digits(n as nat));
    } else {
        push_u64_dec(out, n / 10);
        out.push((n % 10) as u8 + 48);
        assert(out@ =~= old(out)@ + dec_digits(n as nat));
    }
}

/// The value of a digit prefix never exceeds the value of the whole sequence.
pub proof fn lemma_dec_val_prefix_le(s: Seq<u8>, i: int)
    requires
        0 <= i <= s.len(),
    ensures
        dec_val(s.subrange(0, i)) <= dec_val(s),
    decreases s.len() - i,
{
    if i == s.len() {
        assert(s.subrange(0, i) =~= s);
    } else {
        lemma_dec_val_prefix_le(s, i + 1);
        assert(s.subrange(0, i + 1).drop_last() =~= s.subrange(0, i));
        assert(dec_val(s.subrange(0, i + 1)) == dec_val(s.subrange(0, i)) * 10 + digit_val(
            s.subrange(0, i + 1).last(),
        ));
    }
}

/// The bytes of the literal prefix `bytes=` of a Range request header.
pub open spec fn range_prefix() -> Seq<u8> {
    seq![98u8, 121u8, 116u8, 101u8, 115u8, 61u8]
}

/// Index `i` holds the one and only `-` of the sequence.
pub open spec fn is_only_dash(s: Seq<u8>, i: int) -> bool {
    &&& 0 <= i < s.len()
    &&& s[i] == 45u8
    &&& forall|j: int| 0 <= j < s.len() && #[trigger] s[j] == 45u8 ==> j == i
}

/// Parse of the single-range form `bytes=<start>-<end?>`, over unbounded
/// integers. `None` stands for anything outside that form: a missing or
/// wrong prefix, no `-` or more than one (the multi-range form), an empty
/// or non-numeric start, or a non-numeric end. A missing end parses as
/// `None` in the second component.
pub open spec fn spec_parse_range_header(h: Seq<u8>) -> Option<(nat, Option<nat>)> {
    if h.len() < 6 || h.subrange(0, 6) != range_prefix() {
        None
    } else {
        let rest = h.subrange(6, h.len() as int);
        if exists|i: int| is_only_dash(rest, i) {
            let i = choose|i: int| is_only_dash(rest, i);
            let sp = rest.subrange(0, i);
            let ep = rest.subrange(i + 1, rest.len() as int);
            if sp.len() == 0 || !all_digits(sp) {
                None
            } else if ep.len() == 0 {
                Some((dec_val(sp), None))
            } else if !all_digits(ep) {
                None
            } else {
                Some((dec_val(sp), Some(dec_val(ep))))
            }
        } else {
            None
        }
    }
}

/// How a request's Range header resolves against an object of `file_size`
/// bytes.
#[derive(Debug, Clone, Copy, PartialEq, Eq, Structural)]
pub enum RangePlan {
    /// No Range header was sent: the whole object is owed.
    Whole,
    /// A satisfiable range: the inclusive byte slice `[start, end]`.
    Slice { start: u64, end: u64 },
    /// A malformed, unsupported, or out-of-bounds range.
    Unsatisfiable,
}

/// Resolution of a present Range header against the object size: a missing
/// end defaults to `file_size - 1`, and the request is satisfiable exactly
/// when it parses and `start <= end < file_size`.
pub open spec fn spec_resolve_range(h: Seq<u8>, file_size: u64) -> RangePlan {
    match spec_parse_range_header(h) {
        None => RangePlan::Unsatisfiable,
        Some((s, e_opt)) => {
            let e: int = match e_opt {
                None => file_size - 1,
                Some(ev) => ev as int,
            };
            if s as int > e || e >= file_size {
                RangePlan::Unsatisfiable
            } else {
                RangePlan::Slice { start: s as u64, end: e as u64 }
            }
        },
    }
}

/// Reads `s[lo..hi]` as an unsigned decimal number. `None` when the span is
/// empty, holds a non-digit, or the value does not fit in a `u64`.
fn parse_digits(s: &[u8], lo: usize, hi: usize) -> (r: Option<u64>)
    requires
        lo <= hi <= s@.len(),
    ensures
        ({
            let part = s@.subrange(lo as int, hi as int);
            match r {
                Some(v) => part.len() > 0 && all_digits(part) && v as nat == dec_val(part),
                None => part.len() == 0 || !all_digits(part) || dec_val(part) > u64::MAX,
            }
        }),
{
    let ghost part = s@.subrange(lo as int, hi as int);
    if lo == hi {
        return None;
    }
    let mut acc: u64 = 0;
    let mut i: usize = lo;
    while i < hi
        invariant
            lo <= i <= hi <= s@.len(),
            part == s@.subrange(lo as int, hi as int),
            all_digits(part.subrange(0, i - lo)),
            acc as nat == dec_val(part.subrange(0, i - lo)),
        decreases hi - i,
    {
        let b = s[i];
        proof {
            assert(part[i - lo] == s@[i as int]);
        }
        if b < 48 || b > 57 {
            assert(!all_digits(part));
            return None;
        }
        let d: u64 = (b - 48) as u64;
        let ghost next = part.subrange(0, i - lo + 1);
        proof {
            assert(next.drop_last() =~= part.subrange(0, i - lo));
            assert(next.last() == part[i - lo]);
            assert(dec_val(next) == acc as nat * 10 + d);
        }
        if acc > 1844674407370955161u64 || (acc == 1844674407370955161u64 && d > 5) {
            proof {
                assert(dec_val(next) > u64::MAX);
                lemma_dec_val_prefix_le(part, i - lo + 1);
            }
            return None;
        }
        acc = acc * 10 + d;
        i += 1;
    }
    proof {
        assert(part.subrange(0, i - lo) =~= part);
    }
    Some(acc)
}

/// Resolves the request's optional Range header against the object size.
///
/// Absent header: the whole object. Present header: the single-range form
/// `bytes=<start>-<end?>` with a missing end defaulting to `file_size - 1`;
/// anything else, and any range not satisfying `start <= end < file_size`,
/// is unsatisfiable.
pub fn resolve_range(header: Option<&[u8]>, file_size: u64) -> (r: RangePlan)
    ensures
        header is None ==> r == RangePlan::Whole,
        header matches Some(h) ==> r == spec_resolve_range(h@, file_size),
{
    let h: &[u8] = match header {
        None => {
            return RangePlan::Whole;
        },
        Some(h) => h,
    };
    let n = h.len();
    if n < 6 || h[0] != 98 || h[1] != 121 || h[2] != 116 || h[3] != 101 || h[4] != 115 || h[5]
        != 61 {
        proof {
            if h@.len() >= 6 && h@.subrange(0, 6) == range_prefix() {
                assert(forall|k: int| 0 <= k < 6 ==> h@[k] == #[trigger] range_prefix()[k]);
            }
        }
        return RangePlan::Unsatisfiable;
    }
    proof {
        assert(h@.subrange(0, 6) =~= range_prefix());
    }
    let ghost rest = h@.subrange(6, h@.len() as int);
    let mut i: usize = 6;
    let mut dash: usize = 0;
    let mut found = false;
    while i < n
        invariant
            6 <= i <= n == h@.len(),
            header == Some(h),
            rest == h@.subrange(6, h@.len() as int),
            found ==> 6 <= dash < i && h@[dash as int] == 45,
            found ==> forall|j: int| 6 <= j < i && j != dash ==> h@[j] != 45,
            !found ==> forall|j: int| 6 <= j < i ==> h@[j] != 45,
        decreases n - i,
    {
        if h[i] == 45 {
            if found {
                proof {
                    assert(rest[dash - 6] == h@[dash as int]);
                    assert(rest[i - 6] == h@[i as int]);
                    assert forall|k: int| !is_only_dash(rest, k) by {
                        if is_only_dash(rest, k) {
                            assert(rest[dash - 6] == 45u8);
                            assert(rest[i - 6] == 45u8);
                        }
                    }
                }
                return RangePlan::Unsatisfiable;
            }
            dash = i;
            found = true;
        }
        i += 1;
    }
    if !found {
        proof {
            assert forall|k: int| !is_only_dash(rest, k) by {
                if is_only_dash(rest, k) {
                    assert(rest[k] == h@[k + 6]);
                }
            }
        }
        return RangePlan::Unsatisfiable;
    }
    proof {
        assert(rest[dash - 6] == h@[dash as int]);
        assert forall|j: int| 0 <= j < rest.len() && #[trigger] rest[j] == 45u8 implies j == dash
            - 6 by {
            assert(rest[j] == h@[j + 6]);
        }
        assert(is_only_dash(rest, dash - 6));
        let c = choose|k: int| is_only_dash(rest, k);
        assert(is_only_dash(rest, c));
        assert(c == dash - 6);
        assert(rest.subrange(0, dash - 6) =~= h@.subrange(6, dash as int));
        assert(rest.subrange(dash - 6 + 1, rest.len() as int) =~= h@.subrange(
            dash as int + 1,
            n as int,
        ));
    }
    let ghost sp = h@.subrange(6, dash as int);
    let ghost ep = h@.subrange(dash as int + 1, n as int);
    let start_v: u64 = match parse_digits(h, 6, dash) {
        None => {
            proof {
                if sp.len() > 0 && all_digits(sp) {
                    assert(dec_val(sp) > u64::MAX);
                }
            }
            return RangePlan::Unsatisfiable;
        },
        Some(v) => v,
    };
    if dash + 1 == n {
        assert(ep.len() == 0);
        if file_size == 0 || start_v > file_size - 1 {
            return RangePlan::Unsatisfiable;
        }
        RangePlan::Slice { start: start_v, end: file_size - 1 }
    } else {
        let end_v: u64 = match parse_digits(h, dash + 1, n) {
            None => {
                proof {
                    if ep.len() > 0 && all_digits(ep) {
                        assert(dec_val(ep) > u64::MAX);
                    }
                }
                return RangePlan::Unsatisfiable;
            },
            Some(v) => v,
        };
        if start_v > end_v || end_v >= file_size {
            return RangePlan::Unsatisfiable;
        }
        RangePlan::Slice { start: start_v, end: end_v }
    }
}

/// The bytes of the literal prefix `bytes ` of a Content-Range header.
pub open spec fn content_range_prefix() -> Seq<u8> {
    seq![98u8, 121u8, 116u8, 101u8, 115u8, 32u8]
}

/// The canonical Content-Range value `bytes <start>-<end>/<size>`.
pub open spec fn spec_content_range(start: nat, end: nat, size: nat) -> Seq<u8> {
    content_range_prefix() + dec_digits(start) + seq![45u8] + dec_digits(end) + seq![47u8]
        + dec_digits(size)
}

/// The canonical Range request value `bytes=<start>-<end>`.
pub open spec fn spec_range_header(start: nat, end: nat) -> Seq<u8> {
    range_prefix() + dec_digits(start) + seq![45u8] + dec_digits(end)
}

/// The open-ended Range request value `bytes=<start>-`.
pub open spec fn spec_range_header_open(start: nat) -> Seq<u8> {
    range_prefix() + dec_digits(start) + seq![45u8]
}

/// Formats the Content-Range response value `bytes <start>-<end>/<size>`.
pub fn format_content_range(start: u64, end: u64, size: u64) -> (r: Vec<u8>)
    ensures
        r@ == spec_content_range(start as nat, end as nat, size as nat),
{
    let mut out: Vec<u8> = Vec::new();
    out.push(98);
    out.push(121);
    out.push(116);
    out.push(101);
    out.push(115);
    out.push(32);
    assert(out@ =~= content_range_prefix());
    push_u64_dec(&mut out, start);
    out.push(45);
    push_u64_dec(&mut out, end);
    out.push(47);
    push_u64_dec(&mut out, size);
    assert(out@ =~= spec_content_range(start as nat, end as nat, size as nat));
    out
}

/// Formats the Range request value `bytes=<start>-<end>` sent to the backend.
pub fn format_range_header(start: u64, end: u64) -> (r: Vec<u8>)
    ensures
        r@ == spec_range_header(start as nat, end as nat),
{
    let mut out: Vec<u8> = Vec::new();
    out.push(98);
    out.push(121);
    out.push(116);
    out.push(101);
    out.push(115);
    out.push(61);
    assert(out@ =~= range_prefix());
    push_u64_dec(&mut out, start);
    out.push(45);
    push_u64_dec(&mut out, end);
    assert(out@ =~= spec_range_header(start as nat, end as nat));
    out
}

/// Index `i` holds the first occurrence of `b` in `s`.
pub open spec fn is_first_at(s: Seq<u8>, b: u8, i: int) -> bool {
    &&& 0 <= i < s.len()
    &&& s[i] == b
    &&& forall|j: int| 0 <= j < i ==> #[trigger] s[j] != b
}

/// Parse of a Content-Range value `bytes <start>-<end>/<size>`, over
/// unbounded integers: the first `-` splits start from the rest, the first
/// `/` after it splits end from size, and all three parts must be non-empty
/// digit runs.
pub open spec fn spec_parse_content_range(h: Seq<u8>) -> Option<(nat, nat, nat)> {
    if h.len() < 6 || h.subrange(0, 6) != content_range_prefix() {
        None
    } else {
        let rest = h.subrange(6, h.len() as int);
        if exists|i: int| is_first_at(rest, 45u8, i) {
            let i = choose|i: int| is_first_at(rest, 45u8, i);
            let sp = rest.subrange(0, i);
            let tail = rest.subrange(i + 1, rest.len() as int);
            if exists|k: int| is_first_at(tail, 47u8, k) {
                let k = choose|k: int| is_first_at(tail, 47u8, k);
                let ep = tail.subrange(0, k);
                let zp = tail.subrange(k + 1, tail.len() as int);
                if sp.len() > 0 && all_digits(sp) && ep.len() > 0 && all_digits(ep) && zp.len()
                    > 0 && all_digits(zp) {
                    Some((dec_val(sp), dec_val(ep), dec_val(zp)))
                } else {
                    None
                }
            } else {
                None
            }
        } else {
            None
        }
    }
}

/// A formatted Content-Range value parses back to exactly the numbers it
/// was formatted from.
pub proof fn lemma_content_range_roundtrip(start: nat, end: nat, size: nat)
    ensures
        spec_parse_content_range(spec_content_range(start, end, size)) == Some(
            (start, end, size),
        ),
{
    lemma_dec_digits_val(start);
    lemma_dec_digits_val(end);
    lemma_dec_digits_val(size);
    let ds = dec_digits(start);
    let de = dec_digits(end);
    let dz = dec_digits(size);
    let h = spec_content_range(start, end, size);
    assert(h.subrange(0, 6) =~= content_range_prefix());
    let rest = h.subrange(6, h.len() as int);
    assert(rest =~= ds + seq![45u8] + de + seq![47u8] + dz);
    let i0 = ds.len() as int;
    assert(is_first_at(rest, 45u8, i0)) by {
        assert(rest[i0] == 45u8);
        assert forall|j: int| 0 <= j < i0 implies #[trigger] rest[j] != 45u8 by {
            assert(rest[j] == ds[j]);
            assert(is_digit(ds[j]));
        }
    }
    let i = choose|i: int| is_first_at(rest, 45u8, i);
    assert(is_first_at(rest, 45u8, i));
    assert(i == i0) by {
        if i < i0 {
            assert(rest[i] == ds[i]);
            assert(is_digit(ds[i]));
        }
    }
    assert(rest.subrange(0, i0) =~= ds);
    let tail = rest.subrange(i0 + 1, rest.len() as int);
    assert(tail =~= de + seq![47u8] + dz);
    let k0 = de.len() as int;
    assert(is_first_at(tail, 47u8, k0)) by {
        assert(tail[k0] == 47u8);
        assert forall|j: int| 0 <= j < k0 implies #[trigger] tail[j] != 47u8 by {
            assert(tail[j] == de[j]);
            assert(is_digit(de[j]));
        }
    }
    let k = choose|k: int| is_first_at(tail, 47u8, k);
    assert(is_first_at(tail, 47u8, k));
    assert(k == k0) by {
        if k < k0 {
            assert(tail[k] == de[k]);
            assert(is_digit(de[k]));
        }
    }
    assert(tail.subrange(0, k0) =~= de);
    assert(tail.subrange(k0 + 1, tail.len() as int) =~= dz);
}

/// Parsing a Content-Range header and formatting the triple again is
/// idempotent: any header that parses to `(start, end, size)` reformats to
/// a header that parses to the same triple, so one parse-format pass is a
/// fixed point.
pub proof fn lemma_content_range_format_idempotent(h: Seq<u8>, start: nat, end: nat, size: nat)
    requires
        spec_parse_content_range(h) == Some((start, end, size)),
    ensures
        spec_parse_content_range(spec_content_range(start, end, size)) == Some(
            (start, end, size),
        ),
{
    lemma_content_range_roundtrip(start, end, size);
}

/// A formatted Range request value parses back to exactly the numbers it
/// was formatted from.
pub proof fn lemma_range_header_roundtrip(start: nat, end: nat)
    ensures
        spec_parse_range_header(spec_range_header(start, end)) == Some((start, Some(end))),
{
    lemma_dec_digits_val(start);
    lemma_dec_digits_val(end);
    let ds = dec_digits(start);
    let de = dec_digits(end);
    let h = spec_range_header(start, end);
    assert(h.subrange(0, 6) =~= range_prefix());
    let rest = h.subrange(6, h.len() as int);
    assert(rest =~= ds + seq![45u8] + de);
    let i0 = ds.len() as int;
    assert(is_only_dash(rest, i0)) by {
        assert(rest[i0] == 45u8);
        assert forall|j: int| 0 <= j < rest.len() && #[trigger] rest[j] == 45u8 implies j
            == i0 by {
            if j < i0 {
                assert(rest[j] == ds[j]);
                assert(is_digit(ds[j]));
            } else if j > i0 {
                assert(rest[j] == de[j - i0 - 1]);
                assert(is_digit(de[j - i0 - 1]));
            }
        }
    }
    let i = choose|i: int| is_only_dash(rest, i);
    assert(is_only_dash(rest, i));
    assert(i == i0);
    assert(rest.subrange(0, i0) =~= ds);
    assert(rest.subrange(i0 + 1, rest.len() as int) =~= de);
}

/// An open-ended formatted Range request value parses back to its start
/// with no end.
pub proof fn lemma_range_header_open_roundtrip(start: nat)
    ensures
        spec_parse_range_header(spec_range_header_open(start)) == Some((start, None::<nat>)),
{
    lemma_dec_digits_val(start);
    let ds = dec_digits(start);
    let h = spec_range_header_open(start);
    assert(h.subrange(0, 6) =~= range_prefix());
    let rest = h.subrange(6, h.len() as int);
    assert(rest =~= ds + seq![45u8]);
    let i0 = ds.len() as int;
    assert(is_only_dash(rest, i0)) by {
        assert(rest[i0] == 45u8);
        assert forall|j: int| 0 <= j < rest.len() && #[trigger] rest[j] == 45u8 implies j
            == i0 by {
            if j < i0 {
                assert(rest[j] == ds[j]);
                assert(is_digit(ds[j]));
            }
        }
    }
    let i = choose|i: int| is_only_dash(rest, i);
    assert(is_only_dash(rest, i));
    assert(i == i0);
    assert(rest.subrange(0, i0) =~= ds);
    assert(rest.subrange(i0 + 1, rest.len() as int) =~= Seq::<u8>::empty());
}

/// `bytes=0-0` on a non-empty object resolves to the one-byte slice `[0, 0]`.
pub proof fn lemma_first_byte_range(file_size: u64)
    requires
        file_size > 0,
    ensures
        spec_resolve_range(spec_range_header(0, 0), file_size) == (RangePlan::Slice {
            start: 0u64,
            end: 0u64,
        }),
{
    lemma_range_header_roundtrip(0, 0);
}

/// `bytes=0-<file_size - 1>` resolves to a satisfiable slice — a partial
/// response — and never to the whole-object form.
pub proof fn lemma_full_width_range_is_slice(file_size: u64)
    requires
        file_size > 0,
    ensures
        spec_resolve_range(spec_range_header(0, (file_size - 1) as nat), file_size)
            == (RangePlan::Slice { start: 0u64, end: (file_size - 1) as u64 }),
{
    lemma_range_header_roundtrip(0, (file_size - 1) as nat);
}

/// `bytes=<file_size - 1>-<file_size - 1>` resolves to the one-byte slice
/// holding the last byte.
pub proof fn lemma_last_byte_range(file_size: u64)
    requires
        file_size > 0,
    ensures
        spec_resolve_range(
            spec_range_header((file_size - 1) as nat, (file_size - 1) as nat),
            file_size,
        ) == (RangePlan::Slice {
            start: (file_size - 1) as u64,
            end: (file_size - 1) as u64,
        }),
{
    lemma_range_header_roundtrip((file_size - 1) as nat, (file_size - 1) as nat);
}

/// `bytes=<file_size>-<file_size>` is out of bounds and unsatisfiable.
pub proof fn lemma_past_end_range(file_size: u64)
    ensures
        spec_resolve_range(spec_range_header(file_size as nat, file_size as nat), file_size)
            == RangePlan::Unsatisfiable,
{
    lemma_range_header_roundtrip(file_size as nat, file_size as nat);
}

/// A missing end in `bytes=<start>-` defaults to `file_size - 1`.
pub proof fn lemma_open_range_defaults_to_last_byte(start: u64, file_size: u64)
    requires
        start < file_size,
    ensures
        spec_resolve_range(spec_range_header_open(start as nat), file_size)
            == (RangePlan::Slice { start: start, end: (file_size - 1) as u64 }),
{
    lemma_range_header_open_roundtrip(start as nat);
}

/// Every slice the resolver yields lies inside the object:
/// `start <= end < file_size`.
pub proof fn lemma_resolved_slice_in_bounds(h: Seq<u8>, file_size: u64)
    ensures
        spec_resolve_range(h, file_size) matches RangePlan::Slice { start, end } ==> start <= end
            < file_size,
{
}

/// Finds the first occurrence of `b` in `s` at or after `from`.
fn find_first(s: &[u8], from: usize, b: u8) -> (r: Option<usize>)
    requires
        from <= s@.len(),
    ensures
        match r {
            Some(i) => from <= i < s@.len() && s@[i as int] == b && forall|j: int|
                from <= j < i ==> s@[j] != b,
            None => forall|j: int| from <= j < s@.len() ==> s@[j] != b,
        },
{
    let mut i: usize = from;
    while i < s.len()
        invariant
            from <= i <= s@.len(),
            forall|j: int| from <= j < i ==> s@[j] != b,
        decreases s@.len() - i,
    {
        if s[i] == b {
            return Some(i);
        }
        i += 1;
    }
    None
}

/// Parses a Content-Range value `bytes <start>-<end>/<size>`. `None` when
/// the value is not of that form or a number does not fit in a `u64`.
pub fn parse_content_range(h: &[u8]) -> (r: Option<(u64, u64, u64)>)
    ensures
        r matches Some(t) ==> spec_parse_content_range(h@) == Some(
            (t.0 as nat, t.1 as nat, t.2 as nat),
        ),
        r is None ==> (spec_parse_content_range(h@) is None || (spec_parse_content_range(h@)
            matches Some(t) && (t.0 > u64::MAX || t.1 > u64::MAX || t.2 > u64::MAX))),
{
    let n = h.len();
    if n < 6 || h[0] != 98 || h[1] != 121 || h[2] != 116 || h[3] != 101 || h[4] != 115 || h[5]
        != 32 {
        proof {
            if h@.len() >= 6 && h@.subrange(0, 6) == content_range_prefix() {
                assert(forall|k: int|
                    0 <= k < 6 ==> h@[k] == #[trigger] content_range_prefix()[k]);
            }
        }
        return None;
    }
    proof {
        assert(h@.subrange(0, 6) =~= content_range_prefix());
    }
    let ghost rest = h@.subrange(6, h@.len() as int);
    let dash: usize = match find_first(h, 6, 45) {
        None => {
            proof {
                assert forall|k: int| !is_first_at(rest, 45u8, k) by {
                    if is_first_at(rest, 45u8, k) {
                        assert(rest[k] == h@[k + 6]);
                    }
                }
            }
            return None;
        },
        Some(i) => i,
    };
    proof {
        assert(rest[dash - 6] == h@[dash as int]);
        assert(is_first_at(rest, 45u8, dash - 6)) by {
            assert forall|j: int| 0 <= j < dash - 6 implies #[trigger] rest[j] != 45u8 by {
                assert(rest[j] == h@[j + 6]);
            }
        }
        let c = choose|k: int| is_first_at(rest, 45u8, k);
        assert(is_first_at(rest, 45u8, c));
        assert(c == dash - 6) by {
            if c < dash - 6 {
                assert(rest[c] == h@[c + 6]);
            }
        }
    }
    let slash: usize = match find_first(h, dash + 1, 47) {
        None => {
            proof {
                let tail = rest.subrange(dash - 6 + 1, rest.len() as int);
                assert forall|k: int| !is_first_at(tail, 47u8, k) by {
                    if is_first_at(tail, 47u8, k) {
                        assert(tail[k] == h@[k + dash + 1]);
                    }
                }
            }
            return None;
        },
        Some(i) => i,
    };
    let ghost tail = rest.subrange(dash - 6 + 1, rest.len() as int);
    proof {
        assert(tail[slash - dash - 1] == h@[slash as int]);
        assert(is_first_at(tail, 47u8, slash - dash - 1)) by {
            assert forall|j: int| 0 <= j < slash - dash - 1 implies #[trigger] tail[j]
                != 47u8 by {
                assert(tail[j] == h@[j + dash + 1]);
            }
        }
        let c = choose|k: int| is_first_at(tail, 47u8, k);
        assert(is_first_at(tail, 47u8, c));
        assert(c == slash - dash - 1) by {
            if c < slash - dash - 1 {
                assert(tail[c] == h@[c + dash + 1]);
            }
        }
        assert(rest.subrange(0, dash - 6) =~= h@.subrange(6, dash as int));
        assert(tail.subrange(0, slash - dash - 1) =~= h@.subrange(dash as int + 1,
            slash as int,
        ));
        assert(tail.subrange(slash - dash - 1 + 1, tail.len() as int) =~= h@.subrange(
            slash as int + 1,
            n as int,
        ));
    }
    let ghost sp = h@.subrange(6, dash as int);
    let ghost ep = h@.subrange(dash as int + 1, slash as int);
    let ghost zp = h@.subrange(slash as int + 1, n as int);
    let sv: u64 = match parse_digits(h, 6, dash) {
        None => {
            proof {
                if sp.len() > 0 && all_digits(sp) {
                    assert(dec_val(sp) > u64::MAX);
                }
            }
            return None;
        },
        Some(v) => v,
    };
    let ev: u64 = match parse_digits(h, dash + 1, slash) {
        None => {
            proof {
                if ep.len() > 0 && all_digits(ep) {
                    assert(dec_val(ep) > u64::MAX);
                }
            }
            return None;
        },
        Some(v) => v,
    };
    let zv: u64 = match parse_digits(h, slash + 1, n) {
        None => {
            proof {
                if zp.len() > 0 && all_digits(zp) {
                    assert(dec_val(zp) > u64::MAX);
                }
            }
            return None;
        },
        Some(v) => v,
    };
    Some((sv, ev, zv))
}

} // verus!
