//! Decimal text: rendering counters as ASCII bytes, parsing them back, and
//! the run's progress and summary lines. Everything works on byte vectors;
//! printing them is left to the caller outside this crate's library. The
//! round-trip law — parsing a rendered summary yields the counters it was
//! rendered from — is proved here.

use vstd::arithmetic::div_mod::lemma_fundamental_div_mod;
use vstd::prelude::*;

verus! {

/// An ASCII decimal digit.
pub open spec fn is_dec_digit(b: u8) -> bool {
    48 <= b <= 57
}

/// The digit byte for one decimal digit value.
pub open spec fn dec_digit(d: int) -> u8
    recommends
        0 <= d <= 9,
{
    (48 + d) as u8
}

/// The decimal digits of a non-negative number, most significant first.
pub open spec fn dec_bytes(n: int) -> Seq<u8>
    recommends
        n >= 0,
    decreases n,
{
    if n < 10 {
        seq![dec_digit(n)]
    } else {
        dec_bytes(n / 10).push(dec_digit(n % 10))
    }
}

/// The number a sequence of digit bytes denotes, most significant first.
pub open spec fn dec_value(s: Seq<u8>) -> int
    decreases s.len(),
{
    if s.len() == 0 {
        0
    } else {
        dec_value(s.drop_last()) * 10 + (s.last() - 48)
    }
}

/// Every byte of the sequence is an ASCII decimal digit.
pub open spec fn all_dec_digits(s: Seq<u8>) -> bool {
    forall|i: int| 0 <= i < s.len() ==> is_dec_digit(#[trigger] s[i])
}

/// Rendering a number and reading the digits back yields the number: the
/// digits of `n` are genuine digits, there is at least one, and they denote
/// `n`.
pub proof fn lemma_dec_round_trip(n: int)
    requires
        n >= 0,
    ensures
        dec_value(dec_bytes(n)) == n,
        all_dec_digits(dec_bytes(n)),
        dec_bytes(n).len() >= 1,
    decreases n,
{
    if n < 10 {
        let s = dec_bytes(n);
        assert(s =~= seq![dec_digit(n)]);
        assert(s.len() == 1);
        assert(s.drop_last() =~= Seq::<u8>::empty());
        assert(dec_value(s.drop_last()) == 0);
        assert(s.last() == dec_digit(n));
        assert(dec_digit(n) == 48 + n);
        assert(dec_value(s) == dec_value(s.drop_last()) * 10 + (s.last() - 48));
    } else {
        lemma_dec_round_trip(n / 10);
        lemma_fundamental_div_mod(n, 10);
        assert(dec_bytes(n).drop_last() =~= dec_bytes(n / 10));
        assert(dec_bytes(n).last() == dec_digit(n % 10));
        assert(dec_digit(n % 10) == 48 + n % 10);
        assert(dec_value(dec_bytes(n)) == dec_value(dec_bytes(n / 10)) * 10 + n % 10);
    }
}

/// Digit sequences denote non-negative numbers.
proof fn lemma_dec_value_nonneg(s: Seq<u8>)
    requires
        all_dec_digits(s),
    ensures
        dec_value(s) >= 0,
    decreases s.len(),
{
    if s.len() > 0 {
        assert(all_dec_digits(s.drop_last()));
        lemma_dec_value_nonneg(s.drop_last());
    }
}

/// Reading more digits never shrinks the value: the value of a prefix is at
/// most the value of the whole digit sequence.
proof fn lemma_dec_value_prefix_le(s: Seq<u8>, i: int)
    requires
        all_dec_digits(s),
        0 <= i <= s.len(),
    ensures
        dec_value(s.subrange(0, i)) <= dec_value(s),
    decreases s.len() - i,
{
    if i < s.len() {
        lemma_dec_value_prefix_le(s, i + 1);
        assert(s.subrange(0, i + 1).drop_last() =~= s.subrange(0, i));
        assert(all_dec_digits(s.subrange(0, i)));
        lemma_dec_value_nonneg(s.subrange(0, i));
    } else {
        assert(s.subrange(0, i) =~= s);
    }
}

/// Render a number as decimal digit bytes, most significant first.
pub fn u128_to_dec(n: u128) -> (r: Vec<u8>)
    ensures
        r@ == dec_bytes(n as int),
{
    let mut out: Vec<u8> = Vec::new();
    let mut cur: u128 = n;
    proof {
        assert(dec_bytes(n as int) =~= dec_bytes(cur as int) + out@);
    }
    while cur >= 10
        invariant
            dec_bytes(n as int) =~= dec_bytes(cur as int) + out@,
        decreases cur,
    {
        let d: u8 = (cur % 10) as u8 + 48;
        let ghost before = out@;
        out.insert(0, d);
        proof {
            assert(out@ =~= seq![d] + before);
            assert(dec_bytes(cur as int) =~= dec_bytes(cur as int / 10).push(
                dec_digit(cur as int % 10),
            ));
            assert(dec_bytes(cur as int / 10) + out@ =~= dec_bytes(cur as int) + before);
        }
        cur = cur / 10;
    }
    let d: u8 = (cur as u8) + 48;
    let ghost before = out@;
    out.insert(0, d);
    proof {
        assert(out@ =~= seq![d] + before);
        assert(dec_bytes(cur as int) =~= seq![dec_digit(cur as int)]);
        assert(out@ =~= dec_bytes(cur as int) + before);
        assert(out@ =~= dec_bytes(n as int));
    }
    out
}

/// Parse the bytes `s[start .. end]` as a decimal number. Yields the denoted
/// value exactly when the range is non-empty, all digits, and the value fits
/// a `u128`; yields nothing otherwise.
pub fn parse_dec_range(s: &[u8], start: usize, end: usize) -> (r: Option<u128>)
    requires
        start <= end <= s@.len(),
    ensures
        ({
            let sub = s@.subrange(start as int, end as int);
            match r {
                Option::Some(v) => sub.len() > 0 && all_dec_digits(sub) && v as int == dec_value(
                    sub,
                ),
                Option::None => sub.len() == 0 || !all_dec_digits(sub) || dec_value(sub)
                    > u128::MAX as int,
            }
        }),
{
    let ghost sub = s@.subrange(start as int, end as int);
    if start == end {
        return Option::None;
    }
    let mut acc: u128 = 0;
    let mut i: usize = start;
    while i < end
        invariant
            start <= i <= end <= s@.len(),
            sub == s@.subrange(start as int, end as int),
            all_dec_digits(sub.subrange(0, i - start)),
            acc as int == dec_value(sub.subrange(0, i - start)),
        decreases end - i,
    {
        let b = s[i];
        if b < 48 || b > 57 {
            proof {
                assert(sub[i - start] == b);
                assert(!all_dec_digits(sub));
            }
            return Option::None;
        }
        let d: u128 = (b - 48) as u128;
        let ghost pre = sub.subrange(0, i - start);
        proof {
            assert(sub.subrange(0, i + 1 - start).drop_last() =~= pre);
            assert(sub.subrange(0, i + 1 - start).last() == b);
            assert(all_dec_digits(sub.subrange(0, i + 1 - start)));
        }
        let next = match acc.checked_mul(10) {
            Option::Some(m) => m.checked_add(d),
            Option::None => Option::None,
        };
        match next {
            Option::Some(v) => {
                acc = v;
            },
            Option::None => {
                proof {
                    assert(dec_value(sub.subrange(0, i + 1 - start)) > u128::MAX as int);
                    assert(all_dec_digits(sub) ==> dec_value(sub) > u128::MAX as int) by {
                        if all_dec_digits(sub) {
                            lemma_dec_value_prefix_le(sub, i + 1 - start);
                        }
                    }
                }
                return Option::None;
            },
        }
        i += 1;
    }
    proof {
        assert(sub.subrange(0, end - start) =~= sub);
    }
    Option::Some(acc)
}

/// Append every byte of `piece` to `out`.
fn append_bytes(out: &mut Vec<u8>, piece: &Vec<u8>)
    ensures
        final(out)@ == old(out)@ + piece@,
{
    let mut i: usize = 0;
    while i < piece.len()
        invariant
            i <= piece@.len(),
            out@ == old(out)@ + piece@.subrange(0, i as int),
        decreases piece@.len() - i,
    {
        out.push(piece[i]);
        proof {
            assert(old(out)@ + piece@.subrange(0, i + 1) =~= (old(out)@ + piece@.subrange(
                0,
                i as int,
            )).push(piece@[i as int]));
        }
        i += 1;
    }
    proof {
        assert(piece@.subrange(0, piece@.len() as int) =~= piece@);
    }
}

/// The bytes of `"TLS handshakes: "`.
pub open spec fn label_handshakes() -> Seq<u8> {
    seq![84u8, 76u8, 83u8, 32u8, 104u8, 97u8, 110u8, 100u8, 115u8, 104u8, 97u8, 107u8, 101u8, 115u8, 58u8, 32u8]
}

/// The bytes of `" | errors: "`.
pub open spec fn label_errors() -> Seq<u8> {
    seq![32u8, 124u8, 32u8, 101u8, 114u8, 114u8, 111u8, 114u8, 115u8, 58u8, 32u8]
}

/// The bytes of `" | throughput "`.
pub open spec fn label_throughput() -> Seq<u8> {
    seq![32u8, 124u8, 32u8, 116u8, 104u8, 114u8, 111u8, 117u8, 103u8, 104u8, 112u8, 117u8, 116u8, 32u8]
}

/// The bytes of `" h/s | duration "`.
pub open spec fn label_duration() -> Seq<u8> {
    seq![32u8, 104u8, 47u8, 115u8, 32u8, 124u8, 32u8, 100u8, 117u8, 114u8, 97u8, 116u8, 105u8, 111u8, 110u8, 32u8]
}

/// The bytes of `"s | success ratio "`.
pub open spec fn label_ratio() -> Seq<u8> {
    seq![115u8, 32u8, 124u8, 32u8, 115u8, 117u8, 99u8, 99u8, 101u8, 115u8, 115u8, 32u8, 114u8, 97u8, 116u8, 105u8, 111u8, 32u8]
}

fn label_handshakes_vec() -> (r: Vec<u8>)
    ensures
        r@ == label_handshakes(),
{
    let mut out: Vec<u8> = Vec::new();
    out.push(84);
    out.push(76);
    out.push(83);
    out.push(32);
    out.push(104);
    out.push(97);
    out.push(110);
    out.push(100);
    out.push(115);
    out.push(104);
    out.push(97);
    out.push(107);
    out.push(101);
    out.push(115);
    out.push(58);
    out.push(32);
    proof {
        assert(out@ =~= label_handshakes());
    }
    out
}

fn label_errors_vec() -> (r: Vec<u8>)
    ensures
        r@ == label_errors(),
{
    let mut out: Vec<u8> = Vec::new();
    out.push(32);
    out.push(124);
    out.push(32);
    out.push(101);
    out.push(114);
    out.push(114);
    out.push(111);
    out.push(114);
    out.push(115);
    out.push(58);
    out.push(32);
    proof {
        assert(out@ =~= label_errors());
    }
    out
}

fn label_throughput_vec() -> (r: Vec<u8>)
    ensures
        r@ == label_throughput(),
{
    let mut out: Vec<u8> = Vec::new();
    out.push(32);
    out.push(124);
    out.push(32);
    out.push(116);
    out.push(104);
    out.push(114);
    out.push(111);
    out.push(117);
    out.push(103);
    out.push(104);
    out.push(112);
    out.push(117);
    out.push(116);
    out.push(32);
    proof {
        assert(out@ =~= label_throughput());
    }
    out
}

fn label_duration_vec() -> (r: Vec<u8>)
    ensures
        r@ == label_duration(),
{
    let mut out: Vec<u8> = Vec::new();
    out.push(32);
    out.push(104);
    out.push(47);
    out.push(115);
    out.push(32);
    out.push(124);
    out.push(32);
    out.push(100);
    out.push(117);
    out.push(114);
    out.push(97);
    out.push(116);
    out.push(105);
    out.push(111);
    out.push(110);
    out.push(32);
    proof {
        assert(out@ =~= label_duration());
    }
    out
}

fn label_ratio_vec() -> (r: Vec<u8>)
    ensures
        r@ == label_ratio(),
{
    let mut out: Vec<u8> = Vec::new();
    out.push(115);
    out.push(32);
    out.push(124);
    out.push(32);
    out.push(115);
    out.push(117);
    out.push(99);
    out.push(99);
    out.push(101);
    out.push(115);
    out.push(115);
    out.push(32);
    out.push(114);
    out.push(97);
    out.push(116);
    out.push(105);
    out.push(111);
    out.push(32);
    proof {
        assert(out@ =~= label_ratio());
    }
    out
}

/// Milliseconds rendered as seconds with two decimals, a leading minus sign
/// for a negative count.
pub open spec fn fixed2_bytes(ms: int) -> Seq<u8> {
    if ms < 0 {
        seq![45u8] + fixed2_nonneg(-ms)
    } else {
        fixed2_nonneg(ms)
    }
}

/// Non-negative milliseconds as seconds with two decimals: the whole seconds,
/// a dot, then tenths and hundredths.
pub open spec fn fixed2_nonneg(ms: int) -> Seq<u8>
    recommends
        ms >= 0,
{
    dec_bytes(ms / 1000) + seq![
        46u8,
        dec_digit((ms % 1000) / 100),
        dec_digit(((ms % 1000) / 10) % 10),
    ]
}

/// Render milliseconds as seconds with two decimals.
pub fn render_fixed2(ms: i64) -> (r: Vec<u8>)
    requires
        ms > i64::MIN,
    ensures
        r@ == fixed2_bytes(ms as int),
{
    let mut out: Vec<u8> = Vec::new();
    let m: u64 = if ms < 0 {
        out.push(45);
        (-ms) as u64
    } else {
        ms as u64
    };
    let mut digits = u128_to_dec((m / 1000) as u128);
    append_bytes(&mut out, &digits);
    out.push(46);
    let rem: u64 = m % 1000;
    out.push((rem / 100) as u8 + 48);
    out.push(((rem / 10) % 10) as u8 + 48);
    proof {
        if ms < 0 {
            assert(out@ =~= seq![45u8] + fixed2_nonneg(m as int));
        } else {
            assert(out@ =~= fixed2_nonneg(m as int));
        }
    }
    out
}

/// A ratio rendered as a decimal with two digits after the point, rounded
/// down: the whole part and two decimals of `num / den`.
pub open spec fn ratio2_bytes(num: int, den: int) -> Seq<u8>
    recommends
        num >= 0,
        den >= 1,
{
    let c = (num * 100) / den;
    dec_bytes(c / 100) + seq![46u8, dec_digit((c % 100) / 10), dec_digit((c % 100) % 10)]
}

/// Render a ratio with two decimals.
pub fn render_ratio2(num: u128, den: u128) -> (r: Vec<u8>)
    requires
        den >= 1,
        num <= u128::MAX as int / 100,
    ensures
        r@ == ratio2_bytes(num as int, den as int),
{
    proof {
        assert(num as int * 100 <= u128::MAX as int) by (nonlinear_arith)
            requires
                num as int <= u128::MAX as int / 100,
            ;
    }
    let c: u128 = (num * 100) / den;
    let mut out = u128_to_dec(c / 100);
    out.push(46);
    let rem: u128 = c % 100;
    out.push((rem / 10) as u8 + 48);
    out.push((rem % 10) as u8 + 48);
    proof {
        assert(out@ =~= ratio2_bytes(num as int, den as int));
    }
    out
}

/// The live progress line: the two counters, the running throughput, and the
/// elapsed seconds.
pub open spec fn progress_spec(hc: int, ec: int, tp: int, elapsed_ms: int) -> Seq<u8> {
    label_handshakes() + dec_bytes(hc) + label_errors() + dec_bytes(ec) + label_throughput()
        + dec_bytes(tp) + label_duration() + fixed2_bytes(elapsed_ms) + seq![115u8]
}

/// The final summary line: the progress fields followed by the success ratio
/// as a percentage.
pub open spec fn summary_spec(
    hc: int,
    ec: int,
    tp: int,
    elapsed_ms: int,
    ratio_num: int,
    ratio_den: int,
) -> Seq<u8> {
    label_handshakes() + dec_bytes(hc) + label_errors() + dec_bytes(ec) + label_throughput()
        + dec_bytes(tp) + label_duration() + fixed2_bytes(elapsed_ms) + label_ratio()
        + ratio2_bytes(ratio_num, ratio_den) + seq![37u8]
}

/// Render the live progress line.
pub fn render_progress(hc: u128, ec: u128, tp: u128, elapsed_ms: i64) -> (r: Vec<u8>)
    requires
        elapsed_ms > i64::MIN,
    ensures
        r@ == progress_spec(hc as int, ec as int, tp as int, elapsed_ms as int),
{
    let mut out = label_handshakes_vec();
    let d1 = u128_to_dec(hc);
    append_bytes(&mut out, &d1);
    let l2 = label_errors_vec();
    append_bytes(&mut out, &l2);
    let d2 = u128_to_dec(ec);
    append_bytes(&mut out, &d2);
    let l3 = label_throughput_vec();
    append_bytes(&mut out, &l3);
    let d3 = u128_to_dec(tp);
    append_bytes(&mut out, &d3);
    let l4 = label_duration_vec();
    append_bytes(&mut out, &l4);
    let f = render_fixed2(elapsed_ms);
    append_bytes(&mut out, &f);
    out.push(115);
    proof {
        assert(out@ =~= progress_spec(hc as int, ec as int, tp as int, elapsed_ms as int));
    }
    out
}

/// Render the final summary line. The ratio is the success percentage as an
/// exact rational, as `CollectorState::success_ratio` yields it.
pub fn render_summary(hc: u128, ec: u128, tp: u128, elapsed_ms: i64, ratio_num: u128, ratio_den: u128) -> (r: Vec<u8>)
    requires
        elapsed_ms > i64::MIN,
        ratio_den >= 1,
        ratio_num <= u128::MAX as int / 100,
    ensures
        r@ == summary_spec(
            hc as int,
            ec as int,
            tp as int,
            elapsed_ms as int,
            ratio_num as int,
            ratio_den as int,
        ),
{
    let mut out = label_handshakes_vec();
    let d1 = u128_to_dec(hc);
    append_bytes(&mut out, &d1);
    let l2 = label_errors_vec();
    append_bytes(&mut out, &l2);
    let d2 = u128_to_dec(ec);
    append_bytes(&mut out, &d2);
    let l3 = label_throughput_vec();
    append_bytes(&mut out, &l3);
    let d3 = u128_to_dec(tp);
    append_bytes(&mut out, &d3);
    let l4 = label_duration_vec();
    append_bytes(&mut out, &l4);
    let f = render_fixed2(elapsed_ms);
    append_bytes(&mut out, &f);
    let l5 = label_ratio_vec();
    append_bytes(&mut out, &l5);
    let rr = render_ratio2(ratio_num, ratio_den);
    append_bytes(&mut out, &rr);
    out.push(37);
    proof {
        assert(out@ =~= summary_spec(
            hc as int,
            ec as int,
            tp as int,
            elapsed_ms as int,
            ratio_num as int,
            ratio_den as int,
        ));
    }
    out
}

/// Length of the run of digit bytes starting at `i`.
pub open spec fn digits_run_len(s: Seq<u8>, i: int) -> int
    decreases s.len() - i,
    when 0 <= i <= s.len()
{
    if i < s.len() && is_dec_digit(s[i]) {
        1 + digits_run_len(s, i + 1)
    } else {
        0
    }
}

/// The digit run starting at `i` ends exactly at the first non-digit (or the
/// end of the sequence).
proof fn lemma_digits_run_exact(s: Seq<u8>, i: int, j: int)
    requires
        0 <= i <= j <= s.len(),
        forall|k: int| i <= k < j ==> is_dec_digit(#[trigger] s[k]),
        j == s.len() || !is_dec_digit(s[j]),
    ensures
        digits_run_len(s, i) == j - i,
    decreases j - i,
{
    if i < j {
        lemma_digits_run_exact(s, i + 1, j);
    }
}

/// Parse the three counters back out of a summary line: the digits after
/// `"TLS handshakes: "`, after `" | errors: "` and after `" | throughput "`,
/// in that order. Yields nothing if the line does not have that shape.
pub open spec fn parse_summary_spec(s: Seq<u8>) -> Option<(int, int, int)> {
    if s.len() < 16 || s.subrange(0, 16) != label_handshakes() {
        Option::None
    } else {
        let d1 = digits_run_len(s, 16);
        let p1 = 16 + d1;
        if d1 == 0 || s.len() < p1 + 11 || s.subrange(p1, p1 + 11) != label_errors() {
            Option::None
        } else {
            let d2 = digits_run_len(s, p1 + 11);
            let p2 = p1 + 11 + d2;
            if d2 == 0 || s.len() < p2 + 14 || s.subrange(p2, p2 + 14) != label_throughput() {
                Option::None
            } else {
                let d3 = digits_run_len(s, p2 + 14);
                if d3 == 0 {
                    Option::None
                } else {
                    Option::Some(
                        (
                            dec_value(s.subrange(16, p1)),
                            dec_value(s.subrange(p1 + 11, p2)),
                            dec_value(s.subrange(p2 + 14, p2 + 14 + d3)),
                        ),
                    )
                }
            }
        }
    }
}

/// Whether the bytes at `pos` are exactly `pat`.
fn match_label(s: &[u8], pos: usize, pat: &Vec<u8>) -> (r: bool)
    requires
        pos <= s@.len(),
    ensures
        r == (pos + pat@.len() <= s@.len() && s@.subrange(
            pos as int,
            pos as int + pat@.len() as int,
        ) == pat@),
{
    let n = s.len();
    if n - pos < pat.len() {
        proof {
            assert(pos + pat@.len() > s@.len());
        }
        return false;
    }
    let ghost sub = s@.subrange(pos as int, pos as int + pat@.len() as int);
    let mut i: usize = 0;
    while i < pat.len()
        invariant
            n == s@.len(),
            pos + pat@.len() <= s@.len(),
            i <= pat@.len(),
            sub == s@.subrange(pos as int, pos as int + pat@.len() as int),
            forall|t: int| 0 <= t < i ==> sub[t] == pat@[t],
        decreases pat@.len() - i,
    {
        if s[pos + i] != pat[i] {
            proof {
                assert(sub[i as int] != pat@[i as int]);
            }
            return false;
        }
        i += 1;
    }
    proof {
        assert(sub =~= pat@);
    }
    true
}

/// Scan the run of digit bytes starting at `pos`.
fn digits_run(s: &[u8], pos: usize) -> (r: usize)
    requires
        pos <= s@.len(),
    ensures
        r as int == digits_run_len(s@, pos as int),
        pos + r <= s@.len(),
        forall|k: int| pos as int <= k < pos + r ==> is_dec_digit(#[trigger] s@[k]),
        pos + r == s@.len() || !is_dec_digit(s@[pos as int + r]),
{
    let mut j: usize = pos;
    while j < s.len() && s[j] >= 48 && s[j] <= 57
        invariant
            pos <= j <= s@.len(),
            forall|k: int| pos as int <= k < j ==> is_dec_digit(#[trigger] s@[k]),
        decreases s@.len() - j,
    {
        j += 1;
    }
    proof {
        lemma_digits_run_exact(s@, pos as int, j as int);
    }
    j - pos
}

/// Parse the three counters out of a summary line. Yields them exactly when
/// the line has the summary's shape and each counter fits a `u128`.
pub fn parse_summary(s: &[u8]) -> (r: Option<(u128, u128, u128)>)
    ensures
        ({
            let p = parse_summary_spec(s@);
            match r {
                Option::Some(v) => p == Option::Some((v.0 as int, v.1 as int, v.2 as int)),
                Option::None => p is None || (p matches Option::Some(t) && (t.0 > u128::MAX as int
                    || t.1 > u128::MAX as int || t.2 > u128::MAX as int)),
            }
        }),
{
    let n = s.len();
    let l1 = label_handshakes_vec();
    if !match_label(s, 0, &l1) {
        return Option::None;
    }
    let d1 = digits_run(s, 16);
    if d1 == 0 {
        return Option::None;
    }
    proof {
        assert(16 + d1 <= n);
    }
    let p1 = 16 + d1;
    let l2 = label_errors_vec();
    if !match_label(s, p1, &l2) {
        return Option::None;
    }
    let v1 = match parse_dec_range(s, 16, p1) {
        Option::Some(v) => v,
        Option::None => {
            return Option::None;
        },
    };
    let d2 = digits_run(s, p1 + 11);
    if d2 == 0 {
        return Option::None;
    }
    let p2 = p1 + 11 + d2;
    let l3 = label_throughput_vec();
    if !match_label(s, p2, &l3) {
        return Option::None;
    }
    let v2 = match parse_dec_range(s, p1 + 11, p2) {
        Option::Some(v) => v,
        Option::None => {
            return Option::None;
        },
    };
    let d3 = digits_run(s, p2 + 14);
    if d3 == 0 {
        return Option::None;
    }
    let v3 = match parse_dec_range(s, p2 + 14, p2 + 14 + d3) {
        Option::Some(v) => v,
        Option::None => {
            return Option::None;
        },
    };
    Option::Some((v1, v2, v3))
}

/// Parsing a rendered summary yields the counters it was rendered from,
/// whatever the elapsed time and the success ratio were.
pub proof fn lemma_summary_round_trip(
    hc: int,
    ec: int,
    tp: int,
    elapsed_ms: int,
    ratio_num: int,
    ratio_den: int,
)
    requires
        hc >= 0,
        ec >= 0,
        tp >= 0,
    ensures
        parse_summary_spec(summary_spec(hc, ec, tp, elapsed_ms, ratio_num, ratio_den))
            == Option::Some((hc, ec, tp)),
{
    let s = summary_spec(hc, ec, tp, elapsed_ms, ratio_num, ratio_den);
    let dh = dec_bytes(hc);
    let de = dec_bytes(ec);
    let dt = dec_bytes(tp);
    lemma_dec_round_trip(hc);
    lemma_dec_round_trip(ec);
    lemma_dec_round_trip(tp);
    let p1 = 16 + dh.len() as int;
    let p2 = p1 + 11 + de.len() as int;
    let p3 = p2 + 14 + dt.len() as int;
    assert(s.len() >= p3 + 16);
    assert(s.subrange(0, 16) =~= label_handshakes());
    assert(forall|k: int| 16 <= k < p1 ==> is_dec_digit(#[trigger] s[k]) && s[k] == dh[k - 16]);
    assert(s[p1] == 32 && !is_dec_digit(s[p1]));
    lemma_digits_run_exact(s, 16, p1);
    assert(s.subrange(16, p1) =~= dh);
    assert(s.subrange(p1, p1 + 11) =~= label_errors());
    assert(forall|k: int|
        p1 + 11 <= k < p2 ==> is_dec_digit(#[trigger] s[k]) && s[k] == de[k - (p1 + 11)]);
    assert(s[p2] == 32 && !is_dec_digit(s[p2]));
    lemma_digits_run_exact(s, p1 + 11, p2);
    assert(s.subrange(p1 + 11, p2) =~= de);
    assert(s.subrange(p2, p2 + 14) =~= label_throughput());
    assert(forall|k: int|
        p2 + 14 <= k < p3 ==> is_dec_digit(#[trigger] s[k]) && s[k] == dt[k - (p2 + 14)]);
    assert(s[p3] == 32 && !is_dec_digit(s[p3]));
    lemma_digits_run_exact(s, p2 + 14, p3);
    assert(s.subrange(p2 + 14, p3) =~= dt);
}

} // verus!
