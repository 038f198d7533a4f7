use vstd::prelude::*;
use vstd::arithmetic::div_mod::lemma_fundamental_div_mod;

verus! {

pub open spec fn is_digit(b: u8) -> bool {
    48 <= b && b <= 57
}

pub open spec fn all_digits(s: Seq<u8>) -> bool {
    forall|i: int| 0 <= i < s.len() ==> is_digit(#[trigger] s[i])
}

/// The value of a big-endian ASCII digit string.
pub open spec fn digits_value(s: Seq<u8>) -> nat
    decreases s.len(),
{
    if s.len() == 0 {
        0
    } else {
        digits_value(s.drop_last()) * 10 + (s.last() - 48) as nat
    }
}

/// The decimal digit string of `n`, without leading zeros; zero itself
/// is the single digit `0`.
pub open spec fn dec_digits(n: nat) -> Seq<u8>
    decreases n,
{
    if n < 10 {
        seq![(n + 48) as u8]
    } else {
        dec_digits(n / 10).push((n % 10 + 48) as u8)
    }
}

pub proof fn lemma_dec_digits_props(n: nat)
    ensures
        dec_digits(n).len() >= 1,
        all_digits(dec_digits(n)),
        digits_value(dec_digits(n)) == n,
        n > 0 ==> dec_digits(n)[0] != 48,
        n < 10 ==> dec_digits(n) == seq![(n + 48) as u8],
    decreases n,
{
    if n < 10 {
        assert(digits_value(dec_digits(n)) == digits_value(
            dec_digits(n).drop_last(),
        ) * 10 + (dec_digits(n).last() - 48) as nat);
        assert(dec_digits(n).drop_last() =~= Seq::<u8>::empty());
    } else {
        lemma_dec_digits_props(n / 10);
        lemma_fundamental_div_mod(n as int, 10);
        let d = dec_digits(n);
        assert(d.drop_last() =~= dec_digits(n / 10));
        assert(d[0] == dec_digits(n / 10)[0]);
    }
}

/// Extending a digit string on the right can only grow its value.
pub proof fn lemma_digits_value_prefix_le(s: Seq<u8>, t: Seq<u8>)
    requires
        s.len() <= t.len(),
        t.subrange(0, s.len() as int) == s,
    ensures
        digits_value(s) <= digits_value(t),
    decreases t.len(),
{
    if t.len() > s.len() {
        let t1 = t.drop_last();
        assert(t1.subrange(0, s.len() as int) =~= s);
        lemma_digits_value_prefix_le(s, t1);
        assert(digits_value(t) == digits_value(t1) * 10 + (t.last() - 48) as nat);
    } else {
        assert(t =~= s);
    }
}

/// A nonempty digit string without a leading zero is the decimal
/// encoding of its value: no other string has that value.
pub proof fn lemma_digits_canonical(t: Seq<u8>)
    requires
        all_digits(t),
        t.len() >= 1,
        t[0] != 48 || t.len() == 1,
    ensures
        t == dec_digits(digits_value(t)),
    decreases t.len(),
{
    let n = digits_value(t);
    if t.len() == 1 {
        assert(t.drop_last() =~= Seq::<u8>::empty());
        assert(digits_value(t.drop_last()) == 0);
        assert(t.last() == t[0]);
        assert(n == digits_value(t.drop_last()) * 10 + (t.last() - 48) as nat);
        assert(dec_digits(n) =~= t);
    } else {
        let t1 = t.drop_last();
        let d = (t.last() - 48) as nat;
        assert(t1[0] == t[0]);
        assert(all_digits(t1));
        lemma_digits_value_positive(t1);
        lemma_digits_canonical(t1);
        assert(n == digits_value(t1) * 10 + d);
        vstd::arithmetic::div_mod::lemma_fundamental_div_mod_converse(
            n as int,
            10,
            digits_value(t1) as int,
            d as int,
        );
        assert(n / 10 == digits_value(t1) && n % 10 == d);
        assert(n >= 10);
        assert(dec_digits(n) == dec_digits(n / 10).push((n % 10 + 48) as u8));
        assert(dec_digits(n) =~= t);
    }
}

/// A digit string with a nonzero leading digit has a positive value.
proof fn lemma_digits_value_positive(t: Seq<u8>)
    requires
        all_digits(t),
        t.len() >= 1,
        t[0] != 48,
    ensures
        digits_value(t) >= 1,
    decreases t.len(),
{
    if t.len() > 1 {
        let t1 = t.drop_last();
        assert(t1[0] == t[0]);
        lemma_digits_value_positive(t1);
    }
}

/// The length of the run of digits starting at `pos`.
pub open spec fn digit_run_len(s: Seq<u8>, pos: int) -> nat
    decreases s.len() - pos,
{
    if pos < 0 || pos >= s.len() || !is_digit(s[pos]) {
        0
    } else {
        1 + digit_run_len(s, pos + 1)
    }
}

/// A digit run is delimited by the first non-digit (or the end).
pub proof fn lemma_digit_run_len_exact(s: Seq<u8>, pos: int, end: int)
    requires
        0 <= pos <= end <= s.len(),
        forall|j: int| pos <= j < end ==> is_digit(#[trigger] s[j]),
        end == s.len() || !is_digit(s[end]),
    ensures
        digit_run_len(s, pos) == end - pos,
    decreases end - pos,
{
    if pos < end {
        lemma_digit_run_len_exact(s, pos + 1, end);
    }
}

/// Everything a digit run is: its bytes are digits, it ends at the
/// first non-digit, and it stays inside the string.
pub proof fn lemma_digit_run_props(s: Seq<u8>, pos: int)
    requires
        0 <= pos <= s.len(),
    ensures
        pos + digit_run_len(s, pos) <= s.len(),
        forall|j: int| pos <= j < pos + digit_run_len(s, pos) ==> is_digit(#[trigger] s[j]),
        pos + digit_run_len(s, pos) == s.len() || !is_digit(s[pos + digit_run_len(s, pos)]),
    decreases s.len() - pos,
{
    if pos < s.len() && is_digit(s[pos]) {
        lemma_digit_run_props(s, pos + 1);
    }
}

/// Parse an unsigned decimal number at `pos`: the digit run there, read
/// as a `u64`. Nothing is parsed where the run is empty, has a leading
/// zero, or overflows.
pub open spec fn spec_parse_u64(s: Seq<u8>, pos: int) -> Option<(u64, int)> {
    let n = digit_run_len(s, pos);
    if n == 0 {
        None
    } else if s[pos] == 48 && n > 1 {
        None
    } else {
        let v = digits_value(s.subrange(pos, pos + n));
        if v <= u64::MAX {
            Some((v as u64, pos + n))
        } else {
            None
        }
    }
}

pub fn parse_u64(input: &Vec<u8>, pos: usize) -> (r: Option<(u64, usize)>)
    requires
        pos <= input@.len(),
    ensures
        match r {
            Some(vp) => spec_parse_u64(input@, pos as int) == Some((vp.0, vp.1 as int)) && vp.1
                <= input@.len(),
            None => spec_parse_u64(input@, pos as int) is None,
        },
{
    let ghost s = input@;
    let len = input.len();
    if pos == len || !(48 <= input[pos] && input[pos] <= 57) {
        return None;
    }
    if input[pos] == 48 && pos + 1 < len && 48 <= input[pos + 1] && input[pos + 1] <= 57 {
        proof {
            assert(digit_run_len(s, pos + 1) >= 1);
            assert(digit_run_len(s, pos as int) == 1 + digit_run_len(s, pos + 1));
        }
        return None;
    }
    let mut i: usize = pos;
    let mut acc: u64 = 0;
    loop
        invariant
            pos <= i <= len,
            len == s.len(),
            input@ == s,
            forall|j: int| pos <= j < i ==> is_digit(#[trigger] s[j]),
            acc == digits_value(s.subrange(pos as int, i as int)),
        ensures
            pos <= i <= len,
            forall|j: int| pos <= j < i ==> is_digit(#[trigger] s[j]),
            acc == digits_value(s.subrange(pos as int, i as int)),
            i == len || !is_digit(s[i as int]),
        decreases len - i,
    {
        if i == len || !(48 <= input[i] && input[i] <= 57) {
            break;
        }
        let d: u64 = (input[i] - 48) as u64;
        proof {
            assert(s.subrange(pos as int, i + 1).drop_last() =~= s.subrange(
                pos as int,
                i as int,
            ));
        }
        if acc > u64::MAX / 10 || (acc == u64::MAX / 10 && d > u64::MAX % 10) {
            proof {
                let run = digit_run_len(s, pos as int);
                lemma_digit_run_len_from_here(s, pos as int, i as int);
                let full = s.subrange(pos as int, pos + run);
                let pre = s.subrange(pos as int, i + 1);
                assert(pre.subrange(0, pre.len() as int) =~= pre);
                assert(full.subrange(0, pre.len() as int) =~= pre);
                lemma_digits_value_prefix_le(pre, full);
                assert(digits_value(pre) == acc * 10 + d);
                assert(acc * 10 + d > u64::MAX);
            }
            return None;
        }
        acc = acc * 10 + d;
        i = i + 1;
    }
    proof {
        lemma_digit_run_len_exact(s, pos as int, i as int);
    }
    Some((acc, i))
}

/// Within a digit run, the run extends at least one past any digit seen.
proof fn lemma_digit_run_len_from_here(s: Seq<u8>, pos: int, i: int)
    requires
        0 <= pos <= i < s.len(),
        forall|j: int| pos <= j < i ==> is_digit(#[trigger] s[j]),
        is_digit(s[i]),
    ensures
        digit_run_len(s, pos) >= i - pos + 1,
        pos + digit_run_len(s, pos) <= s.len(),
    decreases i - pos,
{
    if pos < i {
        lemma_digit_run_len_from_here(s, pos + 1, i);
    } else {
        lemma_digit_run_bounded(s, pos);
    }
}

proof fn lemma_digit_run_bounded(s: Seq<u8>, pos: int)
    requires
        0 <= pos,
    ensures
        pos <= s.len() ==> pos + digit_run_len(s, pos) <= s.len(),
    decreases s.len() - pos,
{
    if 0 <= pos && pos < s.len() && is_digit(s[pos]) {
        lemma_digit_run_bounded(s, pos + 1);
    }
}

/// Parse a signed decimal number at `pos` into an `i64`: an optional
/// minus sign, then an unsigned run; `-0` and out-of-range values are
/// rejected.
pub open spec fn spec_parse_i64(s: Seq<u8>, pos: int) -> Option<(i64, int)> {
    if 0 <= pos < s.len() && s[pos] == 45 {
        match spec_parse_u64(s, pos + 1) {
            Some((m, p)) => if 1 <= m <= 0x8000_0000_0000_0000u64 {
                Some(((-(m as int)) as i64, p))
            } else {
                None
            },
            None => None,
        }
    } else {
        match spec_parse_u64(s, pos) {
            Some((m, p)) => if m <= i64::MAX as u64 {
                Some((m as i64, p))
            } else {
                None
            },
            None => None,
        }
    }
}

pub fn parse_i64(input: &Vec<u8>, pos: usize) -> (r: Option<(i64, usize)>)
    requires
        pos <= input@.len(),
    ensures
        match r {
            Some(vp) => spec_parse_i64(input@, pos as int) == Some((vp.0, vp.1 as int)) && vp.1
                <= input@.len(),
            None => spec_parse_i64(input@, pos as int) is None,
        },
{
    if pos < input.len() && input[pos] == 45 {
        match parse_u64(input, pos + 1) {
            Some((m, p)) => {
                if 1 <= m && m <= 0x8000_0000_0000_0000u64 {
                    let v: i64 = if m == 0x8000_0000_0000_0000u64 {
                        i64::MIN
                    } else {
                        -(m as i64)
                    };
                    Some((v, p))
                } else {
                    None
                }
            },
            None => None,
        }
    } else {
        match parse_u64(input, pos) {
            Some((m, p)) => {
                if m <= i64::MAX as u64 {
                    Some((m as i64, p))
                } else {
                    None
                }
            },
            None => None,
        }
    }
}

/// The decimal encoding of a signed value: the digits of its absolute
/// value, with a minus sign where it is negative.
pub open spec fn enc_i64(v: int) -> Seq<u8> {
    if v >= 0 {
        dec_digits(v as nat)
    } else {
        seq![45u8] + dec_digits((-v) as nat)
    }
}

/// Append the decimal digits of `n`.
pub fn push_u64_digits(out: &mut Vec<u8>, n: u64)
    ensures
        final(out)@ == old(out)@ + dec_digits(n as nat),
{
    let mut tmp: Vec<u8> = Vec::new();
    let mut m: u64 = n;
    proof {
        assert(dec_digits(n as nat) =~= dec_digits(m as nat) + rev_bytes(tmp@));
    }
    loop
        invariant_except_break
            dec_digits(n as nat) == dec_digits(m as nat) + rev_bytes(tmp@),
        ensures
            dec_digits(n as nat) == rev_bytes(tmp@),
        decreases m,
    {
        let d: u8 = (m % 10) as u8 + 48;
        let m2: u64 = m / 10;
        proof {
            assert(rev_bytes(tmp@.push(d)) =~= seq![d] + rev_bytes(tmp@));
            if m2 > 0 {
                assert(m >= 10);
                assert(dec_digits(m as nat) == dec_digits((m / 10) as nat).push(
                    (m % 10 + 48) as u8,
                ));
                assert(dec_digits((m / 10) as nat).push((m % 10 + 48) as u8) =~= dec_digits(
                    (m / 10) as nat,
                ) + seq![d]);
                assert(dec_digits((m / 10) as nat) + rev_bytes(tmp@.push(d)) =~= (dec_digits(
                    (m / 10) as nat,
                ) + seq![d]) + rev_bytes(tmp@));
            } else {
                assert(m < 10);
                assert(dec_digits(m as nat) =~= seq![d]);
                assert(rev_bytes(tmp@.push(d)) =~= dec_digits(m as nat) + rev_bytes(tmp@));
            }
        }
        tmp.push(d);
        m = m2;
        if m == 0 {
            break;
        }
    }
    let ghost pre = out@;
    let k = tmp.len();
    let mut j: usize = 0;
    while j < k
        invariant
            k == tmp@.len(),
            j <= k,
            out@ == pre + rev_bytes(tmp@).subrange(0, j as int),
        decreases k - j,
    {
        proof {
            assert(rev_bytes(tmp@).subrange(0, j + 1) =~= rev_bytes(tmp@).subrange(0, j as int)
                + seq![rev_bytes(tmp@)[j as int]]);
            assert(rev_bytes(tmp@)[j as int] == tmp@[k - 1 - j]);
        }
        out.push(tmp[k - 1 - j]);
        j = j + 1;
    }
    proof {
        assert(rev_bytes(tmp@).subrange(0, k as int) =~= rev_bytes(tmp@));
    }
}

/// `s` reversed.
pub open spec fn rev_bytes(s: Seq<u8>) -> Seq<u8> {
    Seq::new(s.len(), |i: int| s[s.len() - 1 - i])
}

/// Append the decimal encoding of `v`, minus sign included.
pub fn push_i64_digits(out: &mut Vec<u8>, v: i64)
    ensures
        final(out)@ == old(out)@ + enc_i64(v as int),
{
    if v >= 0 {
        push_u64_digits(out, v as u64);
    } else {
        out.push(45);
        let mag: u64 = if v == i64::MIN {
            0x8000_0000_0000_0000u64
        } else {
            (-v) as u64
        };
        let ghost mid = out@;
        push_u64_digits(out, mag);
        proof {
            assert(out@ =~= old(out)@ + (seq![45u8] + dec_digits(mag as nat)));
        }
    }
}

/// A literal standing at `pos` is matched there.
pub proof fn lemma_match_lit_at(s: Seq<u8>, pos: int, lit: Seq<u8>)
    requires
        0 <= pos,
        pos + lit.len() <= s.len(),
        s.subrange(pos, pos + lit.len()) == lit,
    ensures
        spec_match_lit(s, pos, lit) == Some(pos + lit.len()),
{
}

/// The decimal digits of `n` standing at `pos`, delimited on the
/// right, parse back to `n`.
pub proof fn lemma_parse_u64_at(s: Seq<u8>, pos: int, n: u64)
    requires
        0 <= pos,
        pos + dec_digits(n as nat).len() <= s.len(),
        s.subrange(pos, pos + dec_digits(n as nat).len() as int) == dec_digits(n as nat),
        pos + dec_digits(n as nat).len() == s.len() || !is_digit(
            s[pos + dec_digits(n as nat).len()],
        ),
    ensures
        spec_parse_u64(s, pos) == Some((n, pos + dec_digits(n as nat).len() as int)),
{
    let dd = dec_digits(n as nat);
    let len = dd.len() as int;
    lemma_dec_digits_props(n as nat);
    assert forall|j: int| pos <= j < pos + len implies is_digit(s[j]) by {
        assert(s.subrange(pos, pos + len)[j - pos] == s[j]);
        assert(dd[j - pos] == s[j]);
    }
    lemma_digit_run_len_exact(s, pos, pos + len);
    assert(digits_value(s.subrange(pos, pos + len)) == n);
    assert(s.subrange(pos, pos + len)[0] == s[pos]);
    if n >= 10 {
        assert(s[pos] != 48);
    }
}

/// What an unsigned parse accepted was exactly the decimal encoding of
/// its value, ending at the first non-digit.
pub proof fn lemma_parse_u64_enc(s: Seq<u8>, pos: int, n: u64, p: int)
    requires
        0 <= pos <= s.len(),
        spec_parse_u64(s, pos) == Some((n, p)),
    ensures
        pos < p <= s.len(),
        s.subrange(pos, p) == dec_digits(n as nat),
        p == s.len() || !is_digit(s[p]),
{
    lemma_digit_run_props(s, pos);
    let run = digit_run_len(s, pos) as int;
    let t = s.subrange(pos, pos + run);
    assert(all_digits(t)) by {
        assert(forall|i: int| 0 <= i < run ==> t[i] == s[pos + i]);
    }
    assert(t[0] == s[pos]);
    lemma_digits_canonical(t);
}

/// What a signed parse accepted was exactly the signed decimal
/// encoding of its value, ending at the first non-digit.
pub proof fn lemma_parse_i64_enc(s: Seq<u8>, pos: int, v: i64, p: int)
    requires
        0 <= pos <= s.len(),
        spec_parse_i64(s, pos) == Some((v, p)),
    ensures
        pos < p <= s.len(),
        s.subrange(pos, p) == enc_i64(v as int),
        p == s.len() || !is_digit(s[p]),
{
    if 0 <= pos < s.len() && s[pos] == 45 {
        let m = (-(v as int)) as u64;
        assert(spec_parse_u64(s, pos + 1) == Some((m, p))) by {
            let run = digit_run_len(s, pos + 1);
            let val = digits_value(s.subrange(pos + 1, pos + 1 + run));
            assert(spec_parse_u64(s, pos + 1) matches Some(mp) && (-(mp.0 as int)) as i64 == v
                && mp.1 == p);
        }
        lemma_parse_u64_enc(s, pos + 1, m, p);
        assert(enc_i64(v as int) == seq![45u8] + dec_digits(m as nat));
        assert(s.subrange(pos, p) =~= seq![45u8] + dec_digits(m as nat)) by {
            assert(s.subrange(pos, p)[0] == s[pos]);
            assert(forall|i: int|
                1 <= i < p - pos ==> s.subrange(pos, p)[i] == #[trigger] s.subrange(
                    pos + 1,
                    p,
                )[i - 1]);
        }
    } else {
        assert(spec_parse_u64(s, pos) == Some((v as u64, p)));
        lemma_parse_u64_enc(s, pos, v as u64, p);
        assert(enc_i64(v as int) == dec_digits((v as u64) as nat));
    }
}

/// The signed decimal encoding of `v` standing at `pos`, delimited on
/// the right, parses back to `v`.
pub proof fn lemma_parse_i64_at(s: Seq<u8>, pos: int, v: i64)
    requires
        0 <= pos,
        pos + enc_i64(v as int).len() <= s.len(),
        s.subrange(pos, pos + enc_i64(v as int).len() as int) == enc_i64(v as int),
        pos + enc_i64(v as int).len() == s.len() || !is_digit(s[pos + enc_i64(v as int).len()]),
    ensures
        spec_parse_i64(s, pos) == Some((v, pos + enc_i64(v as int).len() as int)),
{
    let e = enc_i64(v as int);
    let len = e.len() as int;
    if v >= 0 {
        let dd = dec_digits(v as nat);
        lemma_dec_digits_props(v as nat);
        assert(s.subrange(pos, pos + len)[0] == s[pos]);
        assert(is_digit(dd[0]));
        assert(s[pos] != 45);
        lemma_parse_u64_at(s, pos, v as u64);
    } else {
        let mag = (-(v as int)) as nat;
        let dd = dec_digits(mag);
        assert(s.subrange(pos, pos + len)[0] == s[pos]);
        assert(s[pos] == 45);
        assert forall|k: int| 0 <= k < dd.len() implies s[pos + 1 + k] == dd[k] by {
            assert(s.subrange(pos, pos + len)[1 + k] == s[pos + 1 + k]);
            assert(e[1 + k] == dd[k]);
        }
        assert(s.subrange(pos + 1, pos + 1 + dd.len() as int) =~= dd);
        let m: u64 = mag as u64;
        assert(dec_digits(m as nat) == dd);
        lemma_parse_u64_at(s, pos + 1, m);
        assert(1 <= m <= 0x8000_0000_0000_0000u64);
        assert((-(m as int)) as i64 == v);
    }
}

/// Whether `lit` occurs in `s` at `pos`; on a match, the position just
/// past it.
pub open spec fn spec_match_lit(s: Seq<u8>, pos: int, lit: Seq<u8>) -> Option<int> {
    if 0 <= pos && pos + lit.len() <= s.len() && s.subrange(pos, pos + lit.len()) == lit {
        Some(pos + lit.len())
    } else {
        None
    }
}

pub fn match_lit(input: &Vec<u8>, pos: usize, lit: &Vec<u8>) -> (r: Option<usize>)
    requires
        pos <= input@.len(),
    ensures
        match r {
            Some(p) => spec_match_lit(input@, pos as int, lit@) == Some(p as int),
            None => spec_match_lit(input@, pos as int, lit@) is None,
        },
{
    let n = lit.len();
    let limit: usize = input.len();
    if limit - pos < n {
        return None;
    }
    let mut i: usize = 0;
    while i < n
        invariant
            i <= n,
            n == lit@.len(),
            pos + n <= limit,
            limit == input@.len(),
            forall|j: int| 0 <= j < i ==> input@[pos + j] == lit@[j],
        decreases n - i,
    {
        if input[pos + i] != lit[i] {
            proof {
                assert(input@.subrange(pos as int, pos + n)[i as int] != lit@[i as int]);
            }
            return None;
        }
        i = i + 1;
    }
    proof {
        assert(input@.subrange(pos as int, pos + n) =~= lit@);
    }
    Some(pos + n)
}

} // verus!
