//! Decimal integer text: the grammar `i64::from_str` accepts (an optional
//! sign followed by one or more digits, within range), a verified parser
//! for it, and a verified renderer that inverts the parser.

use vstd::prelude::*;
use crate::error::{value_err_matches, Error};

verus! {

/// Whether `c` is an ASCII decimal digit.
pub open spec fn is_digit(c: char) -> bool {
    0x30 <= c as u32 && c as u32 <= 0x39
}

/// The numeric value of the digit `c`.
pub open spec fn digit_val(c: char) -> int {
    c as u32 - 0x30
}

pub open spec fn all_digits(s: Seq<char>) -> bool {
    forall|i: int| 0 <= i < s.len() ==> is_digit(#[trigger] s[i])
}

/// The value of an all-digit string read in base ten.
pub open spec fn digits_val(s: Seq<char>) -> int
    decreases s.len(),
{
    if s.len() == 0 {
        0
    } else {
        digits_val(s.take(s.len() - 1)) * 10 + digit_val(s[s.len() - 1])
    }
}

/// The digit part of an integer literal: what follows a leading sign.
pub open spec fn int_body(s: Seq<char>) -> Seq<char> {
    if s.len() > 0 && (s[0] == '+' || s[0] == '-') {
        s.skip(1)
    } else {
        s
    }
}

pub open spec fn int_negative(s: Seq<char>) -> bool {
    s.len() > 0 && s[0] == '-'
}

/// Whether `s` is an integer literal: an optional `+` or `-` sign followed
/// by at least one ASCII digit and nothing else.
pub open spec fn is_int_literal(s: Seq<char>) -> bool {
    int_body(s).len() > 0 && all_digits(int_body(s))
}

/// The mathematical value of the integer literal `s`.
pub open spec fn int_literal_val(s: Seq<char>) -> int {
    if int_negative(s) {
        -digits_val(int_body(s))
    } else {
        digits_val(int_body(s))
    }
}

/// The texts that parse as an `i64`: integer literals whose value is in range.
pub open spec fn i64_accepts(s: Seq<char>) -> bool {
    is_int_literal(s) && i64::MIN <= int_literal_val(s) <= i64::MAX
}

proof fn lemma_digits_val_nonneg(s: Seq<char>)
    requires
        all_digits(s),
    ensures
        digits_val(s) >= 0,
    decreases s.len(),
{
    if s.len() > 0 {
        assert(all_digits(s.take(s.len() - 1)));
        lemma_digits_val_nonneg(s.take(s.len() - 1));
    }
}

/// Reading further digits never decreases the value.
proof fn lemma_digits_val_prefix(s: Seq<char>, k: int)
    requires
        all_digits(s),
        0 <= k <= s.len(),
    ensures
        digits_val(s) >= digits_val(s.take(k)),
    decreases s.len() - k,
{
    if k < s.len() {
        let t = s.take(k + 1);
        assert(t.take(k) =~= s.take(k));
        assert(all_digits(s.take(k)));
        lemma_digits_val_nonneg(s.take(k));
        assert(digits_val(t) == digits_val(s.take(k)) * 10 + digit_val(s[k]));
        lemma_digits_val_prefix(s, k + 1);
    } else {
        assert(s.take(k) =~= s);
    }
}

/// Parses an integer literal, exactly as `i64::from_str` reads it: an
/// optional sign, then one or more decimal digits, rejecting anything
/// else and any value outside the range of `i64`.
pub fn parse_i64(s: &str) -> (r: Result<i64, Error>)
    ensures
        i64_accepts(s@) ==> (r matches Ok(v) && v as int == int_literal_val(s@)),
        !i64_accepts(s@) ==> value_err_matches(r, s@),
{
    let n = s.unicode_len();
    let mut start: usize = 0;
    let mut neg = false;
    if n > 0 {
        let c0 = s.get_char(0);
        if c0 == '+' {
            start = 1;
        } else if c0 == '-' {
            neg = true;
            start = 1;
        }
    }
    proof {
        assert(int_body(s@) =~= s@.skip(start as int));
        assert(int_negative(s@) == neg);
    }
    if start == n {
        // no digits at all: the empty string, or a bare sign
        return Err(Error::ValueFromStr { t: s.to_owned() });
    }
    let limit: u64 = if neg {
        9223372036854775808
    } else {
        9223372036854775807
    };
    let ghost body = s@.skip(start as int);
    let mut acc: u64 = 0;
    let mut j: usize = start;
    proof {
        assert(body.subrange(0, 0) =~= Seq::<char>::empty());
    }
    while j < n
        invariant
            n == s@.len(),
            start <= j <= n,
            start < n,
            body == s@.skip(start as int),
            body == int_body(s@),
            neg == int_negative(s@),
            limit == if neg { 9223372036854775808u64 } else { 9223372036854775807u64 },
            forall|k: int| 0 <= k < j - start ==> is_digit(#[trigger] body[k]),
            acc as int == digits_val(body.take(j - start)),
            acc <= limit,
        decreases n - j,
    {
        let c = s.get_char(j);
        let u = c as u32;
        if !(0x30 <= u && u <= 0x39) {
            // a non-digit after the sign: not an integer literal
            assert(!is_digit(body[j - start]));
            return Err(Error::ValueFromStr { t: s.to_owned() });
        }
        let d: u64 = (u - 0x30) as u64;
        if acc > limit / 10 || (acc == limit / 10 && d > limit % 10) {
            // the value read so far already exceeds the range of i64,
            // and further digits can only grow it
            proof {
                let p = body.take(j - start + 1);
                assert(p.take(j - start) =~= body.take(j - start));
                assert(digits_val(p) == acc * 10 + d);
                assert(acc * 10 + d > limit) by {
                    assert(limit == (limit / 10) * 10 + limit % 10);
                };
                if i64_accepts(s@) {
                    assert(all_digits(body));
                    assert(p =~= body.take(j - start + 1));
                    lemma_digits_val_prefix(body, j - start + 1);
                    assert(digits_val(body) > limit);
                    assert(false);
                }
            }
            return Err(Error::ValueFromStr { t: s.to_owned() });
        }
        proof {
            let p = body.take(j - start + 1);
            assert(p.take(j - start) =~= body.take(j - start));
            assert(digits_val(p) == acc * 10 + d);
            assert(acc * 10 + d <= limit) by {
                assert(limit == (limit / 10) * 10 + limit % 10);
            };
        }
        acc = acc * 10 + d;
        j += 1;
    }
    proof {
        assert(body.take(n - start) =~= body);
        assert(all_digits(body));
        assert(digits_val(body) == acc as int);
        assert(is_int_literal(s@));
    }
    if neg {
        if acc == 9223372036854775808 {
            Ok(i64::MIN)
        } else {
            Ok(-(acc as i64))
        }
    } else {
        Ok(acc as i64)
    }
}

/// The decimal digits of `n`, most significant first.
pub open spec fn dec_digits(n: nat) -> Seq<char>
    decreases n,
{
    if n < 10 {
        seq![digit_char(n)]
    } else {
        dec_digits(n / 10) + seq![digit_char(n % 10)]
    }
}

/// The digit character for a value below ten.
pub open spec fn digit_char(d: nat) -> char {
    if d == 0 {
        '0'
    } else if d == 1 {
        '1'
    } else if d == 2 {
        '2'
    } else if d == 3 {
        '3'
    } else if d == 4 {
        '4'
    } else if d == 5 {
        '5'
    } else if d == 6 {
        '6'
    } else if d == 7 {
        '7'
    } else if d == 8 {
        '8'
    } else {
        '9'
    }
}

/// The decimal text of `v`: a `-` sign where negative, then its digits.
pub open spec fn spec_render_i64(v: int) -> Seq<char> {
    if v < 0 {
        seq!['-'] + dec_digits((-v) as nat)
    } else {
        dec_digits(v as nat)
    }
}

fn digit_str(d: u64) -> (r: &'static str)
    requires
        d < 10,
    ensures
        r@ =~= seq![digit_char(d as nat)],
{
    proof {
        reveal_strlit("0");
        reveal_strlit("1");
        reveal_strlit("2");
        reveal_strlit("3");
        reveal_strlit("4");
        reveal_strlit("5");
        reveal_strlit("6");
        reveal_strlit("7");
        reveal_strlit("8");
        reveal_strlit("9");
    }
    if d == 0 {
        "0"
    } else if d == 1 {
        "1"
    } else if d == 2 {
        "2"
    } else if d == 3 {
        "3"
    } else if d == 4 {
        "4"
    } else if d == 5 {
        "5"
    } else if d == 6 {
        "6"
    } else if d == 7 {
        "7"
    } else if d == 8 {
        "8"
    } else {
        "9"
    }
}

fn push_dec_digits(m: u64, out: &mut String)
    ensures
        final(out)@ == old(out)@ + dec_digits(m as nat),
    decreases m,
{
    if m < 10 {
        out.append(digit_str(m));
    } else {
        push_dec_digits(m / 10, out);
        out.append(digit_str(m % 10));
        proof {
            assert(old(out)@ + dec_digits((m / 10) as nat) + seq![digit_char((m % 10) as nat)]
                =~= old(out)@ + dec_digits(m as nat));
        }
    }
}

/// Renders `v` as decimal text, as `i64`'s display conversion writes it.
pub fn render_i64(v: i64) -> (r: String)
    ensures
        r@ == spec_render_i64(v as int),
{
    let mut out = String::new();
    if v < 0 {
        let s = "-";
        proof {
            reveal_strlit("-");
        }
        out.append(s);
        let mag: u64 = ((-(v + 1)) as u64) + 1;
        assert(mag as int == -(v as int));
        push_dec_digits(mag, &mut out);
        proof {
            assert(Seq::<char>::empty() + "-"@ + dec_digits(mag as nat)
                =~= spec_render_i64(v as int));
        }
    } else {
        push_dec_digits(v as u64, &mut out);
        proof {
            assert(Seq::<char>::empty() + dec_digits((v as u64) as nat)
                =~= spec_render_i64(v as int));
        }
    }
    out
}

proof fn lemma_dec_digits_shape(n: nat)
    ensures
        dec_digits(n).len() >= 1,
        all_digits(dec_digits(n)),
    decreases n,
{
    if n >= 10 {
        lemma_dec_digits_shape(n / 10);
        assert(is_digit(digit_char(n % 10)));
        assert(forall|i: int| 0 <= i < dec_digits(n).len()
            ==> is_digit(#[trigger] dec_digits(n)[i]));
    } else {
        assert(is_digit(digit_char(n)));
    }
}

proof fn lemma_dec_digits_val(n: nat)
    ensures
        digits_val(dec_digits(n)) == n,
    decreases n,
{
    if n < 10 {
        let s = dec_digits(n);
        assert(s.len() == 1);
        assert(s[0] == digit_char(n));
        assert(s.take(0) =~= Seq::<char>::empty());
        assert(digits_val(Seq::<char>::empty()) == 0);
        assert(digits_val(s) == digits_val(s.take(0)) * 10 + digit_val(s[0]));
        assert(digit_val(digit_char(n)) == n);
    } else {
        lemma_dec_digits_val(n / 10);
        let s = dec_digits(n);
        assert(s.take(s.len() - 1) =~= dec_digits(n / 10));
        assert(digits_val(s) == digits_val(dec_digits(n / 10)) * 10 + digit_val(
            digit_char(n % 10),
        ));
        assert(digit_val(digit_char(n % 10)) == n % 10);
    }
}

/// Rendering an integer and parsing the text back yields the integer:
/// the decimal text of every `i64` is an accepted literal with that value.
pub proof fn lemma_render_parse_round_trip(v: i64)
    ensures
        i64_accepts(spec_render_i64(v as int)),
        int_literal_val(spec_render_i64(v as int)) == v as int,
{
    let s = spec_render_i64(v as int);
    if v < 0 {
        let mag = (-(v as int)) as nat;
        lemma_dec_digits_shape(mag);
        lemma_dec_digits_val(mag);
        assert(s[0] == '-');
        assert(int_body(s) =~= dec_digits(mag));
        assert(int_negative(s));
    } else {
        let mag = (v as int) as nat;
        lemma_dec_digits_shape(mag);
        lemma_dec_digits_val(mag);
        assert(is_digit(s[0]));
        assert(s[0] != '+' && s[0] != '-');
        assert(int_body(s) =~= s);
        assert(!int_negative(s));
    }
}

} // verus!
