//! Canonical decimal notation for the integers that appear in the wire
//! format and in query strings: a specification of the digit string of a
//! number, verified emitters that append that digit string to a `String`,
//! and a verified parser that reads it back. The parser accepts exactly
//! the canonical form (no leading zeros, no `-0`), so whatever it accepts
//! re-serializes to the same text.

use vstd::prelude::*;

verus! {

/// Whether `c` is a decimal digit.
pub open spec fn is_digit(c: char) -> bool {
    48 <= c as u32 <= 57
}

/// The numeric value of a decimal digit character.
pub open spec fn digit_val(c: char) -> int {
    c as u32 - 48
}

/// The decimal digit character for a value in `0 ..= 9`.
pub open spec fn digit_char(d: int) -> char {
    if d == 0 {
        '0'
    } else if d == 1 {
        '1'
    } else if d == 2 {
        '2'
    } else if d == 3 {
        '3'
    } else if d == 4 {
        '4'
    } else if d == 5 {
        '5'
    } else if d == 6 {
        '6'
    } else if d == 7 {
        '7'
    } else if d == 8 {
        '8'
    } else {
        '9'
    }
}

/// The canonical decimal digit string of a natural number.
pub open spec fn dec_rep(n: nat) -> Seq<char>
    decreases n,
{
    if n < 10 {
        seq![digit_char(n as int)]
    } else {
        dec_rep(n / 10) + seq![digit_char((n % 10) as int)]
    }
}

/// The canonical decimal notation of a signed number: a `-` sign followed
/// by the digit string of the magnitude, or the digit string alone.
pub open spec fn ser_int(n: int) -> Seq<char> {
    if n < 0 {
        seq!['-'] + dec_rep((-n) as nat)
    } else {
        dec_rep(n as nat)
    }
}

/// The value of a digit string, most significant digit first.
pub open spec fn seq_val(ds: Seq<char>) -> int
    decreases ds.len(),
{
    if ds.len() == 0 {
        0
    } else {
        seq_val(ds.drop_last()) * 10 + digit_val(ds.last())
    }
}

/// Whether every character of `ds` is a decimal digit.
pub open spec fn all_digits(ds: Seq<char>) -> bool {
    forall|k: int| 0 <= k < ds.len() ==> is_digit(ds[k])
}

/// Whether `ds` is the canonical digit string of some natural number:
/// non-empty, digits only, and no leading zero.
pub open spec fn canonical_digits(ds: Seq<char>) -> bool {
    &&& ds.len() >= 1
    &&& all_digits(ds)
    &&& (ds.len() > 1 ==> ds[0] != '0')
}

/// The index of the first non-digit character at or after `i`.
pub open spec fn digits_end(s: Seq<char>, i: int) -> int
    decreases s.len() - i,
{
    if 0 <= i < s.len() && is_digit(s[i]) {
        digits_end(s, i + 1)
    } else {
        i
    }
}

/// Parses a canonical unsigned decimal number starting at `i`: the value
/// and the index one past its last digit, or `None` if no canonical
/// number that fits in `u32` starts there.
pub open spec fn parse_u32_at(s: Seq<char>, i: int) -> Option<(u32, int)> {
    let j = digits_end(s, i);
    if i < j && (s[i] != '0' || j == i + 1) && seq_val(s.subrange(i, j)) <= u32::MAX {
        Some((seq_val(s.subrange(i, j)) as u32, j))
    } else {
        None
    }
}

/// Parses a canonical signed decimal number starting at `i`, rejecting
/// `-0` and values outside the `i32` range.
pub open spec fn parse_i32_at(s: Seq<char>, i: int) -> Option<(i32, int)> {
    if 0 <= i < s.len() && s[i] == '-' {
        match parse_u32_at(s, i + 1) {
            Some((m, j)) => if 1 <= m <= 2147483648u32 {
                Some(((-(m as int)) as i32, j))
            } else {
                None
            },
            None => None,
        }
    } else {
        match parse_u32_at(s, i) {
            Some((m, j)) => if m <= 2147483647u32 {
                Some((m as i32, j))
            } else {
                None
            },
            None => None,
        }
    }
}

pub proof fn lemma_digits_end(s: Seq<char>, i: int)
    requires
        0 <= i <= s.len(),
    ensures
        i <= digits_end(s, i) <= s.len(),
        forall|k: int| i <= k < digits_end(s, i) ==> is_digit(s[k]),
        digits_end(s, i) < s.len() ==> !is_digit(s[digits_end(s, i)]),
    decreases s.len() - i,
{
    if i < s.len() && is_digit(s[i]) {
        lemma_digits_end(s, i + 1);
    }
}

pub proof fn lemma_seq_val_nonneg(ds: Seq<char>)
    requires
        all_digits(ds),
    ensures
        seq_val(ds) >= 0,
    decreases ds.len(),
{
    if ds.len() > 0 {
        assert(all_digits(ds.drop_last()));
        lemma_seq_val_nonneg(ds.drop_last());
    }
}

proof fn lemma_code_48_is_zero(c: char)
    requires
        c as u32 == 48,
    ensures
        c == '0',
{
}

pub proof fn lemma_seq_val_pos(ds: Seq<char>)
    requires
        all_digits(ds),
        ds.len() >= 1,
        ds[0] != '0',
    ensures
        seq_val(ds) >= 1,
    decreases ds.len(),
{
    assert(is_digit(ds[0]));
    if ds.len() == 1 {
        assert(seq_val(ds.drop_last()) == 0);
        assert(ds.last() == ds[0]);
        let c0 = ds[0];
        if c0 as u32 == 48 {
            lemma_code_48_is_zero(c0);
            assert(c0 == '0');
        }
        assert(digit_val(ds[0]) >= 1);
    } else {
        assert(all_digits(ds.drop_last()));
        lemma_seq_val_pos(ds.drop_last());
        assert(is_digit(ds.last()));
        assert(digit_val(ds.last()) >= 0);
        assert(seq_val(ds.drop_last()) * 10 >= 10);
    }
}

proof fn lemma_digit_char_val(c: char)
    requires
        is_digit(c),
    ensures
        digit_char(digit_val(c)) == c,
        0 <= digit_val(c) <= 9,
{
}

/// The canonical digit string of the value of a canonical digit string is
/// that string itself.
pub proof fn lemma_dec_rep_of_canonical(ds: Seq<char>)
    requires
        canonical_digits(ds),
    ensures
        seq_val(ds) >= 0,
        dec_rep(seq_val(ds) as nat) == ds,
    decreases ds.len(),
{
    lemma_seq_val_nonneg(ds);
    assert(is_digit(ds[0]));
    if ds.len() == 1 {
        lemma_digit_char_val(ds[0]);
        assert(ds.last() == ds[0]);
        assert(seq_val(ds.drop_last()) == 0);
        assert(seq_val(ds) == digit_val(ds[0]));
        assert(dec_rep(seq_val(ds) as nat) =~= ds);
    } else {
        let p = ds.drop_last();
        let d = digit_val(ds.last());
        assert(all_digits(p));
        assert(canonical_digits(p));
        lemma_dec_rep_of_canonical(p);
        lemma_seq_val_pos(p);
        lemma_digit_char_val(ds.last());
        let a = seq_val(p);
        let v = seq_val(ds);
        assert(v == a * 10 + d);
        assert(v >= 10);
        assert(v / 10 == a && v % 10 == d) by (nonlinear_arith)
            requires
                a >= 1,
                0 <= d <= 9,
                v == a * 10 + d,
        ;
        assert(dec_rep(v as nat) == dec_rep(a as nat) + seq![digit_char(d)]);
        assert(dec_rep(v as nat) =~= ds);
    }
}

/// Whatever the unsigned parser accepts is the canonical digit string of
/// the value it returns.
pub proof fn lemma_parse_u32_canonical(s: Seq<char>, i: int)
    requires
        0 <= i <= s.len(),
        parse_u32_at(s, i) is Some,
    ensures
        ({
            let (v, j) = parse_u32_at(s, i)->Some_0;
            &&& i < j <= s.len()
            &&& s.subrange(i, j) == dec_rep(v as nat)
        }),
{
    let (v, j) = parse_u32_at(s, i)->Some_0;
    lemma_digits_end(s, i);
    let ds = s.subrange(i, j);
    assert(all_digits(ds));
    assert(canonical_digits(ds));
    lemma_dec_rep_of_canonical(ds);
}

/// Whatever the signed parser accepts is the canonical notation of the
/// value it returns.
pub proof fn lemma_parse_i32_canonical(s: Seq<char>, i: int)
    requires
        0 <= i <= s.len(),
        parse_i32_at(s, i) is Some,
    ensures
        ({
            let (v, j) = parse_i32_at(s, i)->Some_0;
            &&& i < j <= s.len()
            &&& s.subrange(i, j) == ser_int(v as int)
        }),
{
    let (v, j) = parse_i32_at(s, i)->Some_0;
    if 0 <= i < s.len() && s[i] == '-' {
        let (m, j2) = parse_u32_at(s, i + 1)->Some_0;
        lemma_parse_u32_canonical(s, i + 1);
        assert(s.subrange(i + 1, j) == dec_rep(m as nat));
        assert(v as int == -(m as int));
        assert(s.subrange(i, j) =~= seq!['-'] + s.subrange(i + 1, j));
        assert(ser_int(v as int) == seq!['-'] + dec_rep(m as nat));
    } else {
        lemma_parse_u32_canonical(s, i);
    }
}

/// Appends the canonical decimal digit string of `n` to `out`.
pub fn append_dec_u64(out: &mut String, n: u64)
    ensures
        final(out)@ == old(out)@ + dec_rep(n as nat),
    decreases n,
{
    if n >= 10 {
        append_dec_u64(out, n / 10);
    }
    let d = n % 10;
    if d == 0 {
        out.append("0");
    } else if d == 1 {
        out.append("1");
    } else if d == 2 {
        out.append("2");
    } else if d == 3 {
        out.append("3");
    } else if d == 4 {
        out.append("4");
    } else if d == 5 {
        out.append("5");
    } else if d == 6 {
        out.append("6");
    } else if d == 7 {
        out.append("7");
    } else if d == 8 {
        out.append("8");
    } else {
        out.append("9");
    }
    proof {
        reveal_strlit("0");
        reveal_strlit("1");
        reveal_strlit("2");
        reveal_strlit("3");
        reveal_strlit("4");
        reveal_strlit("5");
        reveal_strlit("6");
        reveal_strlit("7");
        reveal_strlit("8");
        reveal_strlit("9");
        if n >= 10 {
            assert(final(out)@ =~= old(out)@ + dec_rep((n / 10) as nat) + seq![
                digit_char((n % 10) as int),
            ]);
            assert(final(out)@ =~= old(out)@ + dec_rep(n as nat));
        } else {
            assert(final(out)@ =~= old(out)@ + seq![digit_char(n as int)]);
        }
    }
}

/// Appends the canonical decimal notation of `n` to `out`.
pub fn append_dec_i32(out: &mut String, n: i32)
    ensures
        final(out)@ == old(out)@ + ser_int(n as int),
{
    if n >= 0 {
        append_dec_u64(out, n as u64);
    } else {
        out.append("-");
        let m: u64 = (-(n as i64)) as u64;
        let ghost mid = out@;
        append_dec_u64(out, m);
        proof {
            reveal_strlit("-");
            assert(mid =~= old(out)@ + seq!['-']);
            assert(m as nat == (-(n as int)) as nat);
            assert(final(out)@ =~= old(out)@ + ser_int(n as int));
        }
    }
}

/// Reads a canonical unsigned decimal number from `s` starting at
/// character index `i`, exactly as `parse_u32_at` describes. A failure
/// carries the character position of the offending number.
pub fn scan_u32(s: &str, i: usize) -> (r: Result<(u32, usize), usize>)
    requires
        i <= s@.len(),
    ensures
        match r {
            Ok((v, j)) => parse_u32_at(s@, i as int) == Some((v, j as int)) && j <= s@.len(),
            Err(_) => parse_u32_at(s@, i as int) is None,
        },
{
    let len = s.unicode_len();
    let mut j: usize = i;
    let mut acc: u64 = 0;
    let mut too_big: bool = false;
    proof {
        assert(s@.subrange(i as int, i as int) =~= Seq::<char>::empty());
    }
    while j < len
        invariant
            i <= j <= len,
            len == s@.len(),
            digits_end(s@, i as int) == digits_end(s@, j as int),
            all_digits(s@.subrange(i as int, j as int)),
            !too_big ==> acc == seq_val(s@.subrange(i as int, j as int)) && acc <= u32::MAX,
            too_big ==> seq_val(s@.subrange(i as int, j as int)) > u32::MAX,
        ensures
            j == len || !is_digit(s@[j as int]),
        decreases len - j,
    {
        let c = s.get_char(j);
        if !(48 <= c as u32 && c as u32 <= 57) {
            break;
        }
        let d = (c as u32 - 48) as u64;
        let ghost pre = s@.subrange(i as int, j as int);
        let ghost post = s@.subrange(i as int, j as int + 1);
        proof {
            assert(post.drop_last() =~= pre);
            assert(seq_val(post) == seq_val(pre) * 10 + digit_val(c));
            lemma_seq_val_nonneg(pre);
        }
        if !too_big {
            acc = acc * 10 + d;
            if acc > 0xffff_ffff {
                too_big = true;
            }
        } else {
            proof {
                lemma_seq_val_nonneg(pre);
                assert(seq_val(post) >= seq_val(pre) * 10) by (nonlinear_arith)
                    requires
                        seq_val(post) == seq_val(pre) * 10 + digit_val(c),
                        digit_val(c) >= 0,
                ;
                assert(seq_val(pre) * 10 > u32::MAX * 10) by (nonlinear_arith)
                    requires
                        seq_val(pre) > u32::MAX,
                ;
            }
        }
        j += 1;
    }
    proof {
        assert(digits_end(s@, j as int) == j as int);
        lemma_digits_end(s@, i as int);
    }
    if j == i {
        return Err(i);
    }
    if s.get_char(i) == '0' && j > i + 1 {
        return Err(i);
    }
    if too_big {
        return Err(i);
    }
    proof {
        assert(acc <= u32::MAX);
    }
    Ok((acc as u32, j))
}

/// Reads a canonical signed decimal number from `s` starting at character
/// index `i`, exactly as `parse_i32_at` describes. A failure carries the
/// character position of the offending number.
pub fn scan_i32(s: &str, i: usize) -> (r: Result<(i32, usize), usize>)
    requires
        i <= s@.len(),
    ensures
        match r {
            Ok((v, j)) => parse_i32_at(s@, i as int) == Some((v, j as int)) && j <= s@.len(),
            Err(_) => parse_i32_at(s@, i as int) is None,
        },
{
    let len = s.unicode_len();
    if i < len && s.get_char(i) == '-' {
        match scan_u32(s, i + 1) {
            Ok((m, j)) => {
                if 1 <= m && m <= 2147483648u32 {
                    let v: i32 = (-(m as i64)) as i32;
                    Ok((v, j))
                } else {
                    Err(i)
                }
            },
            Err(p) => Err(p),
        }
    } else {
        match scan_u32(s, i) {
            Ok((m, j)) => {
                if m <= 2147483647u32 {
                    Ok((m as i32, j))
                } else {
                    Err(i)
                }
            },
            Err(p) => Err(p),
        }
    }
}

} // verus!
