//! Decimal numerals: rendering unsigned integers as strings and reading them
//! back, with exact character-level contracts.

use vstd::prelude::*;
use vstd::string::StringExecFns;
use vstd::string::StrSliceExecFns;

verus! {

/// The character of one decimal digit.
pub open spec fn digit_char(d: nat) -> char {
    if d == 0 { '0' }
    else if d == 1 { '1' }
    else if d == 2 { '2' }
    else if d == 3 { '3' }
    else if d == 4 { '4' }
    else if d == 5 { '5' }
    else if d == 6 { '6' }
    else if d == 7 { '7' }
    else if d == 8 { '8' }
    else { '9' }
}

/// The canonical decimal numeral of `n`: no sign, no leading zeros,
/// a single `0` for zero.
pub open spec fn dec_rep(n: nat) -> Seq<char>
    decreases n,
{
    if n < 10 {
        seq![digit_char(n)]
    } else {
        dec_rep(n / 10).push(digit_char(n % 10))
    }
}

/// Whether a character is a decimal digit.
pub open spec fn is_digit(c: char) -> bool {
    '0' <= c && c <= '9'
}

/// The numeric value of one digit character.
pub open spec fn digit_val(c: char) -> nat {
    (c as int - '0' as int) as nat
}

/// The numeric value of a digit string, most significant digit first.
pub open spec fn digits_val(s: Seq<char>) -> nat
    decreases s.len(),
{
    if s.len() == 0 {
        0
    } else {
        digits_val(s.drop_last()) * 10 + digit_val(s.last())
    }
}

/// Every character of a canonical numeral is a digit.
pub proof fn lemma_dec_rep_digits(n: nat)
    ensures
        dec_rep(n).len() >= 1,
        forall|i: int| 0 <= i < dec_rep(n).len() ==> is_digit(#[trigger] dec_rep(n)[i]),
    decreases n,
{
    if n < 10 {
        assert(is_digit(digit_char(n)));
    } else {
        lemma_dec_rep_digits(n / 10);
        assert(is_digit(digit_char(n % 10)));
        assert forall|i: int| 0 <= i < dec_rep(n).len() implies is_digit(#[trigger] dec_rep(n)[i]) by {
            if i < dec_rep(n / 10).len() {
                assert(dec_rep(n)[i] == dec_rep(n / 10)[i]);
            } else {
                assert(dec_rep(n)[i] == digit_char(n % 10));
            }
        }
    }
}

/// Reading back the canonical numeral of `n` yields `n`.
pub proof fn lemma_digits_val_dec_rep(n: nat)
    ensures
        digits_val(dec_rep(n)) == n,
    decreases n,
{
    if n < 10 {
        let s = dec_rep(n);
        assert(s =~= seq![digit_char(n)]);
        assert(s.drop_last() =~= Seq::<char>::empty());
        assert(digits_val(s.drop_last()) == 0);
        assert(s.last() == digit_char(n));
        assert(digits_val(s) == digit_val(digit_char(n)));
        assert(digit_val(digit_char(n)) == n);
    } else {
        lemma_digits_val_dec_rep(n / 10);
        assert(dec_rep(n).drop_last() =~= dec_rep(n / 10));
        assert(dec_rep(n).last() == digit_char(n % 10));
        assert(digit_val(digit_char(n % 10)) == n % 10);
        assert(digits_val(dec_rep(n)) == (n / 10) * 10 + n % 10);
        assert((n / 10) * 10 + n % 10 == n) by (nonlinear_arith);
    }
}

/// One digit character as a string slice.
pub fn digit_str(d: u64) -> (r: &'static str)
    requires
        d < 10,
    ensures
        r@ =~= seq![digit_char(d as nat)],
{
    proof {
        reveal_strlit("0");
        reveal_strlit("1");
        reveal_strlit("2");
        reveal_strlit("3");
        reveal_strlit("4");
        reveal_strlit("5");
        reveal_strlit("6");
        reveal_strlit("7");
        reveal_strlit("8");
        reveal_strlit("9");
    }
    match d {
        0 => "0",
        1 => "1",
        2 => "2",
        3 => "3",
        4 => "4",
        5 => "5",
        6 => "6",
        7 => "7",
        8 => "8",
        _ => "9",
    }
}

/// Render `n` as its canonical decimal numeral.
pub fn u64_to_string(n: u64) -> (r: String)
    ensures
        r@ == dec_rep(n as nat),
    decreases n,
{
    if n < 10 {
        let r = digit_str(n).to_owned();
        proof {
            assert(r@ =~= dec_rep(n as nat));
        }
        r
    } else {
        let mut r = u64_to_string(n / 10);
        r.append(digit_str(n % 10));
        proof {
            assert(r@ =~= dec_rep(n as nat));
        }
        r
    }
}

/// Where the run of digits beginning at `i` ends.
pub open spec fn digits_end(s: Seq<char>, i: int) -> int
    decreases s.len() - i,
{
    if 0 <= i < s.len() && is_digit(s[i]) {
        digits_end(s, i + 1)
    } else {
        i
    }
}

/// Basic bounds and shape of a digit run.
pub proof fn lemma_digits_end(s: Seq<char>, i: int)
    requires
        0 <= i <= s.len(),
    ensures
        i <= digits_end(s, i) <= s.len(),
        forall|k: int| i <= k < digits_end(s, i) ==> is_digit(s[k]),
        digits_end(s, i) < s.len() ==> !is_digit(s[digits_end(s, i)]),
    decreases s.len() - i,
{
    if i < s.len() && is_digit(s[i]) {
        lemma_digits_end(s, i + 1);
    }
}

/// A run of digits followed by a non-digit (or the end of the text) is
/// exactly where the digit run ends.
pub proof fn lemma_digits_end_exact(s: Seq<char>, i: int, e: int)
    requires
        0 <= i <= e <= s.len(),
        forall|k: int| i <= k < e ==> is_digit(s[k]),
        e < s.len() ==> !is_digit(s[e]),
    ensures
        digits_end(s, i) == e,
    decreases e - i,
{
    if i < e {
        lemma_digits_end_exact(s, i + 1, e);
    }
}

/// Appending one digit multiplies the value by ten and adds the digit.
pub proof fn lemma_digits_val_snoc(s: Seq<char>, i: int, j: int)
    requires
        0 <= i <= j < s.len(),
    ensures
        digits_val(s.subrange(i, j + 1)) == digits_val(s.subrange(i, j)) * 10 + digit_val(s[j]),
{
    assert(s.subrange(i, j + 1).drop_last() =~= s.subrange(i, j));
    assert(s.subrange(i, j + 1).last() == s[j]);
}

/// The value of a digit run never shrinks as the run extends.
pub proof fn lemma_digits_val_prefix_le(s: Seq<char>, i: int, j: int, e: int)
    requires
        0 <= i <= j <= e <= s.len(),
    ensures
        digits_val(s.subrange(i, j)) <= digits_val(s.subrange(i, e)),
    decreases e - j,
{
    if j < e {
        lemma_digits_val_snoc(s, i, j);
        assert(digits_val(s.subrange(i, j)) <= digits_val(s.subrange(i, j)) * 10) by (nonlinear_arith);
        lemma_digits_val_prefix_le(s, i, j + 1, e);
    }
}

/// A digit character stands for its own value.
pub proof fn lemma_digit_char_val(c: char)
    requires
        is_digit(c),
    ensures
        digit_char(digit_val(c)) == c,
        digit_val(c) < 10,
{
}

/// A positive number's numeral does not begin with a zero.
pub proof fn lemma_dec_rep_head(n: nat)
    ensures
        n > 0 ==> dec_rep(n)[0] != '0',
        n == 0 ==> dec_rep(n)[0] == '0',
    decreases n,
{
    if n >= 10 {
        lemma_dec_rep_head(n / 10);
        assert(dec_rep(n)[0] == dec_rep(n / 10)[0]);
    }
}

/// A digit string without a leading zero is the canonical numeral of its
/// own value.
pub proof fn lemma_digits_canonical(s: Seq<char>)
    requires
        s.len() >= 1,
        forall|k: int| 0 <= k < s.len() ==> is_digit(#[trigger] s[k]),
        s[0] != '0' || s.len() == 1,
    ensures
        s == dec_rep(digits_val(s)),
    decreases s.len(),
{
    if s.len() == 1 {
        lemma_digit_char_val(s[0]);
        assert(s.drop_last() =~= Seq::<char>::empty());
        assert(digits_val(Seq::<char>::empty()) == 0);
        assert(digits_val(s) == digit_val(s[0]));
        assert(s =~= seq![digit_char(digits_val(s))]);
    } else {
        let p = s.drop_last();
        let d = digit_val(s.last());
        assert(forall|k: int| 0 <= k < p.len() ==> is_digit(#[trigger] p[k]));
        lemma_digits_canonical(p);
        // the prefix is positive, so the whole value is at least ten
        lemma_digit_char_val(p[0]);
        assert(digit_val(p[0]) >= 1);
        assert(digits_val(p.subrange(0, 1)) <= digits_val(p.subrange(0, p.len() as int))) by {
            lemma_digits_val_prefix_le(p, 0, 1, p.len() as int);
        }
        assert(p.subrange(0, 1) =~= seq![p[0]]);
        assert(seq![p[0]].drop_last() =~= Seq::<char>::empty());
        assert(digits_val(Seq::<char>::empty()) == 0);
        assert(digits_val(seq![p[0]]) == digit_val(p[0]));
        assert(p.subrange(0, p.len() as int) =~= p);
        assert(digits_val(p) >= 1);
        let v = digits_val(s);
        assert(v == digits_val(p) * 10 + d);
        assert(v >= 10 && v / 10 == digits_val(p) && v % 10 == d) by (nonlinear_arith)
            requires
                v == digits_val(p) * 10 + d,
                digits_val(p) >= 1,
                d < 10,
        ;
        lemma_digit_char_val(s.last());
        assert(dec_rep(v) == dec_rep(digits_val(p)).push(digit_char(d)));
        assert(s =~= p.push(s.last()));
    }
}

/// The numeral of `v` stands in `s` at position `i` with no digit directly
/// after it, so a scan at `i` reads back exactly `v`.
pub open spec fn dec_at(s: Seq<char>, i: int, v: u64) -> bool {
    &&& 0 <= i
    &&& i + dec_rep(v as nat).len() <= s.len()
    &&& s.subrange(i, i + dec_rep(v as nat).len() as int) == dec_rep(v as nat)
    &&& (i + dec_rep(v as nat).len() < s.len() ==> !is_digit(s[i + dec_rep(v as nat).len()]))
}

/// Parse the canonical decimal numeral beginning at `i`.
///
/// Returns the value and the position after the numeral; `None` where no
/// digit stands at `i`, the run has a leading zero, or its value exceeds
/// `u64::MAX`.
pub fn parse_u64(s: &str, n: usize, i: usize) -> (r: Option<(u64, usize)>)
    requires
        i <= n == s@.len(),
    ensures
        (r matches Some((v, j)) ==> i < j <= s@.len()
            && s@.subrange(i as int, j as int) == dec_rep(v as nat)
            && j == digits_end(s@, i as int)),
        (forall|v: u64| dec_at(s@, i as int, v) ==>
            (r matches Some((w, j)) && w == v && j == i + dec_rep(v as nat).len())),
{
    proof {
        lemma_digits_end(s@, i as int);
    }
    let ghost e = digits_end(s@, i as int);
    let mut j = i;
    let mut v: u64 = 0;
    loop
        invariant
            i <= j <= n == s@.len(),
            e == digits_end(s@, i as int),
            i <= e <= s@.len(),
            forall|k: int| i <= k < e ==> is_digit(s@[k]),
            e < s@.len() ==> !is_digit(s@[e]),
            j <= e,
            v == digits_val(s@.subrange(i as int, j as int)),
        ensures
            j == e,
            v == digits_val(s@.subrange(i as int, j as int)),
        decreases s@.len() - j,
    {
        if j == n {
            proof {
                assert(e == j);
            }
            break;
        }
        let c = s.get_char(j);
        if !('0' <= c && c <= '9') {
            proof {
                if e > j {
                    assert(is_digit(s@[j as int]));
                    assert(false);
                }
            }
            break;
        }
        proof {
            assert(is_digit(s@[j as int]));
            if e == j {
                assert(!is_digit(s@[e]));
                assert(false);
            }
        }
        let d: u64 = (c as u32 as u64) - 48;
        proof {
            assert(digit_val(s@[j as int]) == d);
        }
        if v > (u64::MAX - d) / 10 {
            proof {
                lemma_digits_val_snoc(s@, i as int, j as int);
                assert(digits_val(s@.subrange(i as int, j as int + 1)) > u64::MAX) by (nonlinear_arith)
                    requires
                        digits_val(s@.subrange(i as int, j as int + 1))
                            == digits_val(s@.subrange(i as int, j as int)) * 10 + digit_val(s@[j as int]),
                        digits_val(s@.subrange(i as int, j as int)) == v,
                        digit_val(s@[j as int]) == d,
                        v > (u64::MAX - d) / 10,
                        d < 10,
                ;
                lemma_digits_val_prefix_le(s@, i as int, j as int + 1, e);
                assert forall|w: u64| !dec_at(s@, i as int, w) by {
                    if dec_at(s@, i as int, w) {
                        lemma_parse_dec_rep(s@, i as int, w);
                        assert(digits_val(s@.subrange(i as int, e)) == w);
                        assert(false);
                    }
                }
            }
            return None;
        }
        proof {
            lemma_digits_val_snoc(s@, i as int, j as int);
            assert(v * 10 + d <= u64::MAX) by (nonlinear_arith)
                requires
                    v <= (u64::MAX - d) / 10,
                    d < 10,
            ;
        }
        v = v * 10 + d;
        j = j + 1;
    }
    if j == i {
        proof {
            assert forall|w: u64| !dec_at(s@, i as int, w) by {
                if dec_at(s@, i as int, w) {
                    lemma_dec_rep_digits(w as nat);
                    assert(s@[i as int] == dec_rep(w as nat)[0]);
                    assert(is_digit(s@[i as int]));
                    assert(false);
                }
            }
        }
        return None;
    }
    let c0 = s.get_char(i);
    if c0 == '0' && j > i + 1 {
        proof {
            assert forall|w: u64| !dec_at(s@, i as int, w) by {
                if dec_at(s@, i as int, w) {
                    lemma_parse_dec_rep(s@, i as int, w);
                    lemma_dec_rep_head(w as nat);
                    assert(j == i + dec_rep(w as nat).len());
                    assert(s@[i as int] == dec_rep(w as nat)[0]);
                    assert(false);
                }
            }
        }
        return None;
    }
    proof {
        lemma_digits_canonical(s@.subrange(i as int, j as int));
        assert(s@.subrange(i as int, j as int) == dec_rep(v as nat));
        assert forall|w: u64| dec_at(s@, i as int, w) implies
            w == v && j == i + dec_rep(w as nat).len() by {
            lemma_parse_dec_rep(s@, i as int, w);
            assert(j == i + dec_rep(w as nat).len());
            assert(digits_val(s@.subrange(i as int, j as int)) == w);
        }
    }
    Some((v, j))
}

/// Reading the canonical numeral of `n` embedded in a longer text consumes
/// exactly that numeral and yields `n`, provided no digit follows it.
pub proof fn lemma_parse_dec_rep(s: Seq<char>, i: int, n: u64)
    requires
        0 <= i,
        i + dec_rep(n as nat).len() <= s.len(),
        s.subrange(i, i + dec_rep(n as nat).len() as int) == dec_rep(n as nat),
        i + dec_rep(n as nat).len() < s.len() ==> !is_digit(s[i + dec_rep(n as nat).len()]),
    ensures
        digits_end(s, i) == i + dec_rep(n as nat).len(),
        digits_val(s.subrange(i, i + dec_rep(n as nat).len() as int)) == n,
{
    let e = i + dec_rep(n as nat).len() as int;
    lemma_dec_rep_digits(n as nat);
    assert forall|k: int| i <= k < e implies is_digit(s[k]) by {
        assert(s[k] == dec_rep(n as nat)[k - i]);
    }
    lemma_digits_end_exact(s, i, e);
    lemma_digits_val_dec_rep(n as nat);
}

} // verus!
