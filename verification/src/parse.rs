//! Text-scanning primitives with exact character-level contracts, shared by
//! the wire codec.

use vstd::prelude::*;
use vstd::string::StringExecFns;
use vstd::string::StrSliceExecFns;
use crate::primitives::plain_str;

verus! {

/// The literal `l` stands in `s` at position `i`.
pub open spec fn lit_at(s: Seq<char>, i: int, l: Seq<char>) -> bool {
    &&& 0 <= i
    &&& i + l.len() <= s.len()
    &&& s.subrange(i, i + l.len() as int) == l
}

/// A range of a text splits as its two halves.
pub proof fn lemma_join(s: Seq<char>, i: int, j: int, k: int)
    requires
        0 <= i <= j <= k <= s.len(),
    ensures
        s.subrange(i, k) == s.subrange(i, j) + s.subrange(j, k),
{
    assert(s.subrange(i, k) =~= s.subrange(i, j) + s.subrange(j, k));
}

/// A range known to equal a concatenation splits into its two parts.
pub proof fn lemma_split(s: Seq<char>, i: int, a: Seq<char>, b: Seq<char>)
    requires
        0 <= i,
        i + a.len() + b.len() <= s.len(),
        s.subrange(i, i + a.len() + b.len()) == a + b,
    ensures
        s.subrange(i, i + a.len() as int) == a,
        s.subrange(i + a.len() as int, i + a.len() + b.len()) == b,
{
    let whole = s.subrange(i, i + a.len() + b.len());
    assert forall|k: int| 0 <= k < a.len() implies s.subrange(i, i + a.len() as int)[k] == a[k] by {
        assert(whole[k] == (a + b)[k]);
    }
    assert(s.subrange(i, i + a.len() as int) =~= a);
    assert forall|k: int| 0 <= k < b.len() implies s.subrange(
        i + a.len() as int,
        i + a.len() + b.len(),
    )[k] == b[k] by {
        assert(whole[a.len() + k] == (a + b)[a.len() + k]);
    }
    assert(s.subrange(i + a.len() as int, i + a.len() + b.len()) =~= b);
}

/// Match the exact literal `lit` at position `i`.
pub fn expect_lit(s: &str, n: usize, i: usize, lit: &str) -> (r: Option<usize>)
    requires
        i <= n == s@.len(),
    ensures
        (r matches Some(j) ==> i + lit@.len() == j <= s@.len()
            && s@.subrange(i as int, j as int) == lit@),
        (r is None ==> !lit_at(s@, i as int, lit@)),
{
    let l = lit.unicode_len();
    if n - i < l {
        return None;
    }
    let mut k: usize = 0;
    while k < l
        invariant
            0 <= k <= l == lit@.len(),
            i + l <= n == s@.len(),
            forall|m: int| 0 <= m < k ==> s@[i + m] == lit@[m],
        decreases l - k,
    {
        let c = s.get_char(i + k);
        let d = lit.get_char(k);
        if c != d {
            proof {
                if lit_at(s@, i as int, lit@) {
                    assert(s@.subrange(i as int, i + lit@.len() as int)[k as int] == lit@[k as int]);
                    assert(false);
                }
            }
            return None;
        }
        k = k + 1;
    }
    proof {
        assert(s@.subrange(i as int, (i + l) as int) =~= lit@);
    }
    Some(i + l)
}

/// Where the first double quote at or after `i` stands; the text's length
/// where there is none.
pub open spec fn str_end(s: Seq<char>, i: int) -> int
    decreases s.len() - i,
{
    if 0 <= i < s.len() {
        if s[i] == '"' {
            i
        } else {
            str_end(s, i + 1)
        }
    } else {
        s.len() as int
    }
}

/// Basic bounds and shape of a quote scan.
pub proof fn lemma_str_end(s: Seq<char>, i: int)
    requires
        0 <= i <= s.len(),
    ensures
        i <= str_end(s, i) <= s.len(),
        forall|k: int| i <= k < str_end(s, i) ==> s[k] != '"',
        str_end(s, i) < s.len() ==> s[str_end(s, i)] == '"',
    decreases s.len() - i,
{
    if i < s.len() && s[i] != '"' {
        lemma_str_end(s, i + 1);
    }
}

/// A quote-free run followed by a double quote ends the scan exactly there.
pub proof fn lemma_str_end_exact(s: Seq<char>, i: int, e: int)
    requires
        0 <= i <= e < s.len(),
        forall|k: int| i <= k < e ==> s[k] != '"',
        s[e] == '"',
    ensures
        str_end(s, i) == e,
    decreases e - i,
{
    if i < e {
        lemma_str_end_exact(s, i + 1, e);
    }
}

/// Read string content from `i` up to and including the next double quote.
pub fn parse_str_rest(s: &str, n: usize, i: usize) -> (r: Option<(String, usize)>)
    requires
        i <= n == s@.len(),
    ensures
        (r matches Some((t, j)) ==> {
            let e = str_end(s@, i as int);
            &&& i <= e < s@.len()
            &&& j == e + 1
            &&& t@ == s@.subrange(i as int, e)
            &&& plain_str(t@)
            &&& s@.subrange(i as int, j as int) == t@ + seq!['"']
        }),
        (r is None ==> str_end(s@, i as int) == s@.len()),
{
    proof {
        lemma_str_end(s@, i as int);
    }
    let ghost e = str_end(s@, i as int);
    let mut j = i;
    loop
        invariant
            i <= j <= n == s@.len(),
            e == str_end(s@, i as int),
            i <= e <= s@.len(),
            forall|k: int| i <= k < e ==> s@[k] != '"',
            e < s@.len() ==> s@[e] == '"',
            j <= e,
        ensures
            j == e,
        decreases s@.len() - j,
    {
        if j == n {
            proof {
                assert(e == j);
            }
            break;
        }
        let c = s.get_char(j);
        if c == '"' {
            proof {
                if e > j {
                    assert(s@[j as int] != '"');
                    assert(false);
                }
            }
            break;
        }
        proof {
            if e == j {
                assert(s@[e] == '"');
                assert(false);
            }
        }
        j = j + 1;
    }
    if j == n {
        return None;
    }
    let content = s.substring_char(i, j).to_owned();
    proof {
        assert(s@.subrange(i as int, (j + 1) as int) =~= content@ + seq!['"']);
    }
    Some((content, j + 1))
}

} // verus!
