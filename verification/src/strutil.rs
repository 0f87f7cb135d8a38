use vstd::prelude::*;
use vstd::string::StringExecFns;

verus! {

/// The concatenation of three string slices.
pub fn concat3(a: &str, b: &str, c: &str) -> (r: String)
    ensures
        r@ == a@ + b@ + c@,
{
    let mut s = a.to_owned();
    s.append(b);
    s.append(c);
    proof {
        assert(s@ =~= a@ + b@ + c@);
    }
    s
}

/// The concatenation of five string slices.
pub fn concat5(a: &str, b: &str, c: &str, d: &str, e: &str) -> (r: String)
    ensures
        r@ == a@ + b@ + c@ + d@ + e@,
{
    let mut s = a.to_owned();
    s.append(b);
    s.append(c);
    s.append(d);
    s.append(e);
    proof {
        assert(s@ =~= a@ + b@ + c@ + d@ + e@);
    }
    s
}

/// The views of a sequence of strings.
pub open spec fn strs_deep(s: Seq<String>) -> Seq<Seq<char>>
    decreases s,
{
    if s.len() == 0 {
        Seq::empty()
    } else {
        strs_deep(s.drop_last()).push(s.last()@)
    }
}

/// The view of a sequence of strings is its pointwise view.
pub broadcast proof fn lemma_strs_deep(s: Seq<String>)
    ensures
        (#[trigger] strs_deep(s)).len() == s.len(),
        forall|i: int| 0 <= i < s.len() ==> strs_deep(s)[i] == s[i]@,
    decreases s.len(),
{
    if s.len() > 0 {
        lemma_strs_deep(s.drop_last());
    }
}

/// The items joined with the separator.
pub open spec fn sep_join(items: Seq<Seq<char>>, sep: Seq<char>) -> Seq<char>
    decreases items,
{
    if items.len() == 0 {
        Seq::empty()
    } else if items.len() == 1 {
        items[0]
    } else {
        sep_join(items.drop_last(), sep) + sep + items.last()
    }
}

/// Joins the strings with the separator.
pub fn join_strings(items: &Vec<String>, sep: &str) -> (r: String)
    ensures
        r@ == sep_join(strs_deep(items@), sep@),
{
    broadcast use lemma_strs_deep;

    let mut s = String::new();
    let mut i: usize = 0;
    while i < items.len()
        invariant
            i <= items@.len(),
            s@ == sep_join(strs_deep(items@).take(i as int), sep@),
        decreases items@.len() - i,
    {
        if i > 0 {
            s.append(sep);
        }
        s.append(items[i].as_str());
        proof {
            lemma_strs_deep(items@);
            let ds = strs_deep(items@);
            assert(ds.len() == items@.len());
            let pfx = ds.take(i as int);
            let pfx1 = ds.take((i + 1) as int);
            assert(pfx1.len() == i + 1);
            assert(pfx1.drop_last() =~= pfx);
            assert(pfx1.last() == ds[i as int]);
            assert(ds[i as int] == items@[i as int]@);
            if i > 0 {
                assert(s@ =~= sep_join(pfx, sep@) + sep@ + items@[i as int]@);
            } else {
                assert(s@ =~= items@[0]@);
            }
        }
        i += 1;
    }
    proof {
        assert(strs_deep(items@).take(items@.len() as int) =~= strs_deep(items@));
    }
    s
}

/// Appends a copy of every string of `src` to `dst`.
#[verifier::loop_isolation(false)]
pub fn extend_strings(dst: &mut Vec<String>, src: &Vec<String>)
    ensures
        strs_deep(final(dst)@) == strs_deep(old(dst)@) + strs_deep(src@),
{
    broadcast use lemma_strs_deep;

    let mut i: usize = 0;
    while i < src.len()
        invariant
            i <= src@.len(),
            dst@.len() == old(dst)@.len() + i,
            forall|j: int| 0 <= j < old(dst)@.len() ==> #[trigger] dst@[j]@ == old(dst)@[j]@,
            forall|j: int| 0 <= j < i ==> #[trigger] dst@[old(dst)@.len() + j]@ == src@[j]@,
        decreases src@.len() - i,
    {
        dst.push(src[i].clone());
        i += 1;
    }
    proof {
        let whole = strs_deep(old(dst)@) + strs_deep(src@);
        assert forall|j: int| 0 <= j < dst@.len() implies strs_deep(dst@)[j] == whole[j] by {
            if j < old(dst)@.len() {
                assert(dst@[j]@ == old(dst)@[j]@);
            } else {
                let k = j - old(dst)@.len();
                assert(dst@[old(dst)@.len() + k]@ == src@[k]@);
            }
        }
        assert(strs_deep(dst@) =~= whole);
    }
}

/// `n` placeholders, joined with `,`.
pub open spec fn q_marks(n: nat) -> Seq<char>
    decreases n,
{
    if n == 0 {
        Seq::empty()
    } else if n == 1 {
        "?"@
    } else {
        q_marks((n - 1) as nat) + ",?"@
    }
}

/// Appends `n` placeholders joined with `,`.
pub fn append_q_marks(s: &mut String, n: usize)
    ensures
        final(s)@ == old(s)@ + q_marks(n as nat),
{
    let mut i: usize = 0;
    while i < n
        invariant
            i <= n,
            s@ == old(s)@ + q_marks(i as nat),
        decreases n - i,
    {
        if i > 0 {
            s.append(",?");
            proof {
                assert(old(s)@ + q_marks(i as nat) + ",?"@ =~= old(s)@ + (q_marks(i as nat)
                    + ",?"@));
            }
        } else {
            s.append("?");
            proof {
                assert(old(s)@ + Seq::<char>::empty() + "?"@ =~= old(s)@ + "?"@);
            }
        }
        i += 1;
    }
    proof {
        if n == 0 {
            assert(old(s)@ + q_marks(0) =~= old(s)@);
        }
    }
}

/// `n` placeholders, joined with `, `.
pub open spec fn q_marks_cs(n: nat) -> Seq<char>
    decreases n,
{
    if n == 0 {
        Seq::empty()
    } else if n == 1 {
        "?"@
    } else {
        q_marks_cs((n - 1) as nat) + ", ?"@
    }
}

/// Renders `n` placeholders joined with `, `.
pub fn build_q_marks_cs(n: usize) -> (r: String)
    ensures
        r@ == q_marks_cs(n as nat),
{
    let mut s = String::new();
    let mut i: usize = 0;
    while i < n
        invariant
            i <= n,
            s@ == q_marks_cs(i as nat),
        decreases n - i,
    {
        if i > 0 {
            s.append(", ?");
            proof {
                assert(s@ =~= q_marks_cs(i as nat) + ", ?"@);
            }
        } else {
            s.append("?");
            proof {
                assert(s@ =~= "?"@);
            }
        }
        i += 1;
    }
    s
}

/// The decimal digit character of `d` (for `d < 10`).
pub open spec fn dec_digit(d: nat) -> char {
    if d == 0 {
        '0'
    } else if d == 1 {
        '1'
    } else if d == 2 {
        '2'
    } else if d == 3 {
        '3'
    } else if d == 4 {
        '4'
    } else if d == 5 {
        '5'
    } else if d == 6 {
        '6'
    } else if d == 7 {
        '7'
    } else if d == 8 {
        '8'
    } else {
        '9'
    }
}

/// The decimal representation of a natural number.
pub open spec fn dec_nat(n: nat) -> Seq<char>
    decreases n,
{
    if n < 10 {
        seq![dec_digit(n)]
    } else {
        dec_nat(n / 10).push(dec_digit(n % 10))
    }
}

/// The decimal representation of an integer: a minus sign, then the digits.
pub open spec fn dec_int(n: int) -> Seq<char> {
    if n >= 0 {
        dec_nat(n as nat)
    } else {
        seq!['-'] + dec_nat((-n) as nat)
    }
}

fn digit_str(d: u64) -> (r: &'static str)
    requires
        d < 10,
    ensures
        r@ == seq![dec_digit(d as nat)],
{
    proof {
        reveal_strlit("0");
        reveal_strlit("1");
        reveal_strlit("2");
        reveal_strlit("3");
        reveal_strlit("4");
        reveal_strlit("5");
        reveal_strlit("6");
        reveal_strlit("7");
        reveal_strlit("8");
        reveal_strlit("9");
    }
    let r = if d == 0 {
        "0"
    } else if d == 1 {
        "1"
    } else if d == 2 {
        "2"
    } else if d == 3 {
        "3"
    } else if d == 4 {
        "4"
    } else if d == 5 {
        "5"
    } else if d == 6 {
        "6"
    } else if d == 7 {
        "7"
    } else {
        "8"
    };
    let r = if d == 9 {
        "9"
    } else {
        r
    };
    proof {
        assert(r@ =~= seq![dec_digit(d as nat)]);
    }
    r
}

/// Renders `n` in decimal.
pub fn u64_to_dec(n: u64) -> (r: String)
    ensures
        r@ == dec_nat(n as nat),
    decreases n,
{
    if n < 10 {
        String::from_str(digit_str(n))
    } else {
        let mut s = u64_to_dec(n / 10);
        s.append(digit_str(n % 10));
        proof {
            assert(s@ =~= dec_nat((n / 10) as nat).push(dec_digit((n % 10) as nat)));
        }
        s
    }
}

/// Renders `n` in decimal, with a leading minus sign when negative.
pub fn i64_to_dec(n: i64) -> (r: String)
    ensures
        r@ == dec_int(n as int),
{
    if n >= 0 {
        u64_to_dec(n as u64)
    } else {
        let m: u64 = (-(n as i128)) as u64;
        let mut s = String::from_str("-");
        let digits = u64_to_dec(m);
        s.append(digits.as_str());
        proof {
            reveal_strlit("-");
            assert(s@ =~= seq!['-'] + dec_nat(m as nat));
        }
        s
    }
}

} // verus!
