use vstd::prelude::*;

verus! {

/// The integer that a little-endian byte string denotes.
pub open spec fn le_value(s: Seq<u8>) -> nat
    decreases s.len(),
{
    if s.len() == 0 {
        0
    } else {
        s[0] as nat + 256 * le_value(s.subrange(1, s.len() as int))
    }
}

pub open spec fn is_digit(c: char) -> bool {
    '0' <= c && c <= '9'
}

pub open spec fn digit_value(c: char) -> nat {
    (c as nat - '0' as nat) as nat
}

pub open spec fn digit_char(d: nat) -> char {
    (d + '0' as nat) as char
}

/// A decimal numeral in canonical form: digits only, not empty, and no
/// leading zero unless the numeral is `0` itself.
pub open spec fn is_numeral(s: Seq<char>) -> bool {
    &&& s.len() > 0
    &&& forall|i: int| 0 <= i < s.len() ==> is_digit(#[trigger] s[i])
    &&& (s.len() == 1 || s[0] != '0')
}

/// The integer that a string of decimal digits denotes.
pub open spec fn numeral_value(s: Seq<char>) -> nat
    decreases s.len(),
{
    if s.len() == 0 {
        0
    } else {
        numeral_value(s.drop_last()) * 10 + digit_value(s.last())
    }
}

/// The decimal digits of `n` without leading zeros (empty for zero).
pub open spec fn significant_digits(n: nat) -> Seq<char>
    decreases n,
{
    if n == 0 {
        Seq::empty()
    } else {
        significant_digits(n / 10).push(digit_char(n % 10))
    }
}

/// The canonical decimal numeral of `n`.
pub open spec fn numeral_of(n: nat) -> Seq<char> {
    if n == 0 {
        seq!['0']
    } else {
        significant_digits(n)
    }
}

proof fn lemma_significant_digits(n: nat)
    ensures
        numeral_value(significant_digits(n)) == n,
        forall|i: int|
            0 <= i < significant_digits(n).len() ==> is_digit(#[trigger] significant_digits(n)[i]),
        n > 0 ==> significant_digits(n).len() > 0 && significant_digits(n)[0] != '0',
    decreases n,
{
    if n > 0 {
        lemma_significant_digits(n / 10);
        let s = significant_digits(n);
        assert(s.drop_last() =~= significant_digits(n / 10));
        if n / 10 == 0 {
            assert(s[0] == digit_char(n % 10));
        } else {
            assert(s[0] == significant_digits(n / 10)[0]);
        }
    }
}

/// The canonical numeral of `n` is a numeral and denotes `n`.
pub proof fn lemma_numeral_of(n: nat)
    ensures
        is_numeral(numeral_of(n)),
        numeral_value(numeral_of(n)) == n,
{
    lemma_significant_digits(n);
    if n == 0 {
        assert(numeral_of(n).drop_last() =~= Seq::<char>::empty());
    }
}

proof fn lemma_leading_digit_positive(s: Seq<char>)
    requires
        s.len() > 0,
        forall|i: int| 0 <= i < s.len() ==> is_digit(#[trigger] s[i]),
        s[0] != '0',
    ensures
        numeral_value(s) > 0,
    decreases s.len(),
{
    if s.len() > 1 {
        let t = s.drop_last();
        assert(t[0] == s[0]);
        assert forall|i: int| 0 <= i < t.len() implies is_digit(#[trigger] t[i]) by {
            assert(t[i] == s[i]);
        }
        lemma_leading_digit_positive(t);
    }
}

/// Decimal round trip: a canonical numeral is the numeral of its own value.
pub proof fn lemma_numeral_round_trip(s: Seq<char>)
    requires
        is_numeral(s),
    ensures
        numeral_of(numeral_value(s)) == s,
    decreases s.len(),
{
    let n = numeral_value(s);
    let c = s.last();
    let t = s.drop_last();
    assert(is_digit(s[s.len() - 1]));
    if s.len() == 1 {
        assert(t =~= Seq::<char>::empty());
        if n == 0 {
            assert(s =~= seq!['0']);
        } else {
            assert(significant_digits(n / 10) =~= Seq::<char>::empty());
            assert(s =~= significant_digits(n));
        }
    } else {
        assert forall|i: int| 0 <= i < t.len() implies is_digit(#[trigger] t[i]) by {
            assert(t[i] == s[i]);
        }
        assert(t[0] == s[0]);
        lemma_leading_digit_positive(t);
        lemma_numeral_round_trip(t);
        let v = numeral_value(t);
        assert(n / 10 == v && n % 10 == digit_value(c)) by (nonlinear_arith)
            requires
                n == v * 10 + digit_value(c),
                digit_value(c) < 10,
        ;
        assert(s =~= significant_digits(n));
    }
}


proof fn lemma_le_value_unfold(s: Seq<u8>, i: int)
    requires
        0 <= i < s.len(),
    ensures
        le_value(s.subrange(i, s.len() as int)) == s[i] as nat + 256 * le_value(
            s.subrange(i + 1, s.len() as int),
        ),
{
    let t = s.subrange(i, s.len() as int);
    assert(t.subrange(1, t.len() as int) =~= s.subrange(i + 1, s.len() as int));
}

pub proof fn lemma_le_value_zero(s: Seq<u8>)
    ensures
        (le_value(s) == 0) == (forall|j: int| 0 <= j < s.len() ==> s[j] == 0),
    decreases s.len(),
{
    if s.len() > 0 {
        let t = s.subrange(1, s.len() as int);
        lemma_le_value_zero(t);
        if le_value(s) == 0 {
            assert forall|j: int| 0 <= j < s.len() implies s[j] == 0 by {
                if j > 0 {
                    assert(t[j - 1] == s[j]);
                }
            }
        }
        if forall|j: int| 0 <= j < s.len() ==> s[j] == 0 {
            assert forall|j: int| 0 <= j < t.len() implies t[j] == 0 by {
                assert(t[j] == s[j + 1]);
            }
        }
    }
}

/// Whether a little-endian number is zero.
fn is_zero(s: &Vec<u8>) -> (r: bool)
    ensures
        r == (le_value(s@) == 0),
{
    proof {
        lemma_le_value_zero(s@);
    }
    let mut i: usize = 0;
    while i < s.len()
        invariant
            i <= s@.len(),
            forall|j: int| 0 <= j < i ==> s@[j] == 0,
        decreases s@.len() - i,
    {
        if s[i] != 0 {
            proof {
                lemma_le_value_zero(s@);
                assert(!(forall|j: int| 0 <= j < s@.len() ==> s@[j] == 0));
                assert(le_value(s@) != 0);
            }
            return false;
        }
        i = i + 1;
    }
    true
}

/// Divides a little-endian number by ten: the quotient, of the same length,
/// and the remainder.
fn divmod10(s: &Vec<u8>) -> (r: (Vec<u8>, u8))
    ensures
        r.0@.len() == s@.len(),
        le_value(r.0@) * 10 + r.1 == le_value(s@),
        r.1 < 10,
{
    let n = s.len();
    let mut q: Vec<u8> = s.clone();
    let mut rem: u8 = 0;
    let mut i: usize = n;
    assert(q@.subrange(n as int, n as int) =~= Seq::<u8>::empty());
    assert(s@.subrange(n as int, n as int) =~= Seq::<u8>::empty());
    while i > 0
        invariant
            i <= n == s@.len() == q@.len(),
            rem < 10,
            le_value(q@.subrange(i as int, n as int)) * 10 + rem == le_value(
                s@.subrange(i as int, n as int),
            ),
        decreases i,
    {
        i = i - 1;
        let cur: u16 = rem as u16 * 256 + s[i] as u16;
        let ghost old_q = q@;
        let ghost old_rem = rem;
        q.set(i, (cur / 10) as u8);
        rem = (cur % 10) as u8;
        proof {
            lemma_le_value_unfold(s@, i as int);
            lemma_le_value_unfold(q@, i as int);
            assert(q@.subrange(i + 1, n as int) =~= old_q.subrange(i + 1, n as int));
            let a = le_value(old_q.subrange(i + 1, n as int));
            let b = le_value(s@.subrange(i + 1, n as int));
            let c = cur as nat;
            assert((c / 10 + 256 * a) * 10 + c % 10 == s@[i as int] as nat + 256 * b)
                by (nonlinear_arith)
                requires
                    a * 10 + old_rem == b,
                    c == old_rem * 256 + s@[i as int] as nat,
            ;
        }
    }
    assert(q@.subrange(0, n as int) =~= q@);
    assert(s@.subrange(0, n as int) =~= s@);
    (q, rem)
}

/// The characters of a sequence of decimal digit values.
pub open spec fn digits_text(d: Seq<u8>) -> Seq<char> {
    d.map_values(|x: u8| digit_char(x as nat))
}

fn digit_str(d: u8) -> (r: &'static str)
    requires
        d < 10,
    ensures
        r@ == seq![digit_char(d as nat)],
{
    proof {
        reveal_strlit("0");
        reveal_strlit("1");
        reveal_strlit("2");
        reveal_strlit("3");
        reveal_strlit("4");
        reveal_strlit("5");
        reveal_strlit("6");
        reveal_strlit("7");
        reveal_strlit("8");
        reveal_strlit("9");
    }
    match d {
        0 => "0",
        1 => "1",
        2 => "2",
        3 => "3",
        4 => "4",
        5 => "5",
        6 => "6",
        7 => "7",
        8 => "8",
        _ => "9",
    }
}

/// The canonical decimal numeral of a little-endian number.
pub fn decimal_of_le_bytes(s: &Vec<u8>) -> (r: String)
    ensures
        r@ == numeral_of(le_value(s@)),
{
    let mut cur: Vec<u8> = s.clone();
    let mut digits: Vec<u8> = Vec::new();
    while !is_zero(&cur)
        invariant
            significant_digits(le_value(s@)) == significant_digits(le_value(cur@)) + digits_text(
                digits@,
            ),
            forall|j: int| 0 <= j < digits@.len() ==> digits@[j] < 10,
        decreases le_value(cur@),
    {
        let (q, d) = divmod10(&cur);
        let ghost v = le_value(cur@);
        let ghost old_digits = digits@;
        digits.insert(0, d);
        proof {
            let w = le_value(q@);
            assert(v / 10 == w && v % 10 == d as nat) by (nonlinear_arith)
                requires
                    w * 10 + d as nat == v,
                    d < 10,
            ;
            assert(digits_text(digits@) =~= seq![digit_char(d as nat)] + digits_text(old_digits));
            assert(significant_digits(v) == significant_digits(w).push(digit_char(d as nat)));
            assert(significant_digits(le_value(s@)) =~= significant_digits(w) + digits_text(
                digits@,
            ));
        }
        cur = q;
    }
    proof {
        lemma_significant_digits(le_value(s@));
        assert(significant_digits(le_value(s@)) =~= digits_text(digits@));
    }
    let mut out = String::new();
    if digits.len() == 0 {
        out.append("0");
        proof {
            reveal_strlit("0");
        }
    }
    let ghost lead = out@;
    let mut i: usize = 0;
    while i < digits.len()
        invariant
            i <= digits@.len(),
            forall|j: int| 0 <= j < digits@.len() ==> digits@[j] < 10,
            out@ == lead + digits_text(digits@.subrange(0, i as int)),
        decreases digits@.len() - i,
    {
        let ghost before = out@;
        out.append(digit_str(digits[i]));
        i = i + 1;
        assert(digits_text(digits@.subrange(0, i as int)) =~= digits_text(
            digits@.subrange(0, i - 1),
        ).push(digit_char(digits@[i - 1] as nat)));
    }
    assert(digits@.subrange(0, digits@.len() as int) =~= digits@);
    if digits.len() == 0 {
        assert(out@ =~= seq!['0']);
    }
    out
}


/// A zero byte on top does not change a little-endian number.
pub proof fn lemma_le_value_push_zero(s: Seq<u8>)
    ensures
        le_value(s.push(0)) == le_value(s),
    decreases s.len(),
{
    if s.len() > 0 {
        let t = s.subrange(1, s.len() as int);
        lemma_le_value_push_zero(t);
        let u = s.push(0);
        assert(u.subrange(1, u.len() as int) =~= t.push(0));
        assert(u[0] == s[0]);
    } else {
        let u = s.push(0);
        assert(u.subrange(1, u.len() as int) =~= Seq::<u8>::empty());
        assert(le_value(Seq::<u8>::empty()) == 0);
        assert(le_value(s) == 0);
    }
}

} // verus!
