//! Agent identifiers and their textual form.
//!
//! An id renders as exactly twenty decimal digits, zero padded. The width is
//! fixed so that lexicographic order on the text agrees with numeric order on
//! the id, which keeps listings deterministic.

use vstd::prelude::*;
use vstd::string::*;

verus! {

/// Opaque, unique identifier of one agent thread.
#[derive(Clone, Copy, PartialEq, Eq, Structural, Hash, Debug)]
pub struct AgentId {
    pub value: u64,
}

/// Number of digits in the textual form of an id.
pub const ID_TEXT_LEN: usize = 20;

/// The character for one decimal digit.
pub open spec fn digit_char(d: nat) -> char {
    if d == 0 {
        '0'
    } else if d == 1 {
        '1'
    } else if d == 2 {
        '2'
    } else if d == 3 {
        '3'
    } else if d == 4 {
        '4'
    } else if d == 5 {
        '5'
    } else if d == 6 {
        '6'
    } else if d == 7 {
        '7'
    } else if d == 8 {
        '8'
    } else {
        '9'
    }
}

pub open spec fn is_digit_char(c: char) -> bool {
    c == '0' || c == '1' || c == '2' || c == '3' || c == '4' || c == '5' || c == '6' || c == '7'
        || c == '8' || c == '9'
}

/// Numeric value of one decimal digit character.
pub open spec fn digit_val(c: char) -> nat {
    if c == '0' {
        0
    } else if c == '1' {
        1
    } else if c == '2' {
        2
    } else if c == '3' {
        3
    } else if c == '4' {
        4
    } else if c == '5' {
        5
    } else if c == '6' {
        6
    } else if c == '7' {
        7
    } else if c == '8' {
        8
    } else {
        9
    }
}

/// Decimal digits of `n`, most significant first, without leading zeros.
pub open spec fn decimal_digits(n: nat) -> Seq<char>
    decreases n,
{
    if n < 10 {
        seq![digit_char(n)]
    } else {
        decimal_digits(n / 10) + seq![digit_char(n % 10)]
    }
}

pub open spec fn pow10(k: nat) -> nat
    decreases k,
{
    if k == 0 {
        1
    } else {
        10 * pow10((k - 1) as nat)
    }
}

/// The fixed-width textual form of an id value: twenty decimal digits,
/// most significant first, zero padded.
pub open spec fn id_digits(v: u64) -> Seq<char> {
    Seq::new(ID_TEXT_LEN as nat, |j: int| digit_char(((v as nat) / pow10((19 - j) as nat)) % 10))
}

/// Value of a sequence of decimal digit characters, most significant first.
pub open spec fn decimal_value(s: Seq<char>) -> nat
    decreases s.len(),
{
    if s.len() == 0 {
        0
    } else {
        10 * decimal_value(s.drop_last()) + digit_val(s.last())
    }
}

pub proof fn lemma_pow10_pos(k: nat)
    ensures
        pow10(k) >= 1,
    decreases k,
{
    if k > 0 {
        lemma_pow10_pos((k - 1) as nat);
    }
}

proof fn lemma_pow10_19()
    ensures
        pow10(19) == 10000000000000000000,
{
    reveal_with_fuel(pow10, 21);
    assert(pow10(19) == 10000000000000000000);
}

/// One decimal digit as a string slice.
fn digit_str(d: usize) -> (r: &'static str)
    requires
        d < 10,
    ensures
        r@ == seq![digit_char(d as nat)],
{
    let digits = "0123456789";
    proof {
        reveal_strlit("0123456789");
    }
    let r = digits.substring_char(d, d + 1);
    proof {
        assert(r@ =~= seq![digit_char(d as nat)]);
    }
    r
}

/// Decimal text of an unsigned number, without leading zeros.
pub fn u64_text(n: u64) -> (r: String)
    ensures
        r@ == decimal_digits(n as nat),
    decreases n,
{
    if n < 10 {
        digit_str(n as usize).to_owned()
    } else {
        let mut s = u64_text(n / 10);
        s.append(digit_str((n % 10) as usize));
        proof {
            assert(s@ =~= decimal_digits(n as nat));
        }
        s
    }
}

/// Decimal text of a signed number: a minus sign, if negative, then the digits
/// of the magnitude.
pub open spec fn signed_decimal_digits(i: int) -> Seq<char> {
    if i >= 0 {
        decimal_digits(i as nat)
    } else {
        seq!['-'] + decimal_digits((-i) as nat)
    }
}

pub fn i64_text(n: i64) -> (r: String)
    ensures
        r@ == signed_decimal_digits(n as int),
{
    if n >= 0 {
        u64_text(n as u64)
    } else {
        let mag: u64 = if n == i64::MIN {
            9223372036854775808u64
        } else {
            (-n) as u64
        };
        let mut s = String::new();
        proof {
            reveal_strlit("-");
        }
        s.append("-");
        s.append(u64_text(mag).as_str());
        proof {
            assert(s@ =~= signed_decimal_digits(n as int));
        }
        s
    }
}

pub open spec fn all_digits(s: Seq<char>) -> bool {
    forall|i: int| 0 <= i < s.len() ==> is_digit_char(#[trigger] s[i])
}

/// A value is never larger than what its digits extend to.
proof fn lemma_decimal_value_prefix(s: Seq<char>, j: int)
    requires
        0 <= j <= s.len(),
    ensures
        decimal_value(s.take(j)) <= decimal_value(s),
    decreases s.len() - j,
{
    if j < s.len() {
        lemma_decimal_value_prefix(s.drop_last(), j);
        assert(s.drop_last().take(j) =~= s.take(j));
    } else {
        assert(s.take(j) =~= s);
    }
}

/// Reads an id back from its twenty-digit textual form. Nothing else is
/// accepted: a wrong length, a non-digit, or a value beyond the id space all
/// fail.
pub fn parse_agent_id(s: &str) -> (r: Option<AgentId>)
    ensures
        (r is Some) == (s@.len() == ID_TEXT_LEN as nat && all_digits(s@) && decimal_value(s@)
            <= u64::MAX as nat),
        r matches Some(id) ==> id.value as nat == decimal_value(s@),
{
    let len = s.unicode_len();
    if len != ID_TEXT_LEN {
        return None;
    }
    let mut acc: u64 = 0;
    let mut i: usize = 0;
    while i < len
        invariant
            0 <= i <= len,
            len == s@.len(),
            all_digits(s@.take(i as int)),
            acc as nat == decimal_value(s@.take(i as int)),
        decreases len - i,
    {
        let c = s.get_char(i);
        let u = c as u32;
        if !(48 <= u && u <= 57) {
            proof {
                assert(!is_digit_char(s@[i as int]));
            }
            return None;
        }
        let d: u64 = (u - 48) as u64;
        proof {
            assert(is_digit_char(s@[i as int]));
            assert(d as nat == digit_val(s@[i as int]));
        }
        let big: u128 = (acc as u128) * 10 + (d as u128);
        proof {
            assert(s@.take(i + 1).drop_last() =~= s@.take(i as int));
            assert(s@.take(i + 1).last() == s@[i as int]);
        }
        if big > u64::MAX as u128 {
            proof {
                lemma_decimal_value_prefix(s@, i + 1);
            }
            return None;
        }
        acc = big as u64;
        i += 1;
    }
    proof {
        assert(s@.take(len as int) =~= s@);
    }
    Some(AgentId { value: acc })
}

proof fn lemma_id_digits_prefix_value(v: u64, j: int)
    requires
        0 <= j <= 20,
    ensures
        decimal_value(id_digits(v).take(j)) == (v as nat) / pow10((20 - j) as nat),
    decreases j,
{
    if j == 0 {
        lemma_pow10_19();
        assert(pow10(20) == 10 * pow10(19));
        assert((v as nat) / pow10(20) == 0) by {
            assert((v as nat) < pow10(20));
            vstd::arithmetic::div_mod::lemma_basic_div(v as int, pow10(20) as int);
        }
        assert(id_digits(v).take(0) =~= Seq::<char>::empty());
    } else {
        lemma_id_digits_prefix_value(v, j - 1);
        assert(id_digits(v).take(j).drop_last() =~= id_digits(v).take(j - 1));
        assert(id_digits(v).take(j).last() == id_digits(v)[j - 1]);
        let p = pow10((20 - j) as nat);
        let q = (v as nat) / p;
        lemma_pow10_pos((20 - j) as nat);
        assert(pow10((21 - j) as nat) == 10 * p);
        assert((v as nat) / (10 * p) == q / 10) by {
            vstd::arithmetic::div_mod::lemma_div_denominator(v as int, p as int, 10);
        }
        assert(id_digits(v)[j - 1] == digit_char(((v as nat) / pow10((19 - (j - 1)) as nat)) % 10));
        assert(pow10((19 - (j - 1)) as nat) == p);
        assert(digit_val(digit_char(q % 10)) == q % 10);
        assert(decimal_value(id_digits(v).take(j)) == 10 * (q / 10) + q % 10);
    }
}

/// LAW: the textual form of an id parses back to the id itself — twenty
/// digits whose value is exactly the id's.
pub proof fn lemma_id_text_round_trip(v: u64)
    ensures
        id_digits(v).len() == ID_TEXT_LEN as nat,
        all_digits(id_digits(v)),
        decimal_value(id_digits(v)) == v as nat,
{
    assert forall|i: int| 0 <= i < id_digits(v).len() implies is_digit_char(
        #[trigger] id_digits(v)[i],
    ) by {
        let d = ((v as nat) / pow10((19 - i) as nat)) % 10;
        assert(id_digits(v)[i] == digit_char(d));
    }
    lemma_id_digits_prefix_value(v, 20);
    assert(id_digits(v).take(20) =~= id_digits(v));
    assert(pow10(0) == 1);
    assert((v as nat) / 1 == v as nat) by (nonlinear_arith);
}

/// Lexicographic order on equal-length texts: at the first position where
/// they differ, the first holds the smaller character.
pub open spec fn lex_less(a: Seq<char>, b: Seq<char>) -> bool {
    exists|i: int|
        0 <= i < a.len() && i < b.len() && (forall|j: int| 0 <= j < i ==> a[j] == b[j]) && (((
        #[trigger] a[i]) as u32) < (b[i] as u32))
}

proof fn lemma_id_text_order_at(v1: u64, v2: u64, j: int)
    requires
        v1 < v2,
        0 <= j <= 20,
        (v1 as nat) / pow10((20 - j) as nat) == (v2 as nat) / pow10((20 - j) as nat),
        forall|t: int| 0 <= t < j ==> id_digits(v1)[t] == id_digits(v2)[t],
    ensures
        lex_less(id_digits(v1), id_digits(v2)),
    decreases 20 - j,
{
    if j == 20 {
        assert(pow10(0) == 1);
        assert((v1 as nat) / 1 == v1 as nat) by (nonlinear_arith);
        assert((v2 as nat) / 1 == v2 as nat) by (nonlinear_arith);
    } else {
        let p = pow10((19 - j) as nat);
        lemma_pow10_pos((19 - j) as nat);
        let q1 = (v1 as nat) / p;
        let q2 = (v2 as nat) / p;
        assert(pow10((20 - j) as nat) == 10 * p);
        assert(q1 / 10 == (v1 as nat) / (10 * p)) by {
            vstd::arithmetic::div_mod::lemma_div_denominator(v1 as int, p as int, 10);
        }
        assert(q2 / 10 == (v2 as nat) / (10 * p)) by {
            vstd::arithmetic::div_mod::lemma_div_denominator(v2 as int, p as int, 10);
        }
        let d1 = q1 % 10;
        let d2 = q2 % 10;
        assert(id_digits(v1)[j] == digit_char(d1));
        assert(id_digits(v2)[j] == digit_char(d2));
        if d1 == d2 {
            assert(q1 == q2) by {
                vstd::arithmetic::div_mod::lemma_fundamental_div_mod(q1 as int, 10);
                vstd::arithmetic::div_mod::lemma_fundamental_div_mod(q2 as int, 10);
            }
            lemma_id_text_order_at(v1, v2, j + 1);
        } else {
            assert(q1 <= q2) by {
                vstd::arithmetic::div_mod::lemma_div_is_ordered(v1 as int, v2 as int, p as int);
            }
            assert(d1 < d2) by {
                vstd::arithmetic::div_mod::lemma_fundamental_div_mod(q1 as int, 10);
                vstd::arithmetic::div_mod::lemma_fundamental_div_mod(q2 as int, 10);
            }
            assert((digit_char(d1) as u32) < (digit_char(d2) as u32));
            assert(0 <= j < id_digits(v1).len() && j < id_digits(v2).len() && (forall|t: int|
                0 <= t < j ==> id_digits(v1)[t] == id_digits(v2)[t]) && (id_digits(v1)[j] as u32)
                < (id_digits(v2)[j] as u32));
        }
    }
}

/// LAW: the fixed-width textual form orders ids exactly as their values do,
/// so a listing sorted by id value is sorted by the lexicographic order of
/// the ids' texts.
pub proof fn lemma_id_text_order(v1: u64, v2: u64)
    requires
        v1 < v2,
    ensures
        lex_less(id_digits(v1), id_digits(v2)),
{
    lemma_pow10_19();
    assert(pow10(20) == 10 * pow10(19));
    assert((v1 as nat) / pow10(20) == 0) by {
        assert((v1 as nat) < pow10(20));
        vstd::arithmetic::div_mod::lemma_basic_div(v1 as int, pow10(20) as int);
    }
    assert((v2 as nat) / pow10(20) == 0) by {
        assert((v2 as nat) < pow10(20));
        vstd::arithmetic::div_mod::lemma_basic_div(v2 as int, pow10(20) as int);
    }
    lemma_id_text_order_at(v1, v2, 0);
}

impl AgentId {
    /// The twenty-digit textual form of this id.
    pub fn text(&self) -> (r: String)
        ensures
            r@ == id_digits(self.value),
    {
        let v = self.value;
        let mut r = String::new();
        let mut divisor: u64 = 10000000000000000000;
        proof {
            lemma_pow10_19();
        }
        let mut i: usize = 0;
        while i < 20
            invariant
                0 <= i <= 20,
                i < 20 ==> divisor == pow10((19 - i) as nat),
                r@ =~= id_digits(v).take(i as int),
            decreases 20 - i,
        {
            proof {
                lemma_pow10_pos((19 - i) as nat);
            }
            let d = ((v / divisor) % 10) as usize;
            r.append(digit_str(d));
            if i < 19 {
                proof {
                    let p = pow10((18 - i) as nat);
                    assert(divisor == 10 * p);
                    assert((10 * p) / 10 == p) by (nonlinear_arith);
                }
                divisor = divisor / 10;
            }
            proof {
                assert(r@ =~= id_digits(v).take(i + 1));
            }
            i += 1;
        }
        proof {
            assert(r@ =~= id_digits(v));
        }
        r
    }
}

} // verus!
