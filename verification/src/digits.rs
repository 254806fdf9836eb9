//! Decimal digit strings.
//!
//! The spec-level correspondence between natural numbers and their decimal
//! character spellings, together with executable parsing and formatting
//! proved against it. Both the type formatter (for the bounded-text length)
//! and the identifier generator spell numbers this way.

use vstd::prelude::*;
use vstd::string::StrSliceExecFns;
use vstd::string::StringExecFns;

verus! {

/// A decimal digit character.
pub open spec fn is_digit_char(c: char) -> bool {
    '0' <= c && c <= '9'
}

/// The numeric value of one digit character.
pub open spec fn digit_val(c: char) -> nat {
    ((c as int) - ('0' as int)) as nat
}

/// The digit character for one value below ten.
pub open spec fn digit_char(d: nat) -> char {
    if d == 0 {
        '0'
    } else if d == 1 {
        '1'
    } else if d == 2 {
        '2'
    } else if d == 3 {
        '3'
    } else if d == 4 {
        '4'
    } else if d == 5 {
        '5'
    } else if d == 6 {
        '6'
    } else if d == 7 {
        '7'
    } else if d == 8 {
        '8'
    } else {
        '9'
    }
}

/// Every character of the sequence is a decimal digit.
pub open spec fn all_digits(s: Seq<char>) -> bool {
    forall|i: int| 0 <= i < s.len() ==> is_digit_char(#[trigger] s[i])
}

/// The value of a digit sequence read as a base-ten numeral.
pub open spec fn digits_val(s: Seq<char>) -> nat
    decreases s.len(),
{
    if s.len() == 0 {
        0
    } else {
        digits_val(s.drop_last()) * 10 + digit_val(s.last())
    }
}

/// The canonical decimal spelling of a natural number.
pub open spec fn dec_digits(n: nat) -> Seq<char>
    decreases n,
{
    if n < 10 {
        seq![digit_char(n)]
    } else {
        dec_digits(n / 10) + seq![digit_char(n % 10)]
    }
}

/// A digit string that is the canonical spelling of its value: nonempty and
/// without a superfluous leading zero.
pub open spec fn canonical_digits(s: Seq<char>) -> bool {
    &&& s.len() > 0
    &&& all_digits(s)
    &&& (s.len() > 1 ==> s[0] != '0')
}

/// The value of one digit character is its digit, and back.
proof fn lemma_digit_char_val(d: nat)
    requires
        d < 10,
    ensures
        digit_val(digit_char(d)) == d,
        is_digit_char(digit_char(d)),
{
}

/// A digit character is recovered from its value.
proof fn lemma_digit_val_char(c: char)
    requires
        is_digit_char(c),
    ensures
        digit_val(c) < 10,
        digit_char(digit_val(c)) == c,
{
}

/// The canonical spelling consists of digits and has no leading zero.
pub proof fn lemma_dec_digits_canonical(n: nat)
    ensures
        canonical_digits(dec_digits(n)),
        n >= 1 ==> dec_digits(n)[0] != '0',
    decreases n,
{
    if n < 10 {
        lemma_digit_char_val(n);
    } else {
        lemma_dec_digits_canonical(n / 10);
        lemma_digit_char_val(n % 10);
        assert(n / 10 >= 1);
        let s = dec_digits(n);
        assert(s[0] == dec_digits(n / 10)[0]);
        assert forall|i: int| 0 <= i < s.len() implies is_digit_char(#[trigger] s[i]) by {
            if i < dec_digits(n / 10).len() {
                assert(s[i] == dec_digits(n / 10)[i]);
            } else {
                assert(s[i] == digit_char(n % 10));
            }
        }
    }
}

/// Reading back the canonical spelling gives the number itself.
pub proof fn lemma_val_of_dec(n: nat)
    ensures
        digits_val(dec_digits(n)) == n,
    decreases n,
{
    if n < 10 {
        lemma_digit_char_val(n);
        let s = dec_digits(n);
        assert(s =~= seq![digit_char(n)]);
        assert(s.drop_last() =~= Seq::<char>::empty());
        assert(digits_val(Seq::<char>::empty()) == 0);
        assert(digits_val(s) == digits_val(s.drop_last()) * 10 + digit_val(s.last()));
    } else {
        lemma_val_of_dec(n / 10);
        lemma_digit_char_val(n % 10);
        let s = dec_digits(n);
        assert(s.drop_last() =~= dec_digits(n / 10));
        assert(s.last() == digit_char(n % 10));
        assert(digits_val(s) == (n / 10) * 10 + n % 10);
        assert((n / 10) * 10 + n % 10 == n) by {
            vstd::arithmetic::div_mod::lemma_fundamental_div_mod(n as int, 10);
        }
    }
}

/// A canonical nonzero-leading digit string has a nonzero value.
proof fn lemma_canonical_val_pos(s: Seq<char>)
    requires
        canonical_digits(s),
        s[0] != '0',
    ensures
        digits_val(s) >= 1,
    decreases s.len(),
{
    if s.len() == 1 {
        assert(digits_val(s) == digits_val(s.drop_last()) * 10 + digit_val(s.last()));
        assert(s.drop_last() =~= Seq::<char>::empty());
        assert(is_digit_char(s[0]));
        assert(digit_val(s[0]) >= 1);
    } else {
        let p = s.drop_last();
        assert(p[0] == s[0]);
        assert(all_digits(p)) by {
            assert(forall|i: int| 0 <= i < p.len() ==> p[i] == s[i]);
        }
        lemma_canonical_val_pos(p);
        assert(digits_val(s) == digits_val(p) * 10 + digit_val(s.last()));
        assert(digits_val(p) * 10 >= 10) by {
            vstd::arithmetic::mul::lemma_mul_inequality(1, digits_val(p) as int, 10);
        }
    }
}

/// Spelling the value of a canonical digit string gives that string back.
pub proof fn lemma_dec_of_val(s: Seq<char>)
    requires
        canonical_digits(s),
    ensures
        dec_digits(digits_val(s)) == s,
    decreases s.len(),
{
    let n = digits_val(s);
    if s.len() == 1 {
        assert(s.drop_last() =~= Seq::<char>::empty());
        assert(digits_val(Seq::<char>::empty()) == 0);
        assert(digits_val(s) == digits_val(s.drop_last()) * 10 + digit_val(s.last()));
        assert(s.last() == s[0]);
        assert(n == digit_val(s[0]));
        lemma_digit_val_char(s[0]);
        assert(dec_digits(n) =~= s);
    } else {
        let p = s.drop_last();
        assert(p[0] == s[0]);
        assert(all_digits(p)) by {
            assert(forall|i: int| 0 <= i < p.len() ==> p[i] == s[i]);
        }
        assert(canonical_digits(p));
        lemma_canonical_val_pos(p);
        lemma_digit_val_char(s.last());
        let d = digit_val(s.last());
        assert(n == digits_val(p) * 10 + d);
        assert(n >= 10) by {
            vstd::arithmetic::mul::lemma_mul_inequality(1, digits_val(p) as int, 10);
        }
        assert(n / 10 == digits_val(p) && n % 10 == d) by {
            vstd::arithmetic::div_mod::lemma_fundamental_div_mod_converse(
                n as int,
                10,
                digits_val(p) as int,
                d as int,
            );
        }
        lemma_dec_of_val(p);
        assert(dec_digits(n) =~= s);
    }
}

/// Distinct numbers have distinct canonical spellings.
pub proof fn lemma_dec_digits_injective(a: nat, b: nat)
    requires
        a != b,
    ensures
        dec_digits(a) != dec_digits(b),
{
    lemma_val_of_dec(a);
    lemma_val_of_dec(b);
}

/// Extending a digit string on the right never lowers its value.
proof fn lemma_digits_val_prefix_le(s: Seq<char>, i: int)
    requires
        0 <= i <= s.len(),
    ensures
        digits_val(s.subrange(0, i)) <= digits_val(s),
    decreases s.len() - i,
{
    if i == s.len() {
        assert(s.subrange(0, i) =~= s);
    } else {
        let t = s.subrange(0, i + 1);
        lemma_digits_val_prefix_le(s, i + 1);
        assert(t.drop_last() =~= s.subrange(0, i));
        assert(digits_val(t) == digits_val(s.subrange(0, i)) * 10 + digit_val(t.last()));
        assert(digits_val(s.subrange(0, i)) * 10 >= digits_val(s.subrange(0, i))) by {
            vstd::arithmetic::mul::lemma_mul_inequality(1, 10, digits_val(s.subrange(0, i)) as int);
        }
    }
}

/// Reads a string of decimal digits as a number.
///
/// Succeeds exactly on nonempty all-digit strings whose value fits the
/// machine word; leading zeros are accepted here and judged by the caller.
pub fn parse_digits(s: &str) -> (r: Option<usize>)
    ensures
        r is Some <==> s@.len() > 0 && all_digits(s@) && digits_val(s@) <= usize::MAX,
        r matches Some(v) ==> v == digits_val(s@),
{
    let n = s.unicode_len();
    if n == 0 {
        return None;
    }
    let mut acc: usize = 0;
    let mut i: usize = 0;
    while i < n
        invariant
            0 < n == s@.len(),
            0 <= i <= n,
            all_digits(s@.subrange(0, i as int)),
            acc == digits_val(s@.subrange(0, i as int)),
        decreases n - i,
    {
        let c = s.get_char(i);
        let code = c as u32;
        if code < 48 || code > 57 {
            assert(!is_digit_char(s@[i as int]));
            return None;
        }
        let d = (code - 48) as usize;
        assert(is_digit_char(s@[i as int]) && d == digit_val(s@[i as int]));
        let ghost prev = s@.subrange(0, i as int);
        let ghost cur = s@.subrange(0, i as int + 1);
        assert(cur.drop_last() =~= prev && cur.last() == s@[i as int]);
        let shifted = match acc.checked_mul(10) {
            Some(m) => m,
            None => {
                proof {
                    assert(digits_val(cur) == digits_val(prev) * 10 + digit_val(cur.last()));
                    lemma_digits_val_prefix_le(s@, i as int + 1);
                }
                return None;
            },
        };
        acc = match shifted.checked_add(d) {
            Some(a) => a,
            None => {
                proof {
                    assert(digits_val(cur) == digits_val(prev) * 10 + digit_val(cur.last()));
                    lemma_digits_val_prefix_le(s@, i as int + 1);
                }
                return None;
            },
        };
        i = i + 1;
    }
    assert(s@.subrange(0, n as int) =~= s@);
    Some(acc)
}

/// One digit as a one-character string.
fn digit_str(d: u64) -> (r: String)
    requires
        d < 10,
    ensures
        r@ =~= seq![digit_char(d as nat)],
{
    proof {
        reveal_strlit("0");
        reveal_strlit("1");
        reveal_strlit("2");
        reveal_strlit("3");
        reveal_strlit("4");
        reveal_strlit("5");
        reveal_strlit("6");
        reveal_strlit("7");
        reveal_strlit("8");
        reveal_strlit("9");
    }
    if d == 0 {
        "0".to_owned()
    } else if d == 1 {
        "1".to_owned()
    } else if d == 2 {
        "2".to_owned()
    } else if d == 3 {
        "3".to_owned()
    } else if d == 4 {
        "4".to_owned()
    } else if d == 5 {
        "5".to_owned()
    } else if d == 6 {
        "6".to_owned()
    } else if d == 7 {
        "7".to_owned()
    } else if d == 8 {
        "8".to_owned()
    } else {
        "9".to_owned()
    }
}

/// Spells a number in canonical decimal.
pub fn format_u64(n: u64) -> (r: String)
    ensures
        r@ == dec_digits(n as nat),
    decreases n,
{
    if n < 10 {
        digit_str(n)
    } else {
        let mut r = format_u64(n / 10);
        let last = digit_str(n % 10);
        r.append(last.as_str());
        assert(r@ =~= dec_digits(n as nat));
        r
    }
}

} // verus!
