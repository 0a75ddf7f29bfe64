//! Decimal digit strings: the numeric value of a digit sequence, the canonical
//! rendering of a number, and executable parsing and formatting proved against
//! those definitions. Both the date and the duration encodings build on this.

use vstd::prelude::*;

verus! {

pub open spec fn is_digit(c: char) -> bool {
    48 <= c as int && c as int <= 57
}

pub open spec fn digit_val(c: char) -> int {
    c as int - 48
}

pub open spec fn digit_char(v: int) -> char {
    if v == 0 {
        '0'
    } else if v == 1 {
        '1'
    } else if v == 2 {
        '2'
    } else if v == 3 {
        '3'
    } else if v == 4 {
        '4'
    } else if v == 5 {
        '5'
    } else if v == 6 {
        '6'
    } else if v == 7 {
        '7'
    } else if v == 8 {
        '8'
    } else {
        '9'
    }
}

pub open spec fn all_digits(s: Seq<char>) -> bool {
    forall|i: int| 0 <= i < s.len() ==> is_digit(#[trigger] s[i])
}

/// The numeric value of a digit string, most significant digit first.
pub open spec fn dec_val(s: Seq<char>) -> int
    decreases s.len(),
{
    if s.len() == 0 {
        0
    } else {
        dec_val(s.drop_last()) * 10 + digit_val(s.last())
    }
}

/// The canonical decimal rendering of a non-negative number: no sign and no
/// leading zeros.
pub open spec fn dec_str(n: int) -> Seq<char>
    decreases n,
{
    if n < 10 {
        seq![digit_char(n)]
    } else {
        dec_str(n / 10).push(digit_char(n % 10))
    }
}

pub proof fn lemma_digit_char_val(v: int)
    requires
        0 <= v < 10,
    ensures
        is_digit(digit_char(v)),
        digit_val(digit_char(v)) == v,
{
}

/// The canonical rendering of `n` is a non-empty digit string whose value is
/// `n` again.
pub proof fn lemma_dec_str_val(n: int)
    requires
        0 <= n,
    ensures
        dec_str(n).len() >= 1,
        all_digits(dec_str(n)),
        dec_val(dec_str(n)) == n,
    decreases n,
{
    if n < 10 {
        lemma_digit_char_val(n);
        assert(dec_str(n) =~= seq![digit_char(n)]);
        assert(dec_str(n).drop_last() =~= Seq::<char>::empty());
        assert(dec_val(Seq::<char>::empty()) == 0);
        assert(dec_str(n).last() == digit_char(n));
        assert(dec_val(dec_str(n)) == digit_val(digit_char(n)));
    } else {
        lemma_dec_str_val(n / 10);
        lemma_digit_char_val(n % 10);
        let prefix = dec_str(n / 10);
        let whole = prefix.push(digit_char(n % 10));
        assert(whole.drop_last() =~= prefix);
        assert(whole.last() == digit_char(n % 10));
        assert(forall|i: int| 0 <= i < whole.len() ==> is_digit(#[trigger] whole[i])) by {
            assert(forall|i: int| 0 <= i < prefix.len() ==> whole[i] == #[trigger] prefix[i]);
        }
        assert(dec_val(whole) == n / 10 * 10 + n % 10);
    }
}

/// The value of a digit string never falls when the string is extended on the
/// right with more digits.
pub proof fn lemma_dec_val_prefix(s: Seq<char>, i: int)
    requires
        all_digits(s),
        0 <= i <= s.len(),
    ensures
        0 <= dec_val(s.take(i)) <= dec_val(s),
    decreases s.len() - i,
{
    if i == s.len() {
        assert(s.take(i) =~= s);
        lemma_dec_val_nonneg(s);
    } else {
        lemma_dec_val_prefix(s, i + 1);
        let t = s.take(i + 1);
        assert(t.drop_last() =~= s.take(i));
        assert(is_digit(s[i]));
        assert(dec_val(t) == dec_val(s.take(i)) * 10 + digit_val(s[i]));
        lemma_dec_val_nonneg(s.take(i));
    }
}

pub proof fn lemma_dec_val_nonneg(s: Seq<char>)
    requires
        all_digits(s),
    ensures
        0 <= dec_val(s),
    decreases s.len(),
{
    if s.len() > 0 {
        assert(all_digits(s.drop_last())) by {
            assert(forall|i: int|
                0 <= i < s.len() - 1 ==> #[trigger] s.drop_last()[i] == s[i]);
        }
        lemma_dec_val_nonneg(s.drop_last());
        assert(is_digit(s.last()));
    }
}

/// What `parse_number` accepts: a non-empty, all-digit string whose value fits
/// in a `u32`.
pub open spec fn parse_num_spec(s: Seq<char>) -> Option<u32> {
    if s.len() == 0 || !all_digits(s) || dec_val(s) > u32::MAX {
        Option::None
    } else {
        Option::Some(dec_val(s) as u32)
    }
}

/// Reads an unsigned decimal number. Rejects the empty string, any non-digit
/// character (a sign included), and values above `u32::MAX`.
pub fn parse_number(s: &str) -> (r: Option<u32>)
    ensures
        r == parse_num_spec(s@),
{
    let n = s.unicode_len();
    if n == 0 {
        return None;
    }
    let mut acc: u64 = 0;
    let mut i: usize = 0;
    while i < n
        invariant
            0 < n == s@.len(),
            0 <= i <= n,
            all_digits(s@.take(i as int)),
            acc == dec_val(s@.take(i as int)),
            acc <= u32::MAX as u64,
        decreases n - i,
    {
        let c = s.get_char(i);
        let cv = c as u32;
        if cv < 48 || cv > 57 {
            assert(!is_digit(s@[i as int]));
            return None;
        }
        proof {
            assert(s@.take(i + 1).drop_last() =~= s@.take(i as int));
            assert(s@.take(i + 1).last() == s@[i as int]);
            assert(forall|k: int|
                0 <= k < i + 1 ==> #[trigger] s@.take(i + 1)[k] == s@.take(i as int).push(s@[i as int])[k]);
        }
        acc = acc * 10 + ((cv - 48) as u64);
        i = i + 1;
        assert(all_digits(s@.take(i as int)));
        if acc > u32::MAX as u64 {
            proof {
                if all_digits(s@) {
                    lemma_dec_val_prefix(s@, i as int);
                }
            }
            return None;
        }
    }
    proof {
        assert(s@.take(n as int) =~= s@);
    }
    Some(acc as u32)
}

/// A single decimal digit as a string slice.
pub fn digit_str(d: u32) -> (r: &'static str)
    requires
        d < 10,
    ensures
        r@ =~= seq![digit_char(d as int)],
{
    proof {
        reveal_strlit("0");
        reveal_strlit("1");
        reveal_strlit("2");
        reveal_strlit("3");
        reveal_strlit("4");
        reveal_strlit("5");
        reveal_strlit("6");
        reveal_strlit("7");
        reveal_strlit("8");
        reveal_strlit("9");
    }
    if d == 0 {
        "0"
    } else if d == 1 {
        "1"
    } else if d == 2 {
        "2"
    } else if d == 3 {
        "3"
    } else if d == 4 {
        "4"
    } else if d == 5 {
        "5"
    } else if d == 6 {
        "6"
    } else if d == 7 {
        "7"
    } else if d == 8 {
        "8"
    } else {
        "9"
    }
}

/// Renders `n` in canonical decimal.
pub fn u32_dec_string(n: u32) -> (r: String)
    ensures
        r@ == dec_str(n as int),
    decreases n,
{
    if n < 10 {
        let r = String::from_str(digit_str(n));
        proof {
            assert(r@ =~= dec_str(n as int));
        }
        r
    } else {
        let mut r = u32_dec_string(n / 10);
        r.append(digit_str(n % 10));
        proof {
            assert(n as int / 10 == (n / 10) as int);
            assert(n as int % 10 == (n % 10) as int);
            assert(r@ =~= dec_str(n as int / 10).push(digit_char(n as int % 10)));
        }
        r
    }
}

} // verus!
