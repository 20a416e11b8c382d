//! Small string utilities shared by the server: decimal rendering of
//! identifiers, slug derivation from display names, uppercase hex, query
//! parameter assembly, and redaction of credential-bearing URIs.

use vstd::prelude::*;
use vstd::string::StringExecFns;

verus! {

/// Relies on std's `String::push`: appends exactly the given character.
pub assume_specification[ String::push ](s: &mut String, ch: char)
    ensures
        final(s)@ == old(s)@.push(ch),
;

/// The character for a single decimal digit.
pub open spec fn digit_char(d: nat) -> char {
    ((d + 48) as u8) as char
}

/// The usual decimal rendering of a natural number, most significant digit
/// first and without leading zeroes.
pub open spec fn decimal_rep(n: nat) -> Seq<char>
    decreases n,
{
    if n < 10 {
        seq![digit_char(n)]
    } else {
        decimal_rep(n / 10).push(digit_char(n % 10))
    }
}

/// Renders a number in decimal.
pub fn u64_to_string(n: u64) -> (r: String)
    ensures
        r@ == decimal_rep(n as nat),
    decreases n,
{
    let d: u8 = (n % 10) as u8;
    let c: char = (d + 48) as char;
    proof {
        assert(c == digit_char((n % 10) as nat));
    }
    if n < 10 {
        let mut s = String::new();
        s.push(c);
        proof {
            assert(s@ =~= decimal_rep(n as nat));
        }
        s
    } else {
        let mut s = u64_to_string(n / 10);
        s.push(c);
        proof {
            assert(s@ =~= decimal_rep(n as nat));
        }
        s
    }
}

/// The usual decimal rendering of a signed number: a minus sign for
/// negative values, then the digits.
pub open spec fn decimal_rep_i64(n: int) -> Seq<char> {
    if n < 0 {
        seq!['-'] + decimal_rep((-n) as nat)
    } else {
        decimal_rep(n as nat)
    }
}

/// Renders a signed number in decimal.
pub fn i64_to_string(n: i64) -> (r: String)
    ensures
        r@ == decimal_rep_i64(n as int),
{
    if n >= 0 {
        let r = u64_to_string(n as u64);
        r
    } else {
        let magnitude: u64 = if n == i64::MIN {
            9223372036854775808u64
        } else {
            (-n) as u64
        };
        let mut r = String::new();
        r.push('-');
        r.append(u64_to_string(magnitude).as_str());
        proof {
            assert(r@ =~= decimal_rep_i64(n as int));
        }
        r
    }
}

/// Whether a character is a decimal digit.
pub open spec fn is_decimal_digit(c: char) -> bool {
    48 <= c as int <= 57
}

/// The value of a digit character.
pub open spec fn digit_val(c: char) -> int {
    c as int - 48
}

/// The number a digit string denotes, most significant digit first.
pub open spec fn digits_val(s: Seq<char>) -> int
    decreases s.len(),
{
    if s.len() == 0 {
        0
    } else {
        digits_val(s.drop_last()) * 10 + digit_val(s.last())
    }
}

/// Whether every character is a decimal digit.
pub open spec fn all_decimal_digits(s: Seq<char>) -> bool {
    forall|i: int| 0 <= i < s.len() ==> is_decimal_digit(#[trigger] s[i])
}

/// What parsing a string as a 32-bit signed integer yields: an optional
/// sign, then at least one digit, and a value within the type's range;
/// anything else is rejected.
pub open spec fn parsed_i32(s: Seq<char>) -> Option<int> {
    let has_sign = s.len() > 0 && (s[0] == '+' || s[0] == '-');
    let negative = s.len() > 0 && s[0] == '-';
    let digits = if has_sign {
        s.drop_first()
    } else {
        s
    };
    if digits.len() == 0 || !all_decimal_digits(digits) {
        None
    } else {
        let v = if negative {
            -digits_val(digits)
        } else {
            digits_val(digits)
        };
        if -2147483648 <= v <= 2147483647 {
            Some(v)
        } else {
            None
        }
    }
}

/// A string of digits denotes a nonnegative number.
proof fn lemma_digits_val_nonneg(s: Seq<char>)
    requires
        forall|i: int| 0 <= i < s.len() ==> is_decimal_digit(#[trigger] s[i]),
    ensures
        digits_val(s) >= 0,
    decreases s.len(),
{
    if s.len() > 0 {
        lemma_digits_val_nonneg(s.drop_last());
    }
}

/// Parses a 32-bit signed integer from decimal text: an optional sign, then
/// digits. Rejects empty input, stray characters and out-of-range values.
pub fn parse_i32(s: &str) -> (r: Option<i32>)
    ensures
        match r {
            Some(v) => parsed_i32(s@) == Some(v as int),
            None => parsed_i32(s@) is None,
        },
{
    let n = s.unicode_len();
    if n == 0 {
        return None;
    }
    let first = s.get_char(0);
    let has_sign = first == '+' || first == '-';
    let negative = first == '-';
    let start: usize = if has_sign {
        1
    } else {
        0
    };
    if start == n {
        return None;
    }
    let ghost digits = if has_sign {
        s@.drop_first()
    } else {
        s@
    };
    proof {
        assert(digits =~= s@.subrange(start as int, n as int));
    }
    // values are accumulated up to a cap just beyond the i32 range; once the
    // cap is hit the true value can only be larger
    let cap: u64 = 3000000000;
    let mut acc: u64 = 0;
    let mut i: usize = start;
    while i < n
        invariant
            start <= i <= n,
            n == s@.len(),
            start == (if (s@.len() > 0 && (s@[0] == '+' || s@[0] == '-')) {
                1int
            } else {
                0int
            }),
            digits =~= s@.subrange(start as int, n as int),
            cap == 3000000000,
            acc <= cap,
            forall|k: int|
                0 <= k < i - start ==> is_decimal_digit(#[trigger] digits[k]),
            acc < cap ==> acc == digits_val(digits.take(i - start)),
            acc == cap ==> digits_val(digits.take(i - start)) >= cap,
        decreases n - i,
    {
        let c = s.get_char(i);
        let u = c as u32;
        if u < 48 || u > 57 {
            proof {
                assert(digits[i - start] == s@[i as int]);
                assert(!is_decimal_digit(digits[i - start]));
                assert(!all_decimal_digits(digits));
                assert(parsed_i32(s@) is None);
            }
            return None;
        }
        let d: u64 = (u - 48) as u64;
        proof {
            assert(digits.take(i + 1 - start).drop_last() =~= digits.take(i - start));
            assert(digits.take(i + 1 - start).last() == s@[i as int]);
            assert forall|k: int|
                0 <= k < digits.take(i - start).len() implies is_decimal_digit(
                #[trigger] digits.take(i - start)[k],
            ) by {}
            lemma_digits_val_nonneg(digits.take(i - start));
        }
        if acc == cap {
            // stays at the cap: the true value only grows
        } else {
            let next = acc * 10 + d;
            if next > cap {
                acc = cap;
            } else {
                acc = next;
            }
        }
        i = i + 1;
    }
    proof {
        assert(digits.take(n - start) =~= digits);
        assert(all_decimal_digits(digits));
        lemma_digits_val_nonneg(digits);
    }
    if negative {
        if acc > 2147483648 {
            None
        } else {
            Some((-(acc as i64)) as i32)
        }
    } else {
        if acc > 2147483647 {
            None
        } else {
            Some(acc as i32)
        }
    }
}

/// The character for a single hex digit, uppercase.
pub open spec fn hex_digit(d: nat) -> char {
    if d < 10 {
        ((d + 48) as u8) as char
    } else {
        ((d + 55) as u8) as char
    }
}

/// The uppercase hexadecimal rendering of a byte sequence, two digits per
/// byte.
pub open spec fn upper_hex_of(bytes: Seq<u8>) -> Seq<char>
    decreases bytes.len(),
{
    if bytes.len() == 0 {
        Seq::empty()
    } else {
        upper_hex_of(bytes.drop_last()) + seq![
            hex_digit((bytes.last() / 16) as nat),
            hex_digit((bytes.last() % 16) as nat),
        ]
    }
}

/// Renders bytes as uppercase hex, two digits per byte.
pub fn to_upper_hex(bytes: &Vec<u8>) -> (r: String)
    ensures
        r@ == upper_hex_of(bytes@),
{
    let mut out = String::new();
    let mut i: usize = 0;
    proof {
        assert(bytes@.take(0) =~= Seq::<u8>::empty());
    }
    while i < bytes.len()
        invariant
            i <= bytes@.len(),
            out@ =~= upper_hex_of(bytes@.take(i as int)),
        decreases bytes@.len() - i,
    {
        let b = bytes[i];
        let hi: u8 = b / 16;
        let lo: u8 = b % 16;
        let hi_c: char = if hi < 10 {
            ((hi + 48) as char)
        } else {
            ((hi + 55) as char)
        };
        let lo_c: char = if lo < 10 {
            ((lo + 48) as char)
        } else {
            ((lo + 55) as char)
        };
        out.push(hi_c);
        out.push(lo_c);
        proof {
            assert(bytes@.take(i + 1).drop_last() =~= bytes@.take(i as int));
            assert(bytes@.take(i + 1).last() == bytes@[i as int]);
            assert(out@ =~= upper_hex_of(bytes@.take(i + 1)));
        }
        i = i + 1;
    }
    proof {
        assert(bytes@.take(bytes@.len() as int) =~= bytes@);
    }
    out
}

/// How one character of a display name appears in the derived slug: ASCII
/// letters are lowered, everything else becomes a dash.
pub open spec fn slug_char(c: char) -> char {
    let u = c as u32;
    if 97 <= u && u <= 122 {
        c
    } else if 65 <= u && u <= 90 {
        (((u + 32) as u8) as char)
    } else {
        '-'
    }
}

/// The slug derived from a display name, character by character.
pub open spec fn slug_of(s: Seq<char>) -> Seq<char> {
    s.map_values(|c: char| slug_char(c))
}

/// Derives a URL-friendly slug from a display name: ASCII letters are kept
/// (lowercased), every other character is replaced by a dash.
pub fn name_to_slug(name: &str) -> (r: String)
    ensures
        r@ == slug_of(name@),
{
    let len = name.unicode_len();
    let mut out_str = String::new();
    let mut i: usize = 0;
    while i < len
        invariant
            i <= len,
            len == name@.len(),
            out_str@ =~= slug_of(name@.take(i as int)),
        decreases len - i,
    {
        let c = name.get_char(i);
        let u = c as u32;
        if 97 <= u && u <= 122 {
            out_str.push(c);
        } else if 65 <= u && u <= 90 {
            out_str.push(((u + 32) as u8) as char);
        } else {
            out_str.push('-');
        }
        proof {
            assert(out_str@ =~= slug_of(name@.take(i + 1 as int)));
        }
        i = i + 1;
    }
    proof {
        assert(name@.take(len as int) =~= name@);
    }
    out_str
}

/// Whether one character sequence starts with another.
pub open spec fn is_prefix_of(prefix: Seq<char>, s: Seq<char>) -> bool {
    prefix.len() <= s.len() && s.take(prefix.len() as int) == prefix
}

/// Whether a string starts with the given prefix.
pub fn str_starts_with(s: &str, prefix: &str) -> (r: bool)
    ensures
        r == is_prefix_of(prefix@, s@),
{
    let n = s.unicode_len();
    let p = prefix.unicode_len();
    if p > n {
        return false;
    }
    let mut i: usize = 0;
    while i < p
        invariant
            i <= p,
            p <= n,
            p == prefix@.len(),
            n == s@.len(),
            forall|k: int| 0 <= k < i ==> s@[k] == prefix@[k],
        decreases p - i,
    {
        if s.get_char(i) != prefix.get_char(i) {
            proof {
                assert(s@.take(p as int)[i as int] != prefix@[i as int]);
            }
            return false;
        }
        i = i + 1;
    }
    proof {
        assert(s@.take(p as int) =~= prefix@);
    }
    true
}

/// A query string built from one list parameter: `name=item` pairs joined
/// with ampersands, in order; empty when the list is.
pub open spec fn joined_params(name: Seq<char>, items: Seq<Seq<char>>) -> Seq<char>
    decreases items.len(),
{
    if items.len() == 0 {
        Seq::empty()
    } else if items.len() == 1 {
        name + seq!['='] + items[0]
    } else {
        joined_params(name, items.drop_last()) + seq!['&'] + name + seq!['='] + items.last()
    }
}

/// Renders a list-valued query parameter: each item becomes `name=item`, the
/// pairs joined with ampersands.
pub fn list_to_query_params(list_name: &str, items: Vec<String>) -> (r: String)
    ensures
        r@ == joined_params(list_name@, items.deep_view()),
{
    let ghost model = items.deep_view();
    let mut res = String::new();
    let n = items.len();
    let mut i: usize = 0;
    proof {
        assert(model.take(0) =~= Seq::<Seq<char>>::empty());
    }
    while i < n
        invariant
            i <= n,
            n == items@.len(),
            model == items.deep_view(),
            res@ =~= joined_params(list_name@, model.take(i as int)),
        decreases n - i,
    {
        if i > 0 {
            res.push('&');
        }
        res.append(list_name);
        res.push('=');
        res.append(items[i].as_str());
        proof {
            assert(model.take(i + 1).drop_last() =~= model.take(i as int));
            assert(model.take(i + 1).last() == model[i as int]);
            assert(model[i as int] == items@[i as int]@);
            assert(res@ =~= joined_params(list_name@, model.take(i + 1)));
        }
        i = i + 1;
    }
    proof {
        assert(model.take(n as int) =~= model);
    }
    res
}

} // verus!
