//! 128-bit identifiers and their 32-character lowercase hexadecimal form,
//! the only shape an id takes at an external boundary.

use vstd::prelude::*;

use crate::error::APIError;
use crate::strutil::push_char;

verus! {

/// The lowercase hexadecimal digit for a value below 16.
pub open spec fn hex_digit(v: int) -> char {
    if v == 0 {
        '0'
    } else if v == 1 {
        '1'
    } else if v == 2 {
        '2'
    } else if v == 3 {
        '3'
    } else if v == 4 {
        '4'
    } else if v == 5 {
        '5'
    } else if v == 6 {
        '6'
    } else if v == 7 {
        '7'
    } else if v == 8 {
        '8'
    } else if v == 9 {
        '9'
    } else if v == 10 {
        'a'
    } else if v == 11 {
        'b'
    } else if v == 12 {
        'c'
    } else if v == 13 {
        'd'
    } else if v == 14 {
        'e'
    } else {
        'f'
    }
}

/// The last `digits` hexadecimal digits of `n`, most significant first.
pub open spec fn hex_of(n: int, digits: nat) -> Seq<char>
    decreases digits,
{
    if digits == 0 {
        Seq::empty()
    } else {
        hex_of(n / 16, (digits - 1) as nat).push(hex_digit(n % 16))
    }
}

/// The zero-padded 32-digit form of an identifier.
pub open spec fn hex32_of(v: u128) -> Seq<char> {
    hex_of(v as int, 32)
}

/// Whether a character is a hexadecimal digit, in either case.
pub open spec fn is_hex_digit(c: char) -> bool {
    (48 <= c as int && c as int <= 57)  // '0' to '9'
     || (97 <= c as int && c as int <= 102)  // 'a' to 'f'
     || (65 <= c as int && c as int <= 70)  // 'A' to 'F'

}

/// The value of a hexadecimal digit character.
pub open spec fn hex_val(c: char) -> int {
    if 48 <= c as int && c as int <= 57 {
        c as int - 48
    } else if 97 <= c as int && c as int <= 102 {
        c as int - 87
    } else {
        c as int - 55
    }
}

/// The value of a string of hexadecimal digits.
pub open spec fn hex_value_of(s: Seq<char>) -> int
    decreases s.len(),
{
    if s.len() == 0 {
        0
    } else {
        hex_value_of(s.drop_last()) * 16 + hex_val(s.last())
    }
}

/// The digit string behind a hexadecimal literal: an optional leading
/// plus sign is dropped.
pub open spec fn hex_digits_of(s: Seq<char>) -> Seq<char> {
    if s.len() > 0 && s[0] == '+' {
        s.skip(1)
    } else {
        s
    }
}

/// Whether a string parses as a 128-bit hexadecimal number: an optional
/// plus sign, then at least one digit, with a value that fits.
pub open spec fn parse_hex_ok(s: Seq<char>) -> bool {
    let ds = hex_digits_of(s);
    &&& ds.len() > 0
    &&& (forall|i: int| 0 <= i < ds.len() ==> is_hex_digit(#[trigger] ds[i]))
    &&& hex_value_of(ds) <= u128::MAX
}

/// A digit string's value never goes negative.
proof fn lemma_hex_value_nonneg(s: Seq<char>)
    requires
        forall|i: int| 0 <= i < s.len() ==> is_hex_digit(#[trigger] s[i]),
    ensures
        hex_value_of(s) >= 0,
    decreases s.len(),
{
    if s.len() > 0 {
        lemma_hex_value_nonneg(s.drop_last());
        assert(hex_val(s.last()) >= 0);
        assert(hex_value_of(s.drop_last()) * 16 >= 0) by (nonlinear_arith)
            requires
                hex_value_of(s.drop_last()) >= 0,
        ;
    }
}

/// Growing a digit string never shrinks its value.
proof fn lemma_hex_value_monotone(s: Seq<char>, k: int)
    requires
        0 <= k <= s.len(),
        forall|i: int| 0 <= i < s.len() ==> is_hex_digit(#[trigger] s[i]),
    ensures
        hex_value_of(s.take(k)) <= hex_value_of(s),
    decreases s.len() - k,
{
    if k < s.len() {
        lemma_hex_value_monotone(s, k + 1);
        let t = s.take(k + 1);
        assert(t.drop_last() =~= s.take(k));
        assert(forall|i: int| 0 <= i < t.len() ==> is_hex_digit(#[trigger] t[i]));
        assert(forall|i: int| 0 <= i < s.take(k).len() ==> is_hex_digit(
            #[trigger] s.take(k)[i],
        ));
        lemma_hex_value_nonneg(s.take(k));
        assert(hex_value_of(t) == hex_value_of(s.take(k)) * 16 + hex_val(t.last()));
        assert(hex_value_of(s.take(k)) * 16 >= hex_value_of(s.take(k))) by (nonlinear_arith)
            requires
                hex_value_of(s.take(k)) >= 0,
        ;
        assert(hex_val(t.last()) >= 0);
    } else {
        assert(s.take(k) =~= s);
    }
}

/// Sixteen to the given power.
pub open spec fn pow16(d: nat) -> int
    decreases d,
{
    if d == 0 {
        1
    } else {
        16 * pow16((d - 1) as nat)
    }
}

/// Rendering produces hexadecimal digits only, and `hex_val` reads each
/// digit back.
proof fn lemma_hex_of_digits(n: int, d: nat)
    requires
        n >= 0,
    ensures
        hex_of(n, d).len() == d,
        forall|i: int| 0 <= i < d ==> is_hex_digit(#[trigger] hex_of(n, d)[i]),
    decreases d,
{
    if d > 0 {
        lemma_hex_of_digits(n / 16, (d - 1) as nat);
        assert(is_hex_digit(hex_digit(n % 16)));
        assert forall|i: int| 0 <= i < d implies is_hex_digit(#[trigger] hex_of(n, d)[i]) by {
            if i < d - 1 {
                assert(hex_of(n, d)[i] == hex_of(n / 16, (d - 1) as nat)[i]);
            }
        }
    }
}

/// Reading a rendered number back yields the number, whenever it fits in
/// the rendered width.
proof fn lemma_hex_of_value(n: int, d: nat)
    requires
        0 <= n < pow16(d),
    ensures
        hex_value_of(hex_of(n, d)) == n,
    decreases d,
{
    if d == 0 {
    } else {
        assert(n / 16 < pow16((d - 1) as nat)) by (nonlinear_arith)
            requires
                0 <= n < pow16(d),
                pow16(d) == 16 * pow16((d - 1) as nat),
        ;
        lemma_hex_of_value(n / 16, (d - 1) as nat);
        lemma_hex_of_digits(n / 16, (d - 1) as nat);
        let s = hex_of(n, d);
        assert(s.drop_last() =~= hex_of(n / 16, (d - 1) as nat));
        assert(s.last() == hex_digit(n % 16));
        assert(hex_val(hex_digit(n % 16)) == n % 16);
        assert((n / 16) * 16 + n % 16 == n) by (nonlinear_arith);
    }
}

/// The 32-digit form of an identifier parses back to the identifier:
/// the id codec round-trips.
pub proof fn lemma_hex32_round_trip(v: u128)
    ensures
        parse_hex_ok(hex32_of(v)),
        hex_value_of(hex_digits_of(hex32_of(v))) == v as int,
{
    assert(pow16(32) == 0x100000000000000000000000000000000) by {
        reveal_with_fuel(pow16, 33);
    }
    lemma_hex_of_digits(v as int, 32);
    lemma_hex_of_value(v as int, 32);
    let s = hex32_of(v);
    assert(is_hex_digit(s[0]));
    assert(s[0] != '+');
    assert(hex_digits_of(s) == s);
}

/// The exec form of `hex_digit`.
fn hex_digit_char(v: u128) -> (c: char)
    requires
        v < 16,
    ensures
        c == hex_digit(v as int),
{
    if v == 0 {
        '0'
    } else if v == 1 {
        '1'
    } else if v == 2 {
        '2'
    } else if v == 3 {
        '3'
    } else if v == 4 {
        '4'
    } else if v == 5 {
        '5'
    } else if v == 6 {
        '6'
    } else if v == 7 {
        '7'
    } else if v == 8 {
        '8'
    } else if v == 9 {
        '9'
    } else if v == 10 {
        'a'
    } else if v == 11 {
        'b'
    } else if v == 12 {
        'c'
    } else if v == 13 {
        'd'
    } else if v == 14 {
        'e'
    } else {
        'f'
    }
}

fn hex_digits(v: u128, digits: usize) -> (r: String)
    ensures
        r@ == hex_of(v as int, digits as nat),
        r@.len() == digits,
    decreases digits,
{
    if digits == 0 {
        String::new()
    } else {
        let mut s = hex_digits(v / 16, digits - 1);
        push_char(&mut s, hex_digit_char(v % 16));
        s
    }
}

/// Renders an identifier as its zero-padded 32-digit lowercase form.
pub fn hex32(v: u128) -> (r: String)
    ensures
        r@ == hex32_of(v),
        r@.len() == 32,
{
    hex_digits(v, 32)
}

/// Parses a hexadecimal number the way the standard library's radix-16
/// integer parsing does: an optional plus sign, then at least one digit
/// of either case; anything else, or a value past the 128-bit range,
/// is rejected.
pub fn parse_hex_u128(s: &str) -> (r: Option<u128>)
    ensures
        match r {
            Some(v) => parse_hex_ok(s@) && v == hex_value_of(hex_digits_of(s@)),
            None => !parse_hex_ok(s@),
        },
{
    let len = s.unicode_len();
    let mut i: usize = 0;
    if len > 0 && s.get_char(0) == '+' {
        i = 1;
    }
    let start = i;
    proof {
        assert(hex_digits_of(s@) =~= s@.skip(start as int));
    }
    let ghost ds = s@.skip(start as int);
    if start == len {
        return None;
    }
    let mut acc: u128 = 0;
    while i < len
        invariant
            len == s@.len(),
            start <= i <= len,
            ds == s@.skip(start as int),
            ds == hex_digits_of(s@),
            forall|j: int| 0 <= j < i - start ==> is_hex_digit(#[trigger] ds[j]),
            acc == hex_value_of(ds.take(i - start)),
        decreases len - i,
    {
        let c = s.get_char(i);
        let d: u128 = if '0' <= c && c <= '9' {
            (c as u128) - 48
        } else if 'a' <= c && c <= 'f' {
            (c as u128) - 87
        } else if 'A' <= c && c <= 'F' {
            (c as u128) - 55
        } else {
            proof {
                assert(ds[i - start] == s@[i as int]);
                assert(!is_hex_digit(ds[i - start]));
            }
            return None;
        };
        proof {
            assert(ds[i - start] == s@[i as int]);
            assert(is_hex_digit(ds[i - start]));
            assert(d == hex_val(ds[i - start]));
        }
        if acc > (u128::MAX - d) / 16 {
            proof {
                let t = ds.take(i - start + 1);
                assert(t.drop_last() =~= ds.take(i - start));
                assert(hex_value_of(t) == acc * 16 + d);
                assert(acc * 16 + d > u128::MAX) by (nonlinear_arith)
                    requires
                        acc > (u128::MAX - d) / 16,
                        0 <= d < 16,
                        acc >= 0,
                ;
                if forall|j: int| 0 <= j < ds.len() ==> is_hex_digit(#[trigger] ds[j]) {
                    lemma_hex_value_monotone(ds, i - start + 1);
                }
            }
            return None;
        }
        let ghost acc0 = acc;
        proof {
            lemma_hex_value_nonneg(ds.take(i - start));
            assert(acc * 16 + d <= u128::MAX) by (nonlinear_arith)
                requires
                    acc <= (u128::MAX - d) / 16,
                    0 <= d < 16,
                    acc >= 0,
            ;
        }
        acc = acc * 16 + d;
        proof {
            let t = ds.take(i - start + 1);
            assert(t.drop_last() =~= ds.take(i - start));
            assert(t.last() == ds[i - start]);
            assert(acc == hex_value_of(t));
        }
        i += 1;
    }
    proof {
        assert(ds.take(len - start) =~= ds);
    }
    Some(acc)
}

/// Parses a caller-supplied identifier: dashes are dropped first, so
/// both the plain and the dashed form are accepted; anything that still
/// fails to parse is the caller's error.
pub fn parse_uuid(s: &str, what: &str) -> (r: Result<u128, APIError>)
    ensures
        match r {
            Ok(v) => parse_hex_ok(strip_dashes(s@)) && v == hex_value_of(
                hex_digits_of(strip_dashes(s@)),
            ),
            Err(e) => !parse_hex_ok(strip_dashes(s@)) && e.code == 400 && e.error@
                == "Bad Request"@,
        },
{
    let stripped = remove_dashes(s);
    match parse_hex_u128(stripped.as_str()) {
        Some(v) => Ok(v),
        None => {
            let msg = ("The ".to_owned().concat(what)).concat(
                " you provided could not be parsed. Please check it and try again.",
            );
            Err(APIError::new(400, "Bad Request", msg.as_str()))
        },
    }
}

/// Keeps every character but '-'.
pub open spec fn non_dash() -> spec_fn(char) -> bool {
    |c: char| c != '-'
}

/// A string with its dashes removed.
pub open spec fn strip_dashes(s: Seq<char>) -> Seq<char> {
    s.filter(non_dash())
}

/// Whether a caller-supplied identifier string is readable.
pub open spec fn id_ok(s: Seq<char>) -> bool {
    parse_hex_ok(strip_dashes(s))
}

/// The identifier a readable string denotes.
pub open spec fn id_of(s: Seq<char>) -> u128 {
    hex_value_of(hex_digits_of(strip_dashes(s))) as u128
}

fn remove_dashes(s: &str) -> (r: String)
    ensures
        r@ == strip_dashes(s@),
{
    let len = s.unicode_len();
    let mut out = String::new();
    let mut i: usize = 0;
    while i < len
        invariant
            len == s@.len(),
            i <= len,
            out@ == s@.take(i as int).filter(non_dash()),
        decreases len - i,
    {
        let ghost prev = out@;
        let c = s.get_char(i);
        if c != '-' {
            push_char(&mut out, c);
        }
        proof {
            crate::table::lemma_filter_singleton(s@[i as int], non_dash());
            assert(s@.take(i + 1) =~= s@.take(i as int) + seq![s@[i as int]]);
            Seq::filter_distributes_over_add(s@.take(i as int), seq![s@[i as int]], non_dash());
            if c != '-' {
                assert(out@ =~= prev + seq![s@[i as int]]);
            }
            assert(out@ =~= s@.take(i + 1).filter(non_dash()));
        }
        i += 1;
    }
    proof {
        assert(s@.take(len as int) =~= s@);
    }
    out
}

} // verus!
