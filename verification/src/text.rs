use vstd::prelude::*;

verus! {

/// Relies on String::push: appends exactly the given character at the end.
pub assume_specification[ String::push ](s: &mut String, c: char)
    ensures
        final(s)@ == old(s)@.push(c),
;

/// The decimal digit character for a value below ten.
pub open spec fn spec_digit(d: nat) -> char
    recommends
        d < 10,
{
    ((48 + d) as char)
}

/// The decimal representation of a number, most significant digit first,
/// with no leading zeros (a single `'0'` for zero).
pub open spec fn spec_u64_string(n: nat) -> Seq<char>
    decreases n,
{
    if n < 10 {
        seq![spec_digit(n)]
    } else {
        spec_u64_string(n / 10) + seq![spec_digit(n % 10)]
    }
}

fn digit_char(d: u64) -> (c: char)
    requires
        d < 10,
    ensures
        c == spec_digit(d as nat),
{
    match d {
        0 => '0',
        1 => '1',
        2 => '2',
        3 => '3',
        4 => '4',
        5 => '5',
        6 => '6',
        7 => '7',
        8 => '8',
        _ => '9',
    }
}

/// Render a number in decimal.
pub fn u64_to_string(n: u64) -> (r: String)
    ensures
        r@ == spec_u64_string(n as nat),
    decreases n,
{
    if n < 10 {
        let mut s = String::new();
        s.push(digit_char(n));
        proof {
            assert(s@ =~= spec_u64_string(n as nat));
        }
        s
    } else {
        let mut s = u64_to_string(n / 10);
        s.push(digit_char(n % 10));
        proof {
            assert(s@ =~= spec_u64_string(n as nat));
        }
        s
    }
}

/// A decimal digit character.
pub open spec fn is_digit(c: char) -> bool {
    48 <= c as u32 && c as u32 <= 57
}

/// The numeric value of a decimal digit character.
pub open spec fn digit_val(c: char) -> nat
    recommends
        is_digit(c),
{
    (c as u32 - 48) as nat
}

/// Left-to-right accumulation of decimal digits; fails on a non-digit or
/// when the value leaves the unsigned 32-bit range.
pub open spec fn spec_parse_digits(s: Seq<char>, acc: nat) -> Option<nat>
    decreases s.len(),
{
    if s.len() == 0 {
        Option::Some(acc)
    } else if !is_digit(s[0]) {
        Option::None
    } else if acc * 10 + digit_val(s[0]) > 0xFFFF_FFFF {
        Option::None
    } else {
        spec_parse_digits(s.drop_first(), acc * 10 + digit_val(s[0]))
    }
}

/// What it means for a string to parse as an unsigned 32-bit integer:
/// an optional leading `'+'`, then at least one digit, value in range.
pub open spec fn spec_parse_u32(s: Seq<char>) -> Option<u32> {
    let body = if s.len() >= 1 && s[0] == '+' {
        s.drop_first()
    } else {
        s
    };
    if body.len() == 0 {
        Option::None
    } else {
        match spec_parse_digits(body, 0) {
            Option::Some(n) => Option::Some(n as u32),
            Option::None => Option::None,
        }
    }
}

/// Parse a string as an unsigned 32-bit integer, accepting exactly what
/// `spec_parse_u32` accepts.
pub fn parse_u32(s: &str) -> (r: Option<u32>)
    ensures
        r == spec_parse_u32(s@),
{
    let ghost body: Seq<char> = if s@.len() >= 1 && s@[0] == '+' {
        s@.drop_first()
    } else {
        s@
    };
    let n = s.unicode_len();
    let mut i: usize = 0;
    if n >= 1 && s.get_char(0) == '+' {
        i = 1;
        proof {
            assert(body =~= s@.skip(1));
        }
    } else {
        proof {
            assert(body =~= s@.skip(0));
        }
    }
    if i == n {
        return Option::None;
    }
    let mut acc: u32 = 0;
    while i < n
        invariant
            i <= n,
            n == s@.len(),
            body == (if s@.len() >= 1 && s@[0] == '+' {
                s@.drop_first()
            } else {
                s@
            }),
            body.len() > 0,
            spec_parse_digits(body, 0) == spec_parse_digits(s@.skip(i as int), acc as nat),
        decreases n - i,
    {
        let c = s.get_char(i);
        let cv = c as u32;
        if cv < 48 || cv > 57 {
            proof {
                assert(s@.skip(i as int)[0] == s@[i as int]);
                assert(spec_parse_digits(s@.skip(i as int), acc as nat) is None);
            }
            return Option::None;
        }
        let next: u64 = (acc as u64) * 10 + ((cv - 48) as u64);
        if next > 0xFFFF_FFFF {
            proof {
                assert(s@.skip(i as int)[0] == s@[i as int]);
                assert((acc as nat) * 10 + digit_val(s@[i as int]) > 0xFFFF_FFFF);
                assert(spec_parse_digits(s@.skip(i as int), acc as nat) is None);
            }
            return Option::None;
        }
        proof {
            assert(s@.skip(i as int).drop_first() =~= s@.skip(i as int + 1));
        }
        acc = next as u32;
        i = i + 1;
    }
    proof {
        assert(s@.skip(n as int) =~= Seq::<char>::empty());
    }
    Option::Some(acc)
}

} // verus!
