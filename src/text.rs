use vstd::prelude::*;

verus! {

/// Relies on `String`'s `FromIterator<&char>`: the string holds exactly the given characters.
#[verifier::external_body]
pub(crate) fn string_of(chars: &Vec<char>) -> (r: String)
    ensures
        r@ == chars@,
{
    chars.iter().collect()
}

/// The decimal digit character for `d`.
pub open spec fn digit_char(d: int) -> char {
    ((d + '0' as int) as u32) as char
}

/// Decimal notation of a non-negative integer, without leading zeros.
pub open spec fn nat_decimal(n: nat) -> Seq<char>
    decreases n,
{
    if n < 10 {
        seq![digit_char(n as int)]
    } else {
        nat_decimal(n / 10).push(digit_char((n % 10) as int))
    }
}

/// Decimal notation of an integer, with a leading `-` when negative.
pub open spec fn decimal(i: int) -> Seq<char> {
    if i < 0 {
        seq!['-'].add(nat_decimal((-i) as nat))
    } else {
        nat_decimal(i as nat)
    }
}

fn digits_of(n: u64) -> (r: Vec<char>)
    ensures
        r@ == nat_decimal(n as nat),
    decreases n,
{
    if n < 10 {
        let c = ((n as u32) + ('0' as u32)) as u8 as char;
        let mut v: Vec<char> = Vec::new();
        v.push(c);
        proof {
            assert(c == digit_char(n as int));
        }
        v
    } else {
        let mut v = digits_of(n / 10);
        let d: u64 = n % 10;
        let c = ((d as u32) + ('0' as u32)) as u8 as char;
        proof {
            assert(c == digit_char(d as int));
        }
        v.push(c);
        v
    }
}

/// The decimal form of `i`, as `i32`'s `Display` writes it.
pub fn decimal_string(i: i32) -> (r: String)
    ensures
        r@ == decimal(i as int),
{
    if i < 0 {
        let m: u64 = (-(i as i64)) as u64;
        let digits = digits_of(m);
        let mut v: Vec<char> = Vec::new();
        v.push('-');
        let mut k: usize = 0;
        while k < digits.len()
            invariant
                k <= digits@.len(),
                v@ == seq!['-'].add(digits@.subrange(0, k as int)),
            decreases digits@.len() - k,
        {
            v.push(digits[k]);
            proof {
                assert(digits@.subrange(0, k + 1) == digits@.subrange(0, k as int).push(digits@[k as int]));
            }
            k = k + 1;
        }
        proof {
            assert(digits@.subrange(0, digits@.len() as int) == digits@);
        }
        string_of(&v)
    } else {
        let digits = digits_of(i as u64);
        string_of(&digits)
    }
}

/// The decimal form of a count.
pub fn count_string(n: usize) -> (r: String)
    ensures
        r@ == decimal(n as int),
{
    let digits = digits_of(n as u64);
    string_of(&digits)
}

} // verus!
