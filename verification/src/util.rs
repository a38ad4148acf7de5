//! Small helpers shared across the library: views and copies of optional
//! strings, and decimal rendering of integers.

use vstd::prelude::*;
use vstd::string::StringExecFns;

verus! {

/// View of an optional string as an optional character sequence.
pub open spec fn view_opt(o: Option<String>) -> Option<Seq<char>> {
    match o {
        Some(s) => Some(s@),
        None => None,
    }
}

/// Copies an optional string; the copy has the same view.
pub fn clone_opt_string(o: &Option<String>) -> (r: Option<String>)
    ensures
        view_opt(r) == view_opt(*o),
{
    match o {
        Some(s) => Some(s.clone()),
        None => None,
    }
}

/// An optional string with empty content reading as absent.
pub open spec fn spec_drop_empty(o: Option<Seq<char>>) -> Option<Seq<char>> {
    match o {
        Some(s) => if s.len() == 0 {
            None
        } else {
            Some(s)
        },
        None => None,
    }
}

/// Drops an empty string to `None`, as empty form fields read as absent.
pub fn drop_empty(o: Option<String>) -> (r: Option<String>)
    ensures
        view_opt(r) == spec_drop_empty(view_opt(o)),
{
    match o {
        Some(s) => if s.as_str().is_empty() {
            None
        } else {
            Some(s)
        },
        None => None,
    }
}

/// Decimal text of a non-negative integer: the usual base-10 rendering
/// without leading zeros ("0" for zero).
pub open spec fn dec_text(n: int) -> Seq<char>
    decreases n,
{
    if n <= 0 {
        Seq::empty()
    } else {
        dec_text(n / 10).push(digit_char(n % 10))
    }
}

/// The full rendering: "0" stands for itself, everything else drops the
/// leading-zero case.
pub open spec fn dec_of(n: int) -> Seq<char> {
    if n == 0 {
        seq!['0']
    } else {
        dec_text(n)
    }
}

/// Decimal digit character for a value in 0..10.
pub open spec fn digit_char(d: int) -> char {
    if d == 0 { '0' } else if d == 1 { '1' } else if d == 2 { '2' } else if d == 3 { '3' }
    else if d == 4 { '4' } else if d == 5 { '5' } else if d == 6 { '6' } else if d == 7 { '7' }
    else if d == 8 { '8' } else { '9' }
}

/// Renders an integer in decimal.
#[verifier::loop_isolation(false)]
pub fn u64_to_string(n: u64) -> (r: String)
    ensures
        r@ == dec_of(n as int),
{
    if n == 0 {
        let r = "0".to_owned();
        proof {
            reveal_strlit("0");
            assert(r@ =~= dec_of(0));
        }
        return r;
    }
    let mut digits: Vec<char> = Vec::new();
    let mut m: u64 = n;
    while m > 0
        invariant
            dec_text(n as int) =~= dec_text(m as int) + digits@.reverse(),
        decreases m,
    {
        let d: u64 = m % 10;
        let c: char = match d {
            0 => '0',
            1 => '1',
            2 => '2',
            3 => '3',
            4 => '4',
            5 => '5',
            6 => '6',
            7 => '7',
            8 => '8',
            _ => '9',
        };
        proof {
            let ghost pre = digits@;
            assert(c == digit_char(d as int));
            assert(pre.push(c).reverse() =~= seq![c] + pre.reverse());
        }
        digits.push(c);
        m = m / 10;
    }
    let mut out = String::new();
    let mut i: usize = digits.len();
    while i > 0
        invariant
            i <= digits@.len(),
            out@ =~= digits@.skip(i as int).reverse(),
        decreases i,
    {
        i = i - 1;
        crate::json::push_char(&mut out, digits[i]);
        proof {
            assert(digits@.skip(i as int).reverse() =~= digits@.skip(i + 1).reverse().push(
                digits@[i as int],
            ));
        }
    }
    proof {
        assert(out@ =~= digits@.reverse());
        assert(dec_text(n as int) =~= digits@.reverse());
    }
    out
}

} // verus!
