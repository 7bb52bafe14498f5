//! Stable integer error codes of the RPC layer and their user-facing text.
use vstd::prelude::*;
use vstd::string::StringExecFns;

verus! {

pub const FILE_SYSTEM_WRITE_ERROR: i32 = -10;
pub const DATABASE_POOL_ERROR: i32 = -20;
pub const DATABASE_READ_ERROR: i32 = -21;
pub const DATABASE_WRITE_ERROR: i32 = -22;
pub const DATABASE_DELETE_ERROR: i32 = -23;
pub const DESERIALIZATION_ERROR: i32 = -10000;
pub const MAXIMUM_CONFIRMATION_TIMESTAMP_OFFSET_EXCCEED: i32 = -10100;
pub const INVALID_SIGNATURE: i32 = -10101;
pub const LIMIT_DONT_FIT_RANGE: i32 = -10200;
pub const HASHES_LEN_DONT_FIT_RANGE: i32 = -10201;

} // verus!

verus! {

/// The character of a decimal digit.
pub open spec fn digit_char(d: nat) -> char {
    if d == 0 { '0' }
    else if d == 1 { '1' }
    else if d == 2 { '2' }
    else if d == 3 { '3' }
    else if d == 4 { '4' }
    else if d == 5 { '5' }
    else if d == 6 { '6' }
    else if d == 7 { '7' }
    else if d == 8 { '8' }
    else { '9' }
}

/// Decimal digits of a natural number, most significant first, no leading zero.
pub open spec fn digits_of(n: nat) -> Seq<char>
    decreases n,
{
    if n < 10 {
        seq![digit_char(n)]
    } else {
        digits_of(n / 10).push(digit_char(n % 10))
    }
}

/// Decimal notation of an integer, with a leading `-` when negative.
pub open spec fn decimal_of(v: int) -> Seq<char> {
    if v < 0 {
        seq!['-'] + digits_of((-v) as nat)
    } else {
        digits_of(v as nat)
    }
}

/// The text shown to a user for an error code.
pub open spec fn error_text(code: i32) -> Seq<char> {
    if code == FILE_SYSTEM_WRITE_ERROR {
        "Internal error: Failed to write file"@
    } else if code == DATABASE_POOL_ERROR {
        "Internal error: Failed to get database pool"@
    } else if code == DATABASE_READ_ERROR {
        "Internal error: Failed to read from database"@
    } else if code == DATABASE_WRITE_ERROR {
        "Internal error: Failed to write to database"@
    } else if code == DATABASE_DELETE_ERROR {
        "Internal error: Failed to delete from database"@
    } else if code == DESERIALIZATION_ERROR {
        "Failed to deserialize data"@
    } else if code == MAXIMUM_CONFIRMATION_TIMESTAMP_OFFSET_EXCCEED {
        "Maximum confirmation timestamp offset excceed"@
    } else if code == INVALID_SIGNATURE {
        "Invalid signature"@
    } else if code == LIMIT_DONT_FIT_RANGE {
        "Limit don't fit range"@
    } else if code == HASHES_LEN_DONT_FIT_RANGE {
        "Hashes vector length don't fit range"@
    } else {
        "Unknown error: "@ + decimal_of(code as int)
    }
}

fn digit_str(d: u64) -> (r: &'static str)
    requires
        d < 10,
    ensures
        r@ == seq![digit_char(d as nat)],
{
    proof {
        reveal_strlit("0");
        reveal_strlit("1");
        reveal_strlit("2");
        reveal_strlit("3");
        reveal_strlit("4");
        reveal_strlit("5");
        reveal_strlit("6");
        reveal_strlit("7");
        reveal_strlit("8");
        reveal_strlit("9");
    }
    if d == 0 { "0" }
    else if d == 1 { "1" }
    else if d == 2 { "2" }
    else if d == 3 { "3" }
    else if d == 4 { "4" }
    else if d == 5 { "5" }
    else if d == 6 { "6" }
    else if d == 7 { "7" }
    else if d == 8 { "8" }
    else { "9" }
}

/// Appends the decimal digits of `n` to `out`.
fn append_digits(out: &mut String, n: u64)
    ensures
        final(out)@ == old(out)@ + digits_of(n as nat),
    decreases n,
{
    if n >= 10 {
        append_digits(out, n / 10);
    }
    out.append(digit_str(n % 10));
    proof {
        if n >= 10 {
            assert(digits_of(n as nat) == digits_of((n / 10) as nat).push(digit_char((n % 10) as nat)));
        }
    }
    assert(final(out)@ =~= old(out)@ + digits_of(n as nat));
}

/// Decimal notation of `v`.
pub fn decimal(v: i32) -> (r: String)
    ensures
        r@ == decimal_of(v as int),
{
    let mut out = String::new();
    if v < 0 {
        proof { reveal_strlit("-"); }
        out.append("-");
        let magnitude: u64 = (-(v as i64)) as u64;
        append_digits(&mut out, magnitude);
    } else {
        append_digits(&mut out, v as u64);
    }
    out
}

/// The user-facing text of an RPC error code; codes outside the table read
/// `Unknown error: <code>`.
pub fn to_string(code: i32) -> (r: String)
    ensures
        r@ == error_text(code),
{
    if code == FILE_SYSTEM_WRITE_ERROR {
        String::from_str("Internal error: Failed to write file")
    } else if code == DATABASE_POOL_ERROR {
        String::from_str("Internal error: Failed to get database pool")
    } else if code == DATABASE_READ_ERROR {
        String::from_str("Internal error: Failed to read from database")
    } else if code == DATABASE_WRITE_ERROR {
        String::from_str("Internal error: Failed to write to database")
    } else if code == DATABASE_DELETE_ERROR {
        String::from_str("Internal error: Failed to delete from database")
    } else if code == DESERIALIZATION_ERROR {
        String::from_str("Failed to deserialize data")
    } else if code == MAXIMUM_CONFIRMATION_TIMESTAMP_OFFSET_EXCCEED {
        String::from_str("Maximum confirmation timestamp offset excceed")
    } else if code == INVALID_SIGNATURE {
        String::from_str("Invalid signature")
    } else if code == LIMIT_DONT_FIT_RANGE {
        String::from_str("Limit don't fit range")
    } else if code == HASHES_LEN_DONT_FIT_RANGE {
        String::from_str("Hashes vector length don't fit range")
    } else {
        let prefix = String::from_str("Unknown error: ");
        let digits = decimal(code);
        prefix.concat(digits.as_str())
    }
}

} // verus!
