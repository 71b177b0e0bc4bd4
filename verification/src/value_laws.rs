//! What holds of digests in digits, of sizes written before bytes, of the texts of errors and of
//! moments in time.
use crate::clock::Timestamp;
use crate::digest::{add_sized, hex_of, hex_text};
use crate::error::{config, config2, config3, CodexxError};
use crate::json::{copy_opt_json, json_value};
use serde_json::Value;
use vstd::bytes::{lemma_auto_spec_u64_to_from_le_bytes, spec_u64_from_le_bytes};
use vstd::prelude::*;

verus! {

/// What a hexadecimal digit stands for.
pub open spec fn digit_value(c: char) -> int {
    if c as u32 <= 57 {
        c as u32 - 48
    } else {
        c as u32 - 87
    }
}

/// Every byte is written as two digits, the higher one first, in decimal digits and small letters.
pub proof fn law_bytes_are_written_in_two_digits(bytes: &[u8], i: int, r: String)
    requires
        call_ensures(hex_of, (bytes,), r),
    ensures
        r@.len() == 2 * bytes@.len(),
        0 <= i < bytes@.len() ==> 16 * digit_value(r@[2 * i]) + digit_value(r@[2 * i + 1])
            == bytes@[i],
        0 <= i < r@.len() ==> 48 <= r@[i] as u32 <= 57 || 97 <= r@[i] as u32 <= 102,
{
    if 0 <= i < bytes@.len() {
        let b = bytes@[i] as int;
        assert((2 * i) % 2 == 0 && (2 * i) / 2 == i && (2 * i + 1) % 2 == 1 && (2 * i + 1) / 2 == i);
        assert(hex_text(bytes@)[2 * i] == r@[2 * i]);
        assert(hex_text(bytes@)[2 * i + 1] == r@[2 * i + 1]);
        assert(0 <= b / 16 < 16 && 0 <= b % 16 < 16 && b == 16 * (b / 16) + b % 16);
    }
    if 0 <= i < r@.len() {
        let b = bytes@[i / 2] as int;
        assert(hex_text(bytes@)[i] == r@[i]);
        assert(0 <= b / 16 < 16 && 0 <= b % 16 < 16);
    }
}

/// Bytes with their size are added behind what is there: eight bytes that say how many follow, and
/// then all of them.
pub proof fn law_sizes_stand_before_bytes(out: &mut Vec<u8>, bytes: &[u8], i: int)
    requires
        call_ensures(add_sized, (out, bytes), ()),
    ensures
        final(out)@.len() == old(out)@.len() + 8 + bytes@.len(),
        0 <= i < old(out)@.len() ==> final(out)@[i] == old(out)@[i],
        0 <= i < bytes@.len() ==> final(out)@[old(out)@.len() + 8 + i] == bytes@[i],
        bytes@.len() <= u64::MAX ==> spec_u64_from_le_bytes(
            final(out)@.subrange(old(out)@.len() as int, old(out)@.len() as int + 8),
        ) == bytes@.len(),
{
    lemma_auto_spec_u64_to_from_le_bytes();
    let n = old(out)@.len() as int;
    let size = vstd::bytes::spec_u64_to_le_bytes(bytes@.len() as u64);
    assert(size.len() == 8);
    assert(final(out)@.subrange(n, n + 8) =~= size);
}

/// The text of an error names its kind before its message; one from elsewhere is shown as it is.
pub proof fn law_errors_name_their_kind(error: &CodexxError, r: String)
    requires
        call_ensures(CodexxError::text, (error,), r),
    ensures
        *error is Config ==> r@ == "配置错误: "@ + error->Config_0@,
        *error is Database ==> r@ == "数据库错误: "@ + error->Database_0@,
        *error is External ==> r@ == error->External_0@,
{
}

/// An error holds every part of its message in order.
pub proof fn law_errors_hold_their_message(
    a: &str,
    b: &str,
    c: &str,
    one: CodexxError,
    two: CodexxError,
    three: CodexxError,
)
    requires
        call_ensures(config, (a,), one),
        call_ensures(config2, (a, b), two),
        call_ensures(config3, (a, b, c), three),
    ensures
        one is Config && one->Config_0@ == a@,
        two is Config && two->Config_0@ == a@ + b@,
        three is Config && three->Config_0@ == a@ + b@ + c@,
{
}

/// A copy of a value holds what the value holds.
pub proof fn law_value_copies_are_whole(value: &Option<Value>, r: Option<Value>)
    requires
        call_ensures(copy_opt_json, (value,), r),
    ensures
        r is Some <==> *value is Some,
        r is Some ==> json_value(r->0) == json_value(value->0),
{
}

/// A moment is written as it is, and the moment some seconds after it as the moment that many
/// seconds later, as long as that can be written.
pub proof fn law_delays_move_a_moment(
    seconds: i64,
    nanoseconds: u32,
    delay: i64,
    moment: Option<Timestamp>,
    later: Option<Timestamp>,
    text: String,
    later_text: String,
    r: Option<String>,
)
    requires
        call_ensures(Timestamp::from_parts, (seconds, nanoseconds), moment),
        i64::MIN <= seconds + delay <= i64::MAX,
        call_ensures(Timestamp::from_parts, ((seconds + delay) as i64, nanoseconds), later),
        moment is Some,
        call_ensures(Timestamp::text, (&moment->0,), text),
        later is Some ==> call_ensures(Timestamp::text, (&later->0,), later_text),
        call_ensures(Timestamp::text_after, (&moment->0, delay), r),
        nanoseconds < 1_000_000_000,
    ensures
        delay == 0 ==> r is Some && r->0@ == text@,
        -9_223_372_036_854_775 <= delay <= 9_223_372_036_854_775 ==> (r is Some <==> later is Some),
        r is Some ==> r->0@ == later_text@,
        delay > 9_223_372_036_854_775 || delay < -9_223_372_036_854_775 ==> r is None,
{
}

} // verus!
