//! Rendering of the final slots into the printed lines: a found file becomes
//! `File: <path>; Size: <n> bytes`, an empty slot prints its seeded message.

use vstd::prelude::*;

use crate::search_result::ResultModel;
use crate::search_result::SearchResult;

verus! {

/// The decimal character for a digit below ten.
pub open spec fn digit_char(d: nat) -> char
    recommends
        d < 10,
{
    ((0x30 + d) as u8) as char
}

/// The decimal numeral of `n`, most significant digit first, with no leading
/// zeros (a lone zero for zero itself).
pub open spec fn decimal_of(n: nat) -> Seq<char>
    decreases n,
{
    if n < 10 {
        seq![digit_char(n)]
    } else {
        decimal_of(n / 10).push(digit_char(n % 10))
    }
}

/// Relies on String::push from std: it appends exactly the one character.
#[verifier::external_body]
pub(crate) fn push_char(s: &mut String, c: char)
    ensures
        final(s)@ == old(s)@.push(c),
{
    s.push(c);
}

/// Writes `n` in decimal.
pub fn u64_to_decimal(n: u64) -> (s: String)
    ensures
        s@ == decimal_of(n as nat),
    decreases n,
{
    let digit: u8 = 0x30 + (n % 10) as u8;
    if n < 10 {
        let mut s = String::new();
        push_char(&mut s, digit as char);
        assert(s@ =~= decimal_of(n as nat));
        s
    } else {
        let mut s = u64_to_decimal(n / 10);
        push_char(&mut s, digit as char);
        s
    }
}

/// The printed line for one slot.
pub open spec fn render_model(r: ResultModel) -> Seq<char> {
    match r {
        ResultModel::NoFileFound(message) => message,
        ResultModel::FileFound(path, size) => "File: "@ + path + "; Size: "@ + decimal_of(
            size as nat,
        ) + " bytes"@,
    }
}

/// Renders one slot as its printed line.
pub fn render_result(r: &SearchResult) -> (line: String)
    ensures
        line@ == render_model(r@),
{
    match r {
        SearchResult::NoFileFound(n) => n.message.clone(),
        SearchResult::FileFound(f) => String::from_str("File: ").concat(f.file.as_str()).concat(
            "; Size: ",
        ).concat(u64_to_decimal(f.size).as_str()).concat(" bytes"),
    }
}

} // verus!
