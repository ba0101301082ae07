//! Line formatting for the output log.
//!
//! Each spend produces one line of four unsigned decimal fields separated by
//! a fixed delimiter and terminated by a line break, with no header row:
//! `height;coin_age;fee_rate;value`.

use vstd::prelude::*;

verus! {

/// The field delimiter, `;`.
pub const DELIMITER: u8 = 59;

/// The line terminator, `\n`.
pub const LINE_BREAK: u8 = 10;

/// One emitted spend record: the height of the spending block, the blocks
/// elapsed since the spent output was created, the spending transaction's
/// fee rate, and the spent value.
#[derive(Clone, Copy, Debug, PartialEq, Eq, Structural)]
pub struct SpendRecord {
    /// Height of the block whose transaction consumed the output.
    pub height: u64,
    /// Spend height minus the output's creation height.
    pub coin_age: u64,
    /// Fee rate of the consuming transaction, repeated on every record the
    /// transaction produces.
    pub fee_rate: u64,
    /// Value of the consumed output.
    pub value: u64,
}

/// The shortest decimal rendering of a number, most significant digit
/// first.
pub open spec fn dec_digits(n: nat) -> Seq<u8>
    decreases n,
{
    if n <= 9 {
        seq![(48 + n) as u8]
    } else {
        dec_digits(n / 10) + seq![(48 + n % 10) as u8]
    }
}

/// The line written for one spend record.
pub open spec fn spec_line(r: SpendRecord) -> Seq<u8> {
    dec_digits(r.height as nat) + seq![DELIMITER] + dec_digits(r.coin_age as nat)
        + seq![DELIMITER] + dec_digits(r.fee_rate as nat) + seq![DELIMITER] + dec_digits(
        r.value as nat,
    ) + seq![LINE_BREAK]
}

/// The lines written for a sequence of spend records, in order.
pub open spec fn spec_lines(rs: Seq<SpendRecord>) -> Seq<u8>
    decreases rs.len(),
{
    if rs.len() == 0 {
        Seq::empty()
    } else {
        spec_lines(rs.drop_last()) + spec_line(rs.last())
    }
}

/// Appends the decimal rendering of a number.
pub fn push_decimal(out: &mut Vec<u8>, n: u64)
    ensures
        final(out)@ == old(out)@ + dec_digits(n as nat),
    decreases n,
{
    if n >= 10 {
        push_decimal(out, n / 10);
    }
    out.push((48 + (n % 10)) as u8);
    proof {
        if n <= 9 {
            assert(old(out)@.push((48 + (n % 10)) as u8) =~= old(out)@ + dec_digits(n as nat));
        } else {
            assert((old(out)@ + dec_digits((n / 10) as nat)).push((48 + (n % 10)) as u8)
                =~= old(out)@ + dec_digits(n as nat));
        }
    }
}

/// Appends the line for one spend record.
pub fn push_line(out: &mut Vec<u8>, r: &SpendRecord)
    ensures
        final(out)@ == old(out)@ + spec_line(*r),
{
    push_decimal(out, r.height);
    out.push(DELIMITER);
    push_decimal(out, r.coin_age);
    out.push(DELIMITER);
    push_decimal(out, r.fee_rate);
    out.push(DELIMITER);
    push_decimal(out, r.value);
    out.push(LINE_BREAK);
    proof {
        assert(out@ =~= old(out)@ + spec_line(*r));
    }
}

/// Unfolding step for `spec_lines`: the lines of an extended record
/// sequence are the lines so far followed by the new record's line.
pub proof fn lemma_spec_lines_push(rs: Seq<SpendRecord>, r: SpendRecord)
    ensures
        spec_lines(rs.push(r)) == spec_lines(rs) + spec_line(r),
{
    assert(rs.push(r).drop_last() =~= rs);
    assert(rs.push(r).last() == r);
}

/// The lines of concatenated record sequences concatenate.
pub proof fn lemma_spec_lines_concat(a: Seq<SpendRecord>, b: Seq<SpendRecord>)
    ensures
        spec_lines(a + b) == spec_lines(a) + spec_lines(b),
    decreases b.len(),
{
    if b.len() == 0 {
        assert(a + b =~= a);
        assert(spec_lines(a) + spec_lines(b) =~= spec_lines(a));
    } else {
        lemma_spec_lines_concat(a, b.drop_last());
        assert((a + b).drop_last() =~= a + b.drop_last());
        assert((a + b).last() == b.last());
        assert(spec_lines(a) + (spec_lines(b.drop_last()) + spec_line(b.last())) =~= (spec_lines(
            a,
        ) + spec_lines(b.drop_last())) + spec_line(b.last()));
    }
}

} // verus!
