//! The processor's clock speed as Linux reports it.

use vstd::prelude::*;
use crate::text::{decimal, law_decimal_parses_back, lemma_trim_decimal_line, chars_of, parse_u32, parse_unsigned, trim, trim_chars, Trimmed};

verus! {

/// The clock speed in MHz read from `scaling_cur_freq` (absent when it
/// cannot be read): its trimmed number of kHz divided by 1000, or 0 when it
/// does not read as a `u32`.
pub open spec fn freq_mhz_of(content: Option<Seq<char>>) -> u32 {
    match content {
        Some(c) => match parse_unsigned(trim(c, Trimmed::Whitespace), u32::MAX as nat) {
            Some(khz) => (khz / 1000) as u32,
            None => 0,
        },
        None => 0,
    }
}

/// The clock speed in MHz from the content of `scaling_cur_freq`.
pub fn cpu_freq_mhz(content: Option<&str>) -> (mhz: u32)
    ensures
        mhz == freq_mhz_of(
            match content {
                Some(c) => Some(c@),
                None => None,
            },
        ),
{
    match content {
        Some(c) => {
            let v = chars_of(c);
            let t = trim_chars(&v, Trimmed::Whitespace);
            match parse_u32(&t) {
                Some(khz) => khz / 1000,
                None => 0,
            }
        },
        None => 0,
    }
}


/// A `scaling_cur_freq` file holding a number of kHz and a newline reads
/// as that number of whole MHz.
pub proof fn law_freq_round_trip(khz: u32)
    ensures
        freq_mhz_of(Some(decimal(khz as nat) + seq!['\n'])) == khz / 1000,
{
    lemma_trim_decimal_line(khz as nat);
    law_decimal_parses_back(khz as nat, u32::MAX as nat);
}

} // verus!
