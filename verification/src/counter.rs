//! The energy counter of one virtual machine: a running total of
//! microjoules, kept as decimal text in a file.
//!
//! The caller reads the file, if there is one, and writes back what
//! [`ProxmoxExporter::add_or_create`] makes of it. Content that is no number
//! counts as zero, so that a damaged file is overwritten rather than left in
//! the way. A counter never decreases: one that has reached the largest
//! 64-bit value stays there.

use vstd::prelude::*;
use crate::exporter::ProxmoxExporter;
use crate::number::{
    decimal_text, lemma_decimal_text_round_trip, natural_of, parse_digits, render, unsigned,
};
use crate::text::chars_of;

verus! {

/// The total that the file content `content` records: a plus sign or none,
/// then digits that spell a number of at most 64 bits.
pub open spec fn counter_of(content: Seq<char>) -> Option<u64> {
    natural_of(unsigned(content))
}

/// The total to start from: what the file records, zero where there is no
/// file or its content is no number.
pub open spec fn prior_total(prior: Option<Seq<char>>) -> nat {
    match prior {
        Some(content) => match counter_of(content) {
            Some(total) => total as nat,
            None => 0,
        },
        None => 0,
    }
}

/// The total after `increment` microjoules have been added.
pub open spec fn accumulated(prior: Option<Seq<char>>, increment: nat) -> nat {
    if prior_total(prior) + increment <= u64::MAX {
        prior_total(prior) + increment
    } else {
        u64::MAX as nat
    }
}

/// The file content after `increment` microjoules have been added.
pub open spec fn updated_content(prior: Option<Seq<char>>, increment: nat) -> Seq<char> {
    decimal_text(accumulated(prior, increment))
}

/// What is written is read back as the total it stands for.
pub proof fn lemma_content_records_total(prior: Option<Seq<char>>, increment: nat)
    ensures
        counter_of(updated_content(prior, increment)) == Some(accumulated(prior, increment) as u64),
        prior_total(Some(updated_content(prior, increment))) == accumulated(prior, increment),
{
    lemma_decimal_text_round_trip(accumulated(prior, increment));
}

/// Adding `first` and then `second` where there was no file leaves the sum
/// of the two, which is what adding the sum at once leaves.
pub proof fn lemma_accumulation(first: u64, second: u64)
    requires
        first + second <= u64::MAX,
    ensures
        updated_content(Some(updated_content(None, first as nat)), second as nat) == decimal_text(
            (first + second) as nat,
        ),
        updated_content(Some(updated_content(None, first as nat)), second as nat)
            == updated_content(None, (first + second) as nat),
{
    lemma_content_records_total(None, first as nat);
}

/// Content that is no number is dropped: the file then holds the increment alone.
pub proof fn lemma_corrupt_content_discarded(content: Seq<char>, increment: u64)
    requires
        counter_of(content) is None,
    ensures
        updated_content(Some(content), increment as nat) == decimal_text(increment as nat),
        updated_content(Some(content), increment as nat) == updated_content(None, increment as nat),
{
}

/// A counter never decreases, and grows by the increment as long as the
/// total fits 64 bits.
pub proof fn lemma_counter_monotonic(prior: Option<Seq<char>>, increment: nat)
    ensures
        prior_total(prior) <= accumulated(prior, increment),
        prior_total(prior) <= prior_total(Some(updated_content(prior, increment))),
        prior_total(prior) + increment <= u64::MAX ==> prior_total(
            Some(updated_content(prior, increment)),
        ) == prior_total(prior) + increment,
{
    lemma_content_records_total(prior, increment);
}

/// The total that the file content `content` records.
pub fn parse_counter(content: &str) -> (total: Option<u64>)
    ensures
        total == counter_of(content@),
{
    let chars = chars_of(content);
    if chars.len() > 0 && chars[0] == '+' {
        let digits = vstd::slice::slice_subrange(chars.as_slice(), 1, chars.len());
        parse_digits(digits)
    } else {
        parse_digits(chars.as_slice())
    }
}

impl ProxmoxExporter {
    /// The content to write to a counter file so that it records
    /// `uj_value` microjoules more than `prior`, what the file holds now;
    /// `None` where there is no such file yet.
    pub fn add_or_create(prior: Option<&str>, uj_value: u64) -> (content: String)
        ensures
            content@ == updated_content(
                match prior {
                    Some(text) => Some(text@),
                    None => None,
                },
                uj_value as nat,
            ),
    {
        let total: u64 = match prior {
            Some(text) => match parse_counter(text) {
                Some(total) => total,
                None => 0,
            },
            None => 0,
        };
        render(total.saturating_add(uj_value))
    }
}

} // verus!
