//! The radio, the logging and the version rules of the Rebels client.

pub mod audio;
pub mod decimal;
pub mod logging;
mod text;

use crate::decimal::{decimal_value, parse_decimal};
use vstd::prelude::*;

verus! {

/// What the application shows of the player.
#[derive(Debug, Clone, Copy, PartialEq, Eq, Structural)]
pub enum AudioPlayerState {
    Playing,
    Paused,
    Disabled,
}

/// The number that `text` writes, or 0.
pub open spec fn version_number(text: Seq<char>) -> usize {
    match decimal_value(text) {
        Some(number) => number,
        None => 0,
    }
}

/// The number that `text` writes, or 0.
fn number_or_zero(text: &str) -> (number: usize)
    ensures
        number == version_number(text@),
{
    match parse_decimal(text) {
        Some(number) => number,
        None => 0,
    }
}

/// The version of the client, from the three parts of the version of its
/// package. A part that is not a number counts as 0.
#[must_use]
pub fn app_version(major: &str, minor: &str, patch: &str) -> (version: [usize; 3])
    ensures
        version@ == seq![
            version_number(major@),
            version_number(minor@),
            version_number(patch@),
        ],
{
    [number_or_zero(major), number_or_zero(minor), number_or_zero(patch)]
}

/// A part of a version counts as the number that it writes, and as 0 only if it
/// writes 0 or none.
pub proof fn law_version_parts_are_numbers(text: Seq<char>)
    ensures
        decimal_value(text) matches Some(number) ==> version_number(text) == number,
        decimal_value(text) is None ==> version_number(text) == 0,
{
}

/// A call of `app_version` puts the parts in their order.
pub proof fn law_app_version_keeps_the_order(
    major: &str,
    minor: &str,
    patch: &str,
    version: [usize; 3],
)
    requires
        call_ensures(app_version, (major, minor, patch), version),
    ensures
        version@[0] == version_number(major@),
        version@[1] == version_number(minor@),
        version@[2] == version_number(patch@),
{
}

} // verus!
