//! The charge and the state of the battery.

use crate::error::{value_result, ErrorModel, ReadoutError};
use crate::number::{
    decimal, lemma_parse_decimal_of_decimal, parse_bounded, parse_decimal, parse_unsigned,
};
use crate::text::{
    chars_of, equals_ignoring_case, fold_case, opt_text, pop_newline, same_ignoring_case,
    without_newline,
};
use vstd::prelude::*;

verus! {

/// Where the kernel prints the charge of the battery, in percent.
pub const CAPACITY_PATH: &'static str = "/sys/class/power_supply/battery/capacity";

/// Where the kernel prints the state of the battery.
pub const STATUS_PATH: &'static str = "/sys/class/power_supply/battery/status";

/// Whether the battery takes or gives current. A full battery counts as
/// discharging.
#[derive(Clone, Copy, Debug, PartialEq, Eq, Structural)]
pub enum BatteryState {
    Charging,
    Discharging,
}

/// What `percentage` returns for the text of the capacity file, or for
/// `None` where the file could not be read.
pub open spec fn percentage_of(capacity: Option<Seq<char>>) -> Result<u8, ErrorModel> {
    match capacity {
        None => Err(ErrorModel::IoFailure),
        Some(text) => match parse_bounded(pop_newline(text), 255) {
            Some(n) => Ok(n as u8),
            None => Err(
                ErrorModel::ParseFailure {
                    raw: pop_newline(text),
                    source: CAPACITY_PATH@,
                    target: "u8"@,
                },
            ),
        },
    }
}

/// What `status` returns for the text of the status file, or for `None`
/// where the file could not be read.
pub open spec fn status_of(status: Option<Seq<char>>) -> Result<BatteryState, ErrorModel> {
    match status {
        None => Err(ErrorModel::IoFailure),
        Some(text) => {
            let word = pop_newline(text);
            if same_ignoring_case(word, "charging"@) {
                Ok(BatteryState::Charging)
            } else if same_ignoring_case(word, "discharging"@) || same_ignoring_case(
                word,
                "full"@,
            ) {
                Ok(BatteryState::Discharging)
            } else {
                Err(ErrorModel::UnexpectedValue { raw: word, source: STATUS_PATH@ })
            }
        },
    }
}

/// The decimal text of a number up to 255 reads back as that number.
pub proof fn lemma_percentage_of_decimal(n: nat)
    requires
        n <= 255,
    ensures
        percentage_of(Some(decimal(n))) == Ok::<u8, ErrorModel>(n as u8),
{
    lemma_parse_decimal_of_decimal(n);
    let s = decimal(n);
    assert(s.last() != '\n');
}

/// A text that writes no number, or one above 255, is a parse failure that
/// carries the text.
pub proof fn lemma_percentage_rejects(text: Seq<char>)
    requires
        parse_decimal(pop_newline(text)) is None || parse_decimal(pop_newline(text))->Some_0 > 255,
    ensures
        percentage_of(Some(text)) == Err::<u8, ErrorModel>(
            ErrorModel::ParseFailure {
                raw: pop_newline(text),
                source: CAPACITY_PATH@,
                target: "u8"@,
            },
        ),
{
}

/// Two texts that differ only in the case of ASCII letters give the same
/// state, or both give none.
pub proof fn lemma_status_ignores_case(a: Seq<char>, b: Seq<char>)
    requires
        same_ignoring_case(a, b),
    ensures
        status_of(Some(a)) is Ok <==> status_of(Some(b)) is Ok,
        status_of(Some(a)) is Ok ==> status_of(Some(a))->Ok_0 == status_of(Some(b))->Ok_0,
{
    let x = pop_newline(a);
    let y = pop_newline(b);
    if a.len() > 0 {
        assert(fold_case(a[a.len() - 1]) == fold_case(b[a.len() - 1]));
        assert((a.last() == '\n') == (b.last() == '\n'));
    }
    assert(x.len() == y.len());
    assert(same_ignoring_case(x, y)) by {
        assert forall|i: int| 0 <= i < x.len() implies fold_case(#[trigger] x[i]) == fold_case(
            y[i],
        ) by {
            assert(x[i] == a[i] && y[i] == b[i]);
        }
    }
    assert forall|w: Seq<char>| same_ignoring_case(x, w) == same_ignoring_case(y, w) by {
        if x.len() == w.len() {
            if same_ignoring_case(x, w) {
                assert forall|i: int| 0 <= i < y.len() implies fold_case(#[trigger] y[i])
                    == fold_case(w[i]) by {
                    assert(fold_case(x[i]) == fold_case(w[i]));
                }
            }
            if same_ignoring_case(y, w) {
                assert forall|i: int| 0 <= i < x.len() implies fold_case(#[trigger] x[i])
                    == fold_case(w[i]) by {
                    assert(fold_case(y[i]) == fold_case(w[i]));
                }
            }
        }
    }
}

/// Reads the battery.
pub struct AndroidBatteryReadout;

impl AndroidBatteryReadout {
    pub fn new() -> Self {
        AndroidBatteryReadout
    }

    /// The charge in percent, from the text of the capacity file.
    pub fn percentage(&self, capacity: Option<&str>) -> (r: Result<u8, ReadoutError>)
        ensures
            value_result(r) == percentage_of(opt_text(capacity)),
    {
        match capacity {
            None => Err(ReadoutError::IoFailure),
            Some(text) => {
                let raw = without_newline(&chars_of(text));
                match parse_unsigned(&raw, 255) {
                    Some(n) => Ok(n as u8),
                    None => Err(ReadoutError::parse_failure(&raw, CAPACITY_PATH, "u8")),
                }
            },
        }
    }

    /// The state of the battery, from the text of the status file.
    pub fn status(&self, status: Option<&str>) -> (r: Result<BatteryState, ReadoutError>)
        ensures
            value_result(r) == status_of(opt_text(status)),
    {
        match status {
            None => Err(ReadoutError::IoFailure),
            Some(text) => {
                let word = without_newline(&chars_of(text));
                if equals_ignoring_case(&word, &chars_of("charging")) {
                    Ok(BatteryState::Charging)
                } else if equals_ignoring_case(&word, &chars_of("discharging"))
                    || equals_ignoring_case(&word, &chars_of("full")) {
                    Ok(BatteryState::Discharging)
                } else {
                    Err(ReadoutError::unexpected_value(&word, STATUS_PATH))
                }
            },
        }
    }
}

} // verus!
