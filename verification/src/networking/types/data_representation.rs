//! The quantity in which traffic is shown, and the text of an amount of it.

use crate::text::{append_decimal, decimal, digit, digit_of, push_char};
use crate::translations::types::labels::{Labels, LabelsView};
use vstd::prelude::*;

verus! {

/// Quantity in which an amount of traffic is shown.
#[derive(Clone, Copy, Debug, PartialEq, Eq, Structural, Hash)]
pub enum DataRepr {
    /// The number of packets.
    Packets,
    /// The number of bytes.
    Bytes,
}

/// Number of thousands steps up to the multiple in which a number of bytes
/// is shown: none below a thousand, five from ten to the fifteenth on.
pub open spec fn multiple_of(amount: nat) -> nat {
    if amount < 1_000 {
        0
    } else if amount < 1_000_000 {
        1
    } else if amount < 1_000_000_000 {
        2
    } else if amount < 1_000_000_000_000 {
        3
    } else if amount < 1_000_000_000_000_000 {
        4
    } else {
        5
    }
}

/// Number of bytes in one unit of the multiple: a thousand to the power of
/// `multiple`, for the multiples up to five.
pub open spec fn multiplier(multiple: nat) -> nat {
    if multiple == 0 {
        1
    } else if multiple == 1 {
        1_000
    } else if multiple == 2 {
        1_000_000
    } else if multiple == 3 {
        1_000_000_000
    } else if multiple == 4 {
        1_000_000_000_000
    } else {
        1_000_000_000_000_000
    }
}

/// Letter of the multiple: K, M, G, T, P.
pub open spec fn multiple_letter(multiple: nat) -> char {
    if multiple == 1 {
        'K'
    } else if multiple == 2 {
        'M'
    } else if multiple == 3 {
        'G'
    } else if multiple == 4 {
        'T'
    } else {
        'P'
    }
}

/// Text of a number of bytes. Below a thousand it is the number, a space
/// and `B`. From a thousand on it is the number of whole units of the
/// multiple, a point, the tenths of a unit cut off to one digit, a space,
/// the letter of the multiple and `B`.
pub open spec fn bytes_text(amount: nat) -> Seq<char> {
    let multiple = multiple_of(amount);
    if multiple == 0 {
        decimal(amount) + seq![' ', 'B']
    } else {
        let unit = multiplier(multiple);
        decimal(amount / unit) + seq!['.'] + seq![digit(amount % unit / (unit / 10))] + seq![
            ' ',
            multiple_letter(multiple),
            'B',
        ]
    }
}

/// Text of an amount of traffic in the given quantity: the plain number for
/// packets, the number in its multiple for bytes.
pub open spec fn amount_text(data_repr: DataRepr, amount: nat) -> Seq<char> {
    match data_repr {
        DataRepr::Packets => decimal(amount),
        DataRepr::Bytes => bytes_text(amount),
    }
}

/// The multiple in which a number of bytes is shown, with the number of
/// bytes in one unit of it and its letter.
fn multiple_for(amount: u128) -> (found: (u8, u128, char))
    ensures
        found.0 == multiple_of(amount as nat),
        found.1 == multiplier(found.0 as nat),
        found.2 == multiple_letter(found.0 as nat),
{
    if amount < 1_000 {
        (0, 1, 'P')
    } else if amount < 1_000_000 {
        (1, 1_000, 'K')
    } else if amount < 1_000_000_000 {
        (2, 1_000_000, 'M')
    } else if amount < 1_000_000_000_000 {
        (3, 1_000_000_000, 'G')
    } else if amount < 1_000_000_000_000_000 {
        (4, 1_000_000_000_000, 'T')
    } else {
        (5, 1_000_000_000_000_000, 'P')
    }
}

impl DataRepr {
    /// The word for the quantity.
    pub open spec fn label(self, labels: LabelsView) -> Seq<char> {
        match self {
            DataRepr::Packets => labels.packets,
            DataRepr::Bytes => labels.bytes,
        }
    }

    /// The word for the quantity in the language of the given words.
    pub fn get_label<'a>(&self, labels: &'a Labels) -> (label: &'a String)
        ensures
            label@ == self.label(labels@),
    {
        match self {
            DataRepr::Packets => &labels.packets,
            DataRepr::Bytes => &labels.bytes,
        }
    }

    /// The text of an amount of traffic in this quantity.
    pub fn formatted_string(self, amount: u128) -> (text: String)
        ensures
            text@ == amount_text(self, amount as nat),
    {
        let mut text = String::new();
        match self {
            DataRepr::Packets => {
                append_decimal(&mut text, amount);
            },
            DataRepr::Bytes => {
                let (multiple, unit, letter) = multiple_for(amount);
                if multiple == 0 {
                    append_decimal(&mut text, amount);
                    push_char(&mut text, ' ');
                    push_char(&mut text, 'B');
                } else {
                    let tenths: u128 = amount % unit / (unit / 10);
                    assert(tenths < 10) by {
                        if multiple == 1 {
                            assert(amount % 1_000 / 100 < 10);
                        } else if multiple == 2 {
                            assert(amount % 1_000_000 / 100_000 < 10);
                        } else if multiple == 3 {
                            assert(amount % 1_000_000_000 / 100_000_000 < 10);
                        } else if multiple == 4 {
                            assert(amount % 1_000_000_000_000 / 100_000_000_000 < 10);
                        } else {
                            assert(amount % 1_000_000_000_000_000 / 100_000_000_000_000 < 10);
                        }
                    }
                    append_decimal(&mut text, amount / unit);
                    push_char(&mut text, '.');
                    push_char(&mut text, digit_of(tenths as u8));
                    push_char(&mut text, ' ');
                    push_char(&mut text, letter);
                    push_char(&mut text, 'B');
                }
                assert(text@ =~= bytes_text(amount as nat));
            },
        }
        text
    }
}

} // verus!
