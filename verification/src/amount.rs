//! Monetary values: a euro amount held as a signed whole number of
//! cents, with a locale-neutral decimal parser and two-decimal display.

use vstd::arithmetic::div_mod::lemma_div_is_ordered;
use vstd::arithmetic::div_mod::lemma_fundamental_div_mod;
use vstd::prelude::*;
use vstd::string::StrSliceExecFns;

use crate::text::dec2_str;
use crate::text::dec_str;
use crate::text::digit_seq_val;
use crate::text::is_digit_seq;
use crate::text::lemma_digit_seq_val_bounds;
use crate::text::parse_digits_max;
use crate::text::parse_u32_digits;
use crate::text::pow10;
use crate::text::push_char;
use crate::text::push_dec2;
use crate::text::push_u64_dec;
use crate::text::split_chars;
use crate::text::split_str;

verus! {

/// An amount of money in euros, held as a signed whole number of cents;
/// positive means inflow.
#[derive(Debug, Clone, Copy, PartialEq, Eq, Structural)]
pub struct Amount {
    cents: i64,
}

impl View for Amount {
    type V = int;

    closed spec fn view(&self) -> int {
        self.cents as int
    }
}

/// The cents written by a decimal number: an optional sign, digits for
/// the units, and optionally a dot and one or two fraction digits, `12`,
/// `-12.5` or `-12.50`; absence on any other shape, and on a magnitude
/// too large for the cent count.
pub open spec fn spec_amount_cents(s: Seq<char>) -> Option<int> {
    if s.len() == 0 {
        None
    } else {
        let neg = s[0] == '-';
        let body = if s[0] == '-' || s[0] == '+' {
            s.drop_first()
        } else {
            s
        };
        let parts = split_chars(body, '.');
        if parts.len() == 1 && parts[0].len() > 0 && is_digit_seq(parts[0]) {
            let mag = digit_seq_val(parts[0]) * 100;
            if mag <= i64::MAX {
                Some(
                    if neg {
                        -mag
                    } else {
                        mag
                    },
                )
            } else {
                None
            }
        } else if parts.len() == 2 && parts[0].len() > 0 && is_digit_seq(parts[0]) && 1 <= parts[1].len()
            <= 2 && is_digit_seq(parts[1]) {
            let frac = digit_seq_val(parts[1]) * (
            if parts[1].len() == 1 {
                10int
            } else {
                1int
            });
            let mag = digit_seq_val(parts[0]) * 100 + frac;
            if mag <= i64::MAX {
                Some(
                    if neg {
                        -mag
                    } else {
                        mag
                    },
                )
            } else {
                None
            }
        } else {
            None
        }
    }
}

/// The displayed form of a cent count: an optional minus sign, the
/// units, a dot, exactly two fraction digits, and the euro sign.
pub open spec fn spec_amount_display(cents: int) -> Seq<char> {
    let mag = if cents < 0 {
        -cents
    } else {
        cents
    };
    (if cents < 0 {
        seq!['-']
    } else {
        Seq::<char>::empty()
    }) + dec_str(mag / 100) + seq!['.'] + dec2_str(mag % 100) + seq!['€']
}

/// `u * 100 + f` stays within `m` exactly when `u` stays within
/// `(m - f) / 100`.
proof fn lemma_cents_bound(u: int, f: int, m: int)
    requires
        0 <= u,
        0 <= f <= m,
    ensures
        u * 100 + f <= m <==> u <= (m - f) / 100,
{
    if u <= (m - f) / 100 {
        assert(u * 100 <= ((m - f) / 100) * 100) by (nonlinear_arith)
            requires
                u <= (m - f) / 100,
        ;
        lemma_fundamental_div_mod(m - f, 100);
    }
    if u * 100 + f <= m {
        assert(u == (u * 100) / 100) by (nonlinear_arith);
        lemma_div_is_ordered(u * 100, m - f, 100);
    }
}

impl Amount {
    /// Wraps a signed number of cents; any value is accepted.
    pub fn from_cents(cents: i64) -> (r: Amount)
        ensures
            r@ == cents,
    {
        Amount { cents }
    }

    /// The amount as a signed number of cents.
    pub fn cents(&self) -> (r: i64)
        ensures
            r == self@,
    {
        self.cents
    }

    /// Parses a euro amount written with a dot as decimal separator, per
    /// [`spec_amount_cents`]: absence, never an error, on anything
    /// malformed. Any locale adaptation, such as turning a decimal comma
    /// into a dot, is the caller's to do beforehand.
    pub fn parse_euro(text: &str) -> (r: Option<Amount>)
        ensures
            match spec_amount_cents(text@) {
                Some(c) => r matches Some(a) && a@ == c,
                None => r is None,
            },
    {
        let n = text.unicode_len();
        if n == 0 {
            return None;
        }
        let c0 = text.get_char(0);
        let neg = c0 == '-';
        let start: usize = if c0 == '-' || c0 == '+' {
            1
        } else {
            0
        };
        let body = text.substring_char(start, n);
        proof {
            if c0 == '-' || c0 == '+' {
                assert(body@ =~= text@.drop_first());
            } else {
                assert(body@ =~= text@);
            }
        }
        let parts = split_str(body, '.');
        proof {
            assert(parts.deep_view() == split_chars(body@, '.'));
            assert(pow10(0) == 1);
            assert(pow10(1) == 10);
            assert(pow10(2) == 100);
        }
        if parts.len() == 1 {
            proof {
                assert(parts.deep_view()[0] == parts@[0]@);
            }
            let us: &String = &parts[0];
            let u = match parse_digits_max(us.as_str(), 92233720368547758) {
                Some(v) => v,
                None => {
                    proof {
                        if is_digit_seq(us@) {
                            lemma_digit_seq_val_bounds(us@);
                            lemma_cents_bound(digit_seq_val(us@), 0, i64::MAX as int);
                        }
                    }
                    return None;
                },
            };
            proof {
                lemma_cents_bound(u as int, 0, i64::MAX as int);
            }
            let mag = u * 100;
            Some(Amount::signed(mag, neg))
        } else if parts.len() == 2 {
            proof {
                assert(parts.deep_view()[0] == parts@[0]@);
                assert(parts.deep_view()[1] == parts@[1]@);
            }
            let us: &String = &parts[0];
            let fs: &String = &parts[1];
            let fl = fs.as_str().unicode_len();
            if fl == 0 || fl > 2 {
                return None;
            }
            proof {
                if is_digit_seq(fs@) {
                    lemma_digit_seq_val_bounds(fs@);
                }
            }
            let f = match parse_u32_digits(fs.as_str()) {
                Some(v) => v,
                None => {
                    return None;
                },
            };
            let f_scaled: u64 = if fl == 1 {
                (f as u64) * 10
            } else {
                f as u64
            };
            let fmax = (9223372036854775807 - f_scaled) / 100;
            let u = match parse_digits_max(us.as_str(), fmax) {
                Some(v) => v,
                None => {
                    proof {
                        if is_digit_seq(us@) {
                            lemma_digit_seq_val_bounds(us@);
                            lemma_cents_bound(
                                digit_seq_val(us@),
                                f_scaled as int,
                                i64::MAX as int,
                            );
                        }
                    }
                    return None;
                },
            };
            proof {
                lemma_cents_bound(u as int, f_scaled as int, i64::MAX as int);
            }
            let mag = u * 100 + f_scaled;
            Some(Amount::signed(mag, neg))
        } else {
            None
        }
    }

    /// The magnitude with the requested sign, as an amount.
    fn signed(mag: u64, neg: bool) -> (r: Amount)
        requires
            mag <= i64::MAX,
        ensures
            r@ == if neg {
                -(mag as int)
            } else {
                mag as int
            },
    {
        if neg {
            Amount { cents: -(mag as i64) }
        } else {
            Amount { cents: mag as i64 }
        }
    }

    /// The displayed form of the amount, per [`spec_amount_display`]:
    /// two fraction digits and the euro sign, `-101.00€`.
    pub fn to_display_string(&self) -> (r: String)
        ensures
            r@ == spec_amount_display(self@),
    {
        let mut out = String::new();
        let mag: u64 = if self.cents < 0 {
            proof {
                assert(-(self.cents as i128) <= u64::MAX as i128);
            }
            (-(self.cents as i128)) as u64
        } else {
            self.cents as u64
        };
        if self.cents < 0 {
            push_char(&mut out, '-');
        }
        push_u64_dec(&mut out, mag / 100);
        push_char(&mut out, '.');
        push_dec2(&mut out, mag % 100);
        push_char(&mut out, '€');
        proof {
            assert(out@ =~= spec_amount_display(self@));
        }
        out
    }
}

} // verus!
