//! Validated parameter values for bulb commands: brightness, color
//! temperature, relative percentage step, packed RGB color, and the
//! transition effect.

use vstd::prelude::*;

verus! {

/// Transition style for a property change: a timed ramp over a given
/// number of milliseconds, or an instant switch.
#[derive(Copy, Clone, Debug, PartialEq, Eq, Structural)]
pub enum Effect {
    Smooth(u16),
    Sudden,
}

impl Effect {
    /// Wire name of the effect, as it appears in a command's parameter list.
    pub open spec fn spec_effect(self) -> Seq<char> {
        match self {
            Effect::Smooth(_) => "smooth"@,
            Effect::Sudden => "sudden"@,
        }
    }

    /// Duration of the effect in milliseconds; a sudden switch always
    /// reports zero.
    pub open spec fn spec_duration(self) -> u16 {
        match self {
            Effect::Smooth(d) => d,
            Effect::Sudden => 0,
        }
    }

    pub fn effect(&self) -> (r: &'static str)
        ensures
            r@ == self.spec_effect(),
    {
        match self {
            Effect::Smooth(_) => "smooth",
            Effect::Sudden => "sudden",
        }
    }

    pub fn duration(&self) -> (r: u16)
        ensures
            r == self.spec_duration(),
    {
        match self {
            Effect::Smooth(d) => *d,
            Effect::Sudden => 0,
        }
    }
}

/// A value fell outside the closed range a parameter type accepts.
/// Carries the offending value together with both bounds.
#[derive(Copy, Clone, Debug, PartialEq, Eq, Structural)]
pub struct RangeError {
    pub value: i32,
    pub min: i32,
    pub max: i32,
}

/// A parameter type whose values are drawn from one closed inclusive
/// integer range.
pub trait BoundedRange: Sized {
    spec fn spec_min() -> i32;

    spec fn spec_max() -> i32;

    fn valid_range(value: i32) -> (r: bool)
        ensures
            r == (Self::spec_min() <= value && value <= Self::spec_max());
}

/// Brightness level of the bulb, from 1 to 100 percent.
#[derive(Copy, Clone, Debug, PartialEq, Eq, Structural)]
pub struct Brightness(pub u16);

impl BoundedRange for Brightness {
    open spec fn spec_min() -> i32 {
        1
    }

    open spec fn spec_max() -> i32 {
        100
    }

    fn valid_range(value: i32) -> (r: bool)
        ensures
            r == (Self::spec_min() <= value && value <= Self::spec_max()),
    {
        1 <= value && value <= 100
    }
}

impl Brightness {
    pub const MIN: u16 = 1;

    pub const MAX: u16 = 100;

    /// Validating constructor: accepts exactly the values in
    /// [`Brightness::MIN`, `Brightness::MAX`].
    pub fn new(brightness: u16) -> (r: Result<Self, RangeError>)
        ensures
            (1 <= brightness && brightness <= 100) <==> r is Ok,
            r is Ok ==> r->Ok_0 == Brightness(brightness),
            r is Err ==> r->Err_0 == (RangeError { value: brightness as i32, min: 1, max: 100 }),
    {
        if Self::valid_range(brightness as i32) {
            Ok(Brightness(brightness))
        } else {
            Err(RangeError { value: brightness as i32, min: 1, max: 100 })
        }
    }
}

/// Color temperature of the bulb in kelvin, from 1700 to 6500.
#[derive(Copy, Clone, Debug, PartialEq, Eq, Structural)]
pub struct Temperature(pub u16);

impl BoundedRange for Temperature {
    open spec fn spec_min() -> i32 {
        1700
    }

    open spec fn spec_max() -> i32 {
        6500
    }

    fn valid_range(value: i32) -> (r: bool)
        ensures
            r == (Self::spec_min() <= value && value <= Self::spec_max()),
    {
        1700 <= value && value <= 6500
    }
}

impl Temperature {
    pub const MIN: u16 = 1700;

    pub const MAX: u16 = 6500;

    /// Validating constructor: accepts exactly the values in
    /// [`Temperature::MIN`, `Temperature::MAX`].
    pub fn new(temperature: u16) -> (r: Result<Self, RangeError>)
        ensures
            (1700 <= temperature && temperature <= 6500) <==> r is Ok,
            r is Ok ==> r->Ok_0 == Temperature(temperature),
            r is Err ==> r->Err_0 == (RangeError {
                value: temperature as i32,
                min: 1700,
                max: 6500,
            }),
    {
        if Self::valid_range(temperature as i32) {
            Ok(Temperature(temperature))
        } else {
            Err(RangeError { value: temperature as i32, min: 1700, max: 6500 })
        }
    }
}

/// Signed relative brightness step in percentage points, from -100 to 100.
#[derive(Copy, Clone, Debug, PartialEq, Eq, Structural)]
pub struct Percentage(pub i16);

impl BoundedRange for Percentage {
    open spec fn spec_min() -> i32 {
        -100i32
    }

    open spec fn spec_max() -> i32 {
        100
    }

    fn valid_range(value: i32) -> (r: bool)
        ensures
            r == (Self::spec_min() <= value && value <= Self::spec_max()),
    {
        -100 <= value && value <= 100
    }
}

impl Percentage {
    pub const MIN: i16 = -100;

    pub const MAX: i16 = 100;

    /// Validating constructor: accepts exactly the values in
    /// [`Percentage::MIN`, `Percentage::MAX`].
    pub fn new(percentage: i16) -> (r: Result<Self, RangeError>)
        ensures
            (-100 <= percentage && percentage <= 100) <==> r is Ok,
            r is Ok ==> r->Ok_0 == Percentage(percentage),
            r is Err ==> r->Err_0 == (RangeError {
                value: percentage as i32,
                min: -100i32,
                max: 100,
            }),
    {
        if Self::valid_range(percentage as i32) {
            Ok(Percentage(percentage))
        } else {
            Err(RangeError { value: percentage as i32, min: -100, max: 100 })
        }
    }
}

impl From<u16> for Brightness {
    /// Unchecked wrap, used when a level reported by the bulb itself is
    /// taken back as-is; validation happens only in [`Brightness::new`].
    fn from(value: u16) -> (r: Self) {
        Brightness(value)
    }
}

impl vstd::std_specs::convert::FromSpecImpl<u16> for Brightness {
    open spec fn obeys_from_spec() -> bool {
        true
    }

    open spec fn from_spec(value: u16) -> Self {
        Brightness(value)
    }
}

impl From<u16> for Temperature {
    /// Unchecked wrap, used when a temperature reported by the bulb itself
    /// is taken back as-is; validation happens only in [`Temperature::new`].
    fn from(value: u16) -> (r: Self) {
        Temperature(value)
    }
}

impl vstd::std_specs::convert::FromSpecImpl<u16> for Temperature {
    open spec fn obeys_from_spec() -> bool {
        true
    }

    open spec fn from_spec(value: u16) -> Self {
        Temperature(value)
    }
}

impl From<i16> for Percentage {
    fn from(value: i16) -> (r: Self) {
        Percentage(value)
    }
}

impl vstd::std_specs::convert::FromSpecImpl<i16> for Percentage {
    open spec fn obeys_from_spec() -> bool {
        true
    }

    open spec fn from_spec(value: i16) -> Self {
        Percentage(value)
    }
}

/// A string rejected by [`Color::from_hex`]: wrong length or a
/// non-hexadecimal character. The offending input is carried along.
#[derive(Clone, Debug)]
pub enum ColorError {
    InvalidColor(String),
}

/// 24-bit packed RGB color, constructed from exactly six hexadecimal
/// digits, case-insensitive.
#[derive(Copy, Clone, Debug, PartialEq, Eq, Structural)]
pub struct Color(pub u32);

/// Whether `c` is an ASCII hexadecimal digit, either case.
pub open spec fn is_hex_digit(c: char) -> bool {
    ('0' as u32 <= c as u32 && c as u32 <= '9' as u32) || ('a' as u32 <= c as u32 && c as u32
        <= 'f' as u32) || ('A' as u32 <= c as u32 && c as u32 <= 'F' as u32)
}

/// Numeric value of one hexadecimal digit; lower and upper case agree.
pub open spec fn hex_digit_value(c: char) -> int {
    if '0' as u32 <= c as u32 && c as u32 <= '9' as u32 {
        c as u32 - '0' as u32
    } else if 'a' as u32 <= c as u32 && c as u32 <= 'f' as u32 {
        c as u32 - 'a' as u32 + 10
    } else {
        c as u32 - 'A' as u32 + 10
    }
}

/// Value denoted by a string of hexadecimal digits, most significant first.
pub open spec fn hex_value(s: Seq<char>) -> int
    decreases s.len(),
{
    if s.len() == 0 {
        0
    } else {
        hex_value(s.drop_last()) * 16 + hex_digit_value(s.last())
    }
}

/// Whether every character of `s` is a hexadecimal digit.
pub open spec fn all_hex_digits(s: Seq<char>) -> bool {
    forall|i: int| 0 <= i < s.len() ==> is_hex_digit(#[trigger] s[i])
}

/// 16 raised to `n`, the number of values `n` hexadecimal digits can denote.
pub open spec fn pow16(n: int) -> int
    decreases n,
{
    if n <= 0 {
        1
    } else {
        16 * pow16(n - 1)
    }
}

proof fn lemma_hex_value_bound(s: Seq<char>)
    requires
        all_hex_digits(s),
    ensures
        0 <= hex_value(s) < pow16(s.len() as int),
    decreases s.len(),
{
    if s.len() > 0 {
        assert(all_hex_digits(s.drop_last())) by {
            assert(forall|i: int|
                0 <= i < s.len() - 1 ==> #[trigger] s.drop_last()[i] == s[i]);
        }
        lemma_hex_value_bound(s.drop_last());
    }
}

impl Color {
    /// Parses exactly six hexadecimal digits, case-insensitive, into the
    /// packed 24-bit value `0xRRGGBB`. Any other length, or any character
    /// that is not a hexadecimal digit, is rejected; short strings are
    /// not zero-padded.
    pub fn from_hex(hex: &str) -> (r: Result<Color, ColorError>)
        ensures
            (hex@.len() == 6 && all_hex_digits(hex@)) <==> r is Ok,
            r is Ok ==> r->Ok_0.0 == hex_value(hex@),
            r is Err ==> r->Err_0->InvalidColor_0@ == hex@,
    {
        let len = hex.unicode_len();
        if len != 6 {
            return Err(ColorError::InvalidColor(hex.to_owned()));
        }
        let mut acc: u32 = 0;
        let mut i: usize = 0;
        while i < 6
            invariant
                i <= 6,
                hex@.len() == 6,
                all_hex_digits(hex@.subrange(0, i as int)),
                acc as int == hex_value(hex@.subrange(0, i as int)),
                (acc as int) < pow16(i as int),
            decreases 6 - i,
        {
            let c = hex.get_char(i);
            let u = c as u32;
            let d: u32 = if 48 <= u && u <= 57 {
                u - 48
            } else if 97 <= u && u <= 102 {
                u - 87
            } else if 65 <= u && u <= 70 {
                u - 55
            } else {
                assert(!is_hex_digit(hex@[i as int]));
                return Err(ColorError::InvalidColor(hex.to_owned()));
            };
            proof {
                reveal_with_fuel(pow16, 7);
                assert(pow16(i as int) <= pow16(5)) by {
                    lemma_pow16_monotone(i as int, 5);
                }
                assert(pow16(5) == 1048576);
            }
            let ghost pre = hex@.subrange(0, i as int);
            acc = acc * 16 + d;
            i = i + 1;
            proof {
                let post = hex@.subrange(0, i as int);
                assert(post.drop_last() =~= pre);
                assert(post.last() == hex@[i - 1]);
                assert(d == hex_digit_value(hex@[i - 1]));
            }
        }
        proof {
            assert(hex@.subrange(0, 6) =~= hex@);
            reveal_with_fuel(pow16, 7);
        }
        Ok(Color(acc))
    }
}

proof fn lemma_pow16_monotone(m: int, n: int)
    requires
        m <= n,
    ensures
        pow16(m) <= pow16(n),
        pow16(m) >= 1,
    decreases n - m,
{
    if m < n {
        lemma_pow16_monotone(m, n - 1);
    } else {
        lemma_pow16_positive(m);
    }
}

proof fn lemma_pow16_positive(n: int)
    ensures
        pow16(n) >= 1,
    decreases n,
{
    if n > 0 {
        lemma_pow16_positive(n - 1);
    }
}

} // verus!
