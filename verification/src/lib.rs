//! Human-readable representations of numbers: counts with metric prefixes,
//! durations from nanoseconds to hours, and throughput rates.
//!
//! Values are exact decimal magnitudes: a mantissa of at most 17
//! significant digits and a decimal exponent, the shortest-form contents
//! of a double-precision number. Every conversion is a pure function of
//! that pair, and each formatted result is pinned down, character for
//! character, by a specification function.
//!
//! The formatting policy is resolved once for the whole build: metric
//! prefixes, a scale divisor of 1000 and no space between the numeral
//! and its suffix. The scale scan itself is policy-free.

pub mod digits;
pub mod human_count;
pub mod human_duration;
pub mod human_throughput;
pub mod render;
mod sealed;
pub mod utils;
pub mod value;

pub use render::{DisplayCompare, Sink, StringSink};
pub use value::{rounded, Magnitude};

use vstd::prelude::*;
use crate::human_count::{format_count_spec, write_count};
use crate::human_duration::{format_duration_spec, write_duration, DUR_EXP_LIMIT};
use crate::human_throughput::{format_throughput_spec, write_throughput};
use crate::value::{from_int_spec, magnitude_from_parts};

verus! {

/// Count data: a magnitude and a unit label, ready to take its
/// human-readable representation.
pub struct HumanCountData {
    /// The converted value.
    pub val: Magnitude,
    /// The unit label, appended after the metric prefix.
    pub unit: String,
}

/// Duration data: a magnitude in seconds, ready to take its
/// human-readable representation.
pub struct HumanDurationData {
    /// The converted value, in seconds.
    pub val: Magnitude,
}

/// Throughput data: a magnitude in units per second and a unit label,
/// ready to take its human-readable representation.
pub struct HumanThroughputData {
    /// The converted value, in units per second.
    pub val: Magnitude,
    /// The unit label, placed before the rate suffix.
    pub unit: String,
}

/// Anything that can produce its representation through a comparison
/// cursor, so equality checks need not build the string.
pub trait Rendered {
    /// Whether the value is within the bounds the writer supports.
    spec fn ready(&self) -> bool;

    /// The characters of the representation.
    spec fn output(&self) -> Seq<char>;

    /// Feeds the representation to a comparison cursor.
    fn stream(&self, out: &mut DisplayCompare<'_>)
        requires
            old(out).inv(),
            self.ready(),
        ensures
            final(out).inv(),
            final(out).fed() == old(out).fed() + self.output(),
            final(out).target() == old(out).target(),
    ;
}

/// Checks the representation of `human` against `expected` character by
/// character, without building the representation: the outcome is exactly
/// whether the two strings are equal.
pub fn display_compare<T: Rendered>(expected: &str, human: &T) -> (b: bool)
    requires
        human.ready(),
    ensures
        b == (expected@ == human.output()),
{
    let mut cursor = DisplayCompare::new(expected);
    human.stream(&mut cursor);
    proof {
        assert(Seq::<char>::empty() + human.output() =~= human.output());
    }
    cursor.matched()
}

impl Rendered for HumanCountData {
    open spec fn ready(&self) -> bool {
        self.val.wf()
    }

    open spec fn output(&self) -> Seq<char> {
        format_count_spec(self.val, self.unit@)
    }

    fn stream(&self, out: &mut DisplayCompare<'_>) {
        write_count(&self.val, self.unit.as_str(), out);
    }
}

impl Rendered for HumanDurationData {
    open spec fn ready(&self) -> bool {
        self.val.wf() && self.val.exp <= DUR_EXP_LIMIT
    }

    open spec fn output(&self) -> Seq<char> {
        format_duration_spec(self.val)
    }

    fn stream(&self, out: &mut DisplayCompare<'_>) {
        write_duration(&self.val, out);
    }
}

impl Rendered for HumanThroughputData {
    open spec fn ready(&self) -> bool {
        self.val.wf()
    }

    open spec fn output(&self) -> Seq<char> {
        format_throughput_spec(self.val, self.unit@)
    }

    fn stream(&self, out: &mut DisplayCompare<'_>) {
        write_throughput(&self.val, self.unit.as_str(), out);
    }
}

impl HumanCountData {
    /// Builds the representation as an owned string.
    pub fn render(&self) -> (r: String)
        requires
            self.ready(),
        ensures
            r@ == self.output(),
    {
        let mut sink = StringSink::new();
        write_count(&self.val, self.unit.as_str(), &mut sink);
        proof {
            assert(Seq::<char>::empty() + self.output() =~= self.output());
        }
        sink.into_string()
    }

    /// Whether the representation equals `expected`, checked without
    /// building the representation.
    pub fn matches(&self, expected: &str) -> (b: bool)
        requires
            self.ready(),
        ensures
            b == (expected@ == self.output()),
    {
        display_compare(expected, self)
    }
}

impl HumanDurationData {
    /// Builds the representation as an owned string.
    pub fn render(&self) -> (r: String)
        requires
            self.ready(),
        ensures
            r@ == self.output(),
    {
        let mut sink = StringSink::new();
        write_duration(&self.val, &mut sink);
        proof {
            assert(Seq::<char>::empty() + self.output() =~= self.output());
        }
        sink.into_string()
    }

    /// Whether the representation equals `expected`, checked without
    /// building the representation.
    pub fn matches(&self, expected: &str) -> (b: bool)
        requires
            self.ready(),
        ensures
            b == (expected@ == self.output()),
    {
        display_compare(expected, self)
    }
}

impl HumanThroughputData {
    /// Builds the representation as an owned string.
    pub fn render(&self) -> (r: String)
        requires
            self.ready(),
        ensures
            r@ == self.output(),
    {
        let mut sink = StringSink::new();
        write_throughput(&self.val, self.unit.as_str(), &mut sink);
        proof {
            assert(Seq::<char>::empty() + self.output() =~= self.output());
        }
        sink.into_string()
    }

    /// Whether the representation equals `expected`, checked without
    /// building the representation.
    pub fn matches(&self, expected: &str) -> (b: bool)
        requires
            self.ready(),
        ensures
            b == (expected@ == self.output()),
    {
        display_compare(expected, self)
    }
}

/// Builds the magnitude of an unsigned value.
fn magnitude_of_u128(v: u128) -> (m: Magnitude)
    ensures
        m == from_int_spec(v as int),
        m.wf(),
{
    magnitude_from_parts(false, v)
}

/// Builds the magnitude of a signed value.
fn magnitude_of_i128(v: i128) -> (m: Magnitude)
    ensures
        m == from_int_spec(v as int),
        m.wf(),
{
    if v >= 0 {
        magnitude_from_parts(false, v as u128)
    } else if v == i128::MIN {
        magnitude_from_parts(true, 170141183460469231731687303715884105728u128)
    } else {
        magnitude_from_parts(true, (-v) as u128)
    }
}

/// Count conversions, for every primitive number type and for magnitudes.
pub trait HumanCount: sealed::Sealed + Sized {
    /// The magnitude the conversion hands over.
    spec fn count_magnitude(self) -> Magnitude;

    /// Converts into count data with a custom unit label.
    fn human_count(self, unit: &str) -> (r: HumanCountData)
        ensures
            r.val == self.count_magnitude(),
            r.unit@ == unit@,
    ;

    /// Converts into count data with no unit label.
    fn human_count_bare(self) -> (r: HumanCountData)
        ensures
            r.val == self.count_magnitude(),
            r.unit@ == ""@,
    {
        self.human_count("")
    }

    /// Converts into count data with bytes as the unit.
    fn human_count_bytes(self) -> (r: HumanCountData)
        ensures
            r.val == self.count_magnitude(),
            r.unit@ == "B"@,
    {
        self.human_count("B")
    }
}

/// Duration conversions, for every primitive number type and for
/// magnitudes; the value counts seconds.
pub trait HumanDuration: sealed::Sealed + Sized {
    /// The magnitude the conversion hands over.
    spec fn duration_magnitude(self) -> Magnitude;

    /// Converts into duration data.
    fn human_duration(self) -> (r: HumanDurationData)
        ensures
            r.val == self.duration_magnitude(),
    ;
}

/// Throughput conversions, for every primitive number type and for
/// magnitudes; the value counts units per second.
pub trait HumanThroughput: sealed::Sealed + Sized {
    /// The magnitude the conversion hands over.
    spec fn throughput_magnitude(self) -> Magnitude;

    /// Converts into throughput data with a custom unit label.
    fn human_throughput(self, unit: &str) -> (r: HumanThroughputData)
        ensures
            r.val == self.throughput_magnitude(),
            r.unit@ == unit@,
    ;

    /// Converts into throughput data with no unit label.
    fn human_throughput_bare(self) -> (r: HumanThroughputData)
        ensures
            r.val == self.throughput_magnitude(),
            r.unit@ == ""@,
    {
        self.human_throughput("")
    }

    /// Converts into throughput data with bytes as the unit.
    fn human_throughput_bytes(self) -> (r: HumanThroughputData)
        ensures
            r.val == self.throughput_magnitude(),
            r.unit@ == "B"@,
    {
        self.human_throughput("B")
    }
}

impl HumanCount for Magnitude {
    open spec fn count_magnitude(self) -> Magnitude {
        self
    }

    fn human_count(self, unit: &str) -> (r: HumanCountData) {
        HumanCountData { val: self, unit: unit.to_owned() }
    }
}

impl HumanDuration for Magnitude {
    open spec fn duration_magnitude(self) -> Magnitude {
        self
    }

    fn human_duration(self) -> (r: HumanDurationData) {
        HumanDurationData { val: self }
    }
}

impl HumanThroughput for Magnitude {
    open spec fn throughput_magnitude(self) -> Magnitude {
        self
    }

    fn human_throughput(self, unit: &str) -> (r: HumanThroughputData) {
        HumanThroughputData { val: self, unit: unit.to_owned() }
    }
}

impl HumanCount for u8 {
    open spec fn count_magnitude(self) -> Magnitude {
        from_int_spec(self as int)
    }

    fn human_count(self, unit: &str) -> (r: HumanCountData) {
        HumanCountData { val: magnitude_of_u128(self as u128), unit: unit.to_owned() }
    }
}

impl HumanDuration for u8 {
    open spec fn duration_magnitude(self) -> Magnitude {
        from_int_spec(self as int)
    }

    fn human_duration(self) -> (r: HumanDurationData) {
        HumanDurationData { val: magnitude_of_u128(self as u128) }
    }
}

impl HumanThroughput for u8 {
    open spec fn throughput_magnitude(self) -> Magnitude {
        from_int_spec(self as int)
    }

    fn human_throughput(self, unit: &str) -> (r: HumanThroughputData) {
        HumanThroughputData { val: magnitude_of_u128(self as u128), unit: unit.to_owned() }
    }
}

impl HumanCount for u16 {
    open spec fn count_magnitude(self) -> Magnitude {
        from_int_spec(self as int)
    }

    fn human_count(self, unit: &str) -> (r: HumanCountData) {
        HumanCountData { val: magnitude_of_u128(self as u128), unit: unit.to_owned() }
    }
}

impl HumanDuration for u16 {
    open spec fn duration_magnitude(self) -> Magnitude {
        from_int_spec(self as int)
    }

    fn human_duration(self) -> (r: HumanDurationData) {
        HumanDurationData { val: magnitude_of_u128(self as u128) }
    }
}

impl HumanThroughput for u16 {
    open spec fn throughput_magnitude(self) -> Magnitude {
        from_int_spec(self as int)
    }

    fn human_throughput(self, unit: &str) -> (r: HumanThroughputData) {
        HumanThroughputData { val: magnitude_of_u128(self as u128), unit: unit.to_owned() }
    }
}

impl HumanCount for u32 {
    open spec fn count_magnitude(self) -> Magnitude {
        from_int_spec(self as int)
    }

    fn human_count(self, unit: &str) -> (r: HumanCountData) {
        HumanCountData { val: magnitude_of_u128(self as u128), unit: unit.to_owned() }
    }
}

impl HumanDuration for u32 {
    open spec fn duration_magnitude(self) -> Magnitude {
        from_int_spec(self as int)
    }

    fn human_duration(self) -> (r: HumanDurationData) {
        HumanDurationData { val: magnitude_of_u128(self as u128) }
    }
}

impl HumanThroughput for u32 {
    open spec fn throughput_magnitude(self) -> Magnitude {
        from_int_spec(self as int)
    }

    fn human_throughput(self, unit: &str) -> (r: HumanThroughputData) {
        HumanThroughputData { val: magnitude_of_u128(self as u128), unit: unit.to_owned() }
    }
}

impl HumanCount for u64 {
    open spec fn count_magnitude(self) -> Magnitude {
        from_int_spec(self as int)
    }

    fn human_count(self, unit: &str) -> (r: HumanCountData) {
        HumanCountData { val: magnitude_of_u128(self as u128), unit: unit.to_owned() }
    }
}

impl HumanDuration for u64 {
    open spec fn duration_magnitude(self) -> Magnitude {
        from_int_spec(self as int)
    }

    fn human_duration(self) -> (r: HumanDurationData) {
        HumanDurationData { val: magnitude_of_u128(self as u128) }
    }
}

impl HumanThroughput for u64 {
    open spec fn throughput_magnitude(self) -> Magnitude {
        from_int_spec(self as int)
    }

    fn human_throughput(self, unit: &str) -> (r: HumanThroughputData) {
        HumanThroughputData { val: magnitude_of_u128(self as u128), unit: unit.to_owned() }
    }
}

impl HumanCount for u128 {
    open spec fn count_magnitude(self) -> Magnitude {
        from_int_spec(self as int)
    }

    fn human_count(self, unit: &str) -> (r: HumanCountData) {
        HumanCountData { val: magnitude_of_u128(self as u128), unit: unit.to_owned() }
    }
}

impl HumanDuration for u128 {
    open spec fn duration_magnitude(self) -> Magnitude {
        from_int_spec(self as int)
    }

    fn human_duration(self) -> (r: HumanDurationData) {
        HumanDurationData { val: magnitude_of_u128(self as u128) }
    }
}

impl HumanThroughput for u128 {
    open spec fn throughput_magnitude(self) -> Magnitude {
        from_int_spec(self as int)
    }

    fn human_throughput(self, unit: &str) -> (r: HumanThroughputData) {
        HumanThroughputData { val: magnitude_of_u128(self as u128), unit: unit.to_owned() }
    }
}

impl HumanCount for usize {
    open spec fn count_magnitude(self) -> Magnitude {
        from_int_spec(self as int)
    }

    fn human_count(self, unit: &str) -> (r: HumanCountData) {
        HumanCountData { val: magnitude_of_u128(self as u128), unit: unit.to_owned() }
    }
}

impl HumanDuration for usize {
    open spec fn duration_magnitude(self) -> Magnitude {
        from_int_spec(self as int)
    }

    fn human_duration(self) -> (r: HumanDurationData) {
        HumanDurationData { val: magnitude_of_u128(self as u128) }
    }
}

impl HumanThroughput for usize {
    open spec fn throughput_magnitude(self) -> Magnitude {
        from_int_spec(self as int)
    }

    fn human_throughput(self, unit: &str) -> (r: HumanThroughputData) {
        HumanThroughputData { val: magnitude_of_u128(self as u128), unit: unit.to_owned() }
    }
}

impl HumanCount for i8 {
    open spec fn count_magnitude(self) -> Magnitude {
        from_int_spec(self as int)
    }

    fn human_count(self, unit: &str) -> (r: HumanCountData) {
        HumanCountData { val: magnitude_of_i128(self as i128), unit: unit.to_owned() }
    }
}

impl HumanDuration for i8 {
    open spec fn duration_magnitude(self) -> Magnitude {
        from_int_spec(self as int)
    }

    fn human_duration(self) -> (r: HumanDurationData) {
        HumanDurationData { val: magnitude_of_i128(self as i128) }
    }
}

impl HumanThroughput for i8 {
    open spec fn throughput_magnitude(self) -> Magnitude {
        from_int_spec(self as int)
    }

    fn human_throughput(self, unit: &str) -> (r: HumanThroughputData) {
        HumanThroughputData { val: magnitude_of_i128(self as i128), unit: unit.to_owned() }
    }
}

impl HumanCount for i16 {
    open spec fn count_magnitude(self) -> Magnitude {
        from_int_spec(self as int)
    }

    fn human_count(self, unit: &str) -> (r: HumanCountData) {
        HumanCountData { val: magnitude_of_i128(self as i128), unit: unit.to_owned() }
    }
}

impl HumanDuration for i16 {
    open spec fn duration_magnitude(self) -> Magnitude {
        from_int_spec(self as int)
    }

    fn human_duration(self) -> (r: HumanDurationData) {
        HumanDurationData { val: magnitude_of_i128(self as i128) }
    }
}

impl HumanThroughput for i16 {
    open spec fn throughput_magnitude(self) -> Magnitude {
        from_int_spec(self as int)
    }

    fn human_throughput(self, unit: &str) -> (r: HumanThroughputData) {
        HumanThroughputData { val: magnitude_of_i128(self as i128), unit: unit.to_owned() }
    }
}

impl HumanCount for i32 {
    open spec fn count_magnitude(self) -> Magnitude {
        from_int_spec(self as int)
    }

    fn human_count(self, unit: &str) -> (r: HumanCountData) {
        HumanCountData { val: magnitude_of_i128(self as i128), unit: unit.to_owned() }
    }
}

impl HumanDuration for i32 {
    open spec fn duration_magnitude(self) -> Magnitude {
        from_int_spec(self as int)
    }

    fn human_duration(self) -> (r: HumanDurationData) {
        HumanDurationData { val: magnitude_of_i128(self as i128) }
    }
}

impl HumanThroughput for i32 {
    open spec fn throughput_magnitude(self) -> Magnitude {
        from_int_spec(self as int)
    }

    fn human_throughput(self, unit: &str) -> (r: HumanThroughputData) {
        HumanThroughputData { val: magnitude_of_i128(self as i128), unit: unit.to_owned() }
    }
}

impl HumanCount for i64 {
    open spec fn count_magnitude(self) -> Magnitude {
        from_int_spec(self as int)
    }

    fn human_count(self, unit: &str) -> (r: HumanCountData) {
        HumanCountData { val: magnitude_of_i128(self as i128), unit: unit.to_owned() }
    }
}

impl HumanDuration for i64 {
    open spec fn duration_magnitude(self) -> Magnitude {
        from_int_spec(self as int)
    }

    fn human_duration(self) -> (r: HumanDurationData) {
        HumanDurationData { val: magnitude_of_i128(self as i128) }
    }
}

impl HumanThroughput for i64 {
    open spec fn throughput_magnitude(self) -> Magnitude {
        from_int_spec(self as int)
    }

    fn human_throughput(self, unit: &str) -> (r: HumanThroughputData) {
        HumanThroughputData { val: magnitude_of_i128(self as i128), unit: unit.to_owned() }
    }
}

impl HumanCount for i128 {
    open spec fn count_magnitude(self) -> Magnitude {
        from_int_spec(self as int)
    }

    fn human_count(self, unit: &str) -> (r: HumanCountData) {
        HumanCountData { val: magnitude_of_i128(self as i128), unit: unit.to_owned() }
    }
}

impl HumanDuration for i128 {
    open spec fn duration_magnitude(self) -> Magnitude {
        from_int_spec(self as int)
    }

    fn human_duration(self) -> (r: HumanDurationData) {
        HumanDurationData { val: magnitude_of_i128(self as i128) }
    }
}

impl HumanThroughput for i128 {
    open spec fn throughput_magnitude(self) -> Magnitude {
        from_int_spec(self as int)
    }

    fn human_throughput(self, unit: &str) -> (r: HumanThroughputData) {
        HumanThroughputData { val: magnitude_of_i128(self as i128), unit: unit.to_owned() }
    }
}

impl HumanCount for isize {
    open spec fn count_magnitude(self) -> Magnitude {
        from_int_spec(self as int)
    }

    fn human_count(self, unit: &str) -> (r: HumanCountData) {
        HumanCountData { val: magnitude_of_i128(self as i128), unit: unit.to_owned() }
    }
}

impl HumanDuration for isize {
    open spec fn duration_magnitude(self) -> Magnitude {
        from_int_spec(self as int)
    }

    fn human_duration(self) -> (r: HumanDurationData) {
        HumanDurationData { val: magnitude_of_i128(self as i128) }
    }
}

impl HumanThroughput for isize {
    open spec fn throughput_magnitude(self) -> Magnitude {
        from_int_spec(self as int)
    }

    fn human_throughput(self, unit: &str) -> (r: HumanThroughputData) {
        HumanThroughputData { val: magnitude_of_i128(self as i128), unit: unit.to_owned() }
    }
}

} // verus!
