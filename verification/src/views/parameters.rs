//! The parameters page: the sensor thresholds stored on the device, and the
//! form that edits them.
use vstd::prelude::*;
use crate::text::{parse_decimal, parse_i32, str_eq};

verus! {

/// The low proximity threshold.
pub const PS_LOW_UUID: &'static str = "0000ffe1-0000-1000-8000-00805f9b34fb";

/// The high proximity threshold.
pub const PS_HIGH_UUID: &'static str = "0000ffe2-0000-1000-8000-00805f9b34fb";

/// The accelerometer interrupt threshold.
pub const ACC_THRESHOLD_UUID: &'static str = "0000ffe3-0000-1000-8000-00805f9b34fb";

/// The value a threshold read gives: its first two bytes, little-endian, when
/// there are at least two.
pub open spec fn threshold_value(data: Seq<u8>) -> Option<int> {
    if data.len() < 2 {
        None
    } else {
        Some(data[0] + 256 * data[1])
    }
}

/// The two bytes, little-endian, a threshold is written as: its value taken
/// modulo 65536 (as a 16-bit word).
pub open spec fn threshold_bytes(v: int) -> Seq<u8> {
    seq![(v % 65536 % 256) as u8, (v % 65536 / 256) as u8]
}

/// Decodes a threshold read from the device.
pub fn decode_threshold(data: &Vec<u8>) -> (r: Option<i32>)
    ensures
        match threshold_value(data@) {
            Some(v) => r == Some(v as i32),
            None => r is None,
        },
{
    if data.len() < 2 {
        None
    } else {
        Some(data[0] as i32 + 256 * (data[1] as i32))
    }
}

/// Encodes a threshold for writing to the device.
pub fn encode_threshold(v: i32) -> (r: Vec<u8>)
    ensures
        r@ == threshold_bytes(v as int),
{
    let w: u16 = v as u16;
    assert(w == v % 65536) by (bit_vector)
        requires
            w == v as u16,
    ;
    let lo: u8 = (w % 256) as u8;
    let hi: u8 = (w / 256) as u8;
    let r = vec![lo, hi];
    assert(r@ =~= threshold_bytes(v as int));
    r
}

/// Encoding and decoding thresholds undo each other: a value of 0 to 65535
/// reads back unchanged, and rewriting what was read writes the same two bytes.
pub proof fn law_threshold_round_trip(v: int, data: Seq<u8>)
    ensures
        0 <= v < 65536 ==> threshold_value(threshold_bytes(v)) == Some(v),
        data.len() >= 2 ==> threshold_bytes(threshold_value(data).unwrap()) == data.subrange(0, 2),
{
    if data.len() >= 2 {
        assert(threshold_bytes(threshold_value(data).unwrap()) =~= data.subrange(0, 2));
    }
}

/// A threshold typed in a number box is taken only when it is a number from 0
/// to the slider's maximum.
pub fn typed_threshold(text: &str, max_value: i32) -> (r: Option<i32>)
    ensures
        match parse_decimal(text@) {
            Some(v) => if 0 <= v <= max_value {
                r == Some(v as i32)
            } else {
                r is None
            },
            None => r is None,
        },
{
    match parse_i32(text) {
        Some(v) => if v >= 0 && v <= max_value {
            Some(v)
        } else {
            None
        },
        None => None,
    }
}

/// A threshold moved on a slider is taken whenever its text is a number.
pub fn slider_threshold(text: &str) -> (r: Option<i32>)
    ensures
        match parse_decimal(text@) {
            Some(v) => r == Some(v as i32),
            None => r is None,
        },
{
    parse_i32(text)
}

/// One of the three thresholds.
#[derive(Debug, Clone, Copy, PartialEq, Eq, Structural)]
pub enum Threshold {
    PsLow,
    PsHigh,
    Acc,
}

/// The characteristic that stores a threshold.
pub open spec fn threshold_uuid_text(which: Threshold) -> Seq<char> {
    match which {
        Threshold::PsLow => PS_LOW_UUID@,
        Threshold::PsHigh => PS_HIGH_UUID@,
        Threshold::Acc => ACC_THRESHOLD_UUID@,
    }
}

/// The characteristic that stores a threshold.
pub fn threshold_uuid(which: Threshold) -> (r: &'static str)
    ensures
        r@ == threshold_uuid_text(which),
{
    match which {
        Threshold::PsLow => PS_LOW_UUID,
        Threshold::PsHigh => PS_HIGH_UUID,
        Threshold::Acc => ACC_THRESHOLD_UUID,
    }
}

/// A write that saving the form asks for.
#[derive(Debug, Clone, PartialEq, Eq)]
pub struct ThresholdWrite {
    pub which: Threshold,
    pub payload: Vec<u8>,
}

/// The form of the parameters page.
#[derive(Debug, Clone, PartialEq, Eq)]
pub struct ParameterForm {
    pub threshold_low: i32,
    pub threshold_high: i32,
    pub accel_threshold: i32,
    /// Edits not saved yet.
    pub has_changes: bool,
    /// The first read of the device's values is done.
    pub is_loaded: bool,
}

impl ParameterForm {
    /// The value of a threshold in the form.
    pub open spec fn value(&self, which: Threshold) -> i32 {
        match which {
            Threshold::PsLow => self.threshold_low,
            Threshold::PsHigh => self.threshold_high,
            Threshold::Acc => self.accel_threshold,
        }
    }

    /// `self` is `old` with the threshold `which` set to `v`; the flags are kept.
    pub open spec fn with_value(self, old: ParameterForm, which: Threshold, v: i32) -> bool {
        &&& self.value(which) == v
        &&& forall|t: Threshold| t != which ==> #[trigger] self.value(t) == old.value(t)
        &&& self.is_loaded == old.is_loaded
    }

    /// The form before anything is read: low 500, high 3000, accelerometer
    /// 2000, nothing to save, not loaded.
    pub fn new() -> (f: ParameterForm)
        ensures
            f.threshold_low == 500,
            f.threshold_high == 3000,
            f.accel_threshold == 2000,
            !f.has_changes,
            !f.is_loaded,
    {
        ParameterForm {
            threshold_low: 500,
            threshold_high: 3000,
            accel_threshold: 2000,
            has_changes: false,
            is_loaded: false,
        }
    }

    /// The value of a threshold in the form.
    pub fn get(&self, which: Threshold) -> (v: i32)
        ensures
            v == self.value(which),
    {
        match which {
            Threshold::PsLow => self.threshold_low,
            Threshold::PsHigh => self.threshold_high,
            Threshold::Acc => self.accel_threshold,
        }
    }

    fn set(&mut self, which: Threshold, v: i32)
        ensures
            final(self).with_value(*old(self), which, v),
            final(self).has_changes == old(self).has_changes,
    {
        match which {
            Threshold::PsLow => self.threshold_low = v,
            Threshold::PsHigh => self.threshold_high = v,
            Threshold::Acc => self.accel_threshold = v,
        }
    }

    /// The first read of the device's values is due: a device is selected and
    /// the form was not loaded yet.
    pub fn needs_initial_load(&self, device_id: &str) -> (b: bool)
        ensures
            b == (device_id@.len() > 0 && !self.is_loaded),
    {
        !device_id.is_empty() && !self.is_loaded
    }

    /// Takes a threshold read from the device, when the read gave a value;
    /// otherwise the form is unchanged.
    pub fn apply_read(&mut self, which: Threshold, data: &Vec<u8>)
        ensures
            match threshold_value(data@) {
                Some(v) => final(self).with_value(*old(self), which, v as i32),
                None => *final(self) == *old(self),
            },
            final(self).has_changes == old(self).has_changes,
    {
        match decode_threshold(data) {
            Some(v) => self.set(which, v),
            None => {},
        }
    }

    /// The first read is done.
    pub fn finish_loading(&mut self)
        ensures
            final(self).is_loaded,
            forall|t: Threshold| #[trigger] final(self).value(t) == old(self).value(t),
            final(self).has_changes == old(self).has_changes,
    {
        self.is_loaded = true;
    }

    /// The user edits a threshold: it takes the value and there are changes to
    /// save.
    pub fn set_value(&mut self, which: Threshold, v: i32)
        ensures
            final(self).with_value(*old(self), which, v),
            final(self).has_changes,
    {
        self.set(which, v);
        let ghost mid = *self;
        self.has_changes = true;
        assert forall|t: Threshold| t != which implies #[trigger] self.value(t) == old(self).value(t) by {
            assert(mid.value(t) == old(self).value(t));
        }
    }

    /// Saves the form: the writes of the low, high and accelerometer
    /// thresholds, in that order; nothing is left to save.
    pub fn save(&mut self) -> (w: Vec<ThresholdWrite>)
        ensures
            w@.len() == 3,
            w@[0].which == Threshold::PsLow,
            w@[1].which == Threshold::PsHigh,
            w@[2].which == Threshold::Acc,
            forall|i: int| 0 <= i < 3 ==> (#[trigger] w@[i]).payload@ == threshold_bytes(
                old(self).value(w@[i].which) as int,
            ),
            !final(self).has_changes,
            final(self).is_loaded == old(self).is_loaded,
            forall|t: Threshold| #[trigger] final(self).value(t) == old(self).value(t),
    {
        let mut w: Vec<ThresholdWrite> = Vec::new();
        w.push(ThresholdWrite { which: Threshold::PsLow, payload: encode_threshold(self.threshold_low) });
        w.push(ThresholdWrite { which: Threshold::PsHigh, payload: encode_threshold(self.threshold_high) });
        w.push(ThresholdWrite { which: Threshold::Acc, payload: encode_threshold(self.accel_threshold) });
        self.has_changes = false;
        w
    }

    /// The reset button: the device's values are read again, and nothing is
    /// left to save.
    pub fn begin_reset(&mut self)
        ensures
            !final(self).has_changes,
            final(self).is_loaded == old(self).is_loaded,
            forall|t: Threshold| #[trigger] final(self).value(t) == old(self).value(t),
    {
        self.has_changes = false;
    }
}

/// What the device holds after a save reads back into the form unchanged:
/// when a threshold is from 0 to 65535, reading the payload that saving wrote
/// for it gives its value again.
pub proof fn law_save_reads_back(f: ParameterForm, which: Threshold)
    requires
        0 <= f.value(which) < 65536,
    ensures
        threshold_value(threshold_bytes(f.value(which) as int)) == Some(f.value(which) as int),
{
    law_threshold_round_trip(f.value(which) as int, seq![]);
}

/// The slider classes (track, value text) for a colour name; grey for an
/// unknown name.
pub open spec fn slider_colors(color: Seq<char>) -> (Seq<char>, Seq<char>) {
    if color == "blue"@ {
        (
            "bg-blue-500 [&::-webkit-slider-thumb]:bg-blue-400 [&::-webkit-slider-thumb]:appearance-none [&::-webkit-slider-thumb]:w-4 [&::-webkit-slider-thumb]:h-4 [&::-webkit-slider-thumb]:rounded-full [&::-webkit-slider-thumb]:cursor-pointer"@,
            "text-blue-400"@,
        )
    } else if color == "red"@ {
        (
            "bg-red-500 [&::-webkit-slider-thumb]:bg-red-400 [&::-webkit-slider-thumb]:appearance-none [&::-webkit-slider-thumb]:w-4 [&::-webkit-slider-thumb]:h-4 [&::-webkit-slider-thumb]:rounded-full [&::-webkit-slider-thumb]:cursor-pointer"@,
            "text-red-400"@,
        )
    } else if color == "purple"@ {
        (
            "bg-purple-500 [&::-webkit-slider-thumb]:bg-purple-400 [&::-webkit-slider-thumb]:appearance-none [&::-webkit-slider-thumb]:w-4 [&::-webkit-slider-thumb]:h-4 [&::-webkit-slider-thumb]:rounded-full [&::-webkit-slider-thumb]:cursor-pointer"@,
            "text-purple-400"@,
        )
    } else {
        (
            "bg-gray-500 [&::-webkit-slider-thumb]:bg-gray-400 [&::-webkit-slider-thumb]:appearance-none [&::-webkit-slider-thumb]:w-4 [&::-webkit-slider-thumb]:h-4 [&::-webkit-slider-thumb]:rounded-full [&::-webkit-slider-thumb]:cursor-pointer"@,
            "text-gray-400"@,
        )
    }
}

/// The slider classes for a colour name.
pub fn get_slider_colors(color: &str) -> (r: (&'static str, &'static str))
    ensures
        (r.0@, r.1@) == slider_colors(color@),
{
    if str_eq(color, "blue") {
        (
            "bg-blue-500 [&::-webkit-slider-thumb]:bg-blue-400 [&::-webkit-slider-thumb]:appearance-none [&::-webkit-slider-thumb]:w-4 [&::-webkit-slider-thumb]:h-4 [&::-webkit-slider-thumb]:rounded-full [&::-webkit-slider-thumb]:cursor-pointer",
            "text-blue-400",
        )
    } else if str_eq(color, "red") {
        (
            "bg-red-500 [&::-webkit-slider-thumb]:bg-red-400 [&::-webkit-slider-thumb]:appearance-none [&::-webkit-slider-thumb]:w-4 [&::-webkit-slider-thumb]:h-4 [&::-webkit-slider-thumb]:rounded-full [&::-webkit-slider-thumb]:cursor-pointer",
            "text-red-400",
        )
    } else if str_eq(color, "purple") {
        (
            "bg-purple-500 [&::-webkit-slider-thumb]:bg-purple-400 [&::-webkit-slider-thumb]:appearance-none [&::-webkit-slider-thumb]:w-4 [&::-webkit-slider-thumb]:h-4 [&::-webkit-slider-thumb]:rounded-full [&::-webkit-slider-thumb]:cursor-pointer",
            "text-purple-400",
        )
    } else {
        (
            "bg-gray-500 [&::-webkit-slider-thumb]:bg-gray-400 [&::-webkit-slider-thumb]:appearance-none [&::-webkit-slider-thumb]:w-4 [&::-webkit-slider-thumb]:h-4 [&::-webkit-slider-thumb]:rounded-full [&::-webkit-slider-thumb]:cursor-pointer",
            "text-gray-400",
        )
    }
}

} // verus!
