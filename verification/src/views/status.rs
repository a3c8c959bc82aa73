//! The status page: sensor samples, refresh frequencies, battery level and
//! interrupt counters read from the device.
use vstd::prelude::*;
use crate::api::UiService;
use crate::text::{concat, parse_decimal, parse_i32, str_eq};

verus! {

/// The sensor service of the device.
pub const SERVICE_UUID: &'static str = "0000ffe0-0000-1000-8000-00805f9b34fb";

/// The proximity sensor's samples.
pub const PS_DATA_UUID: &'static str = "0000ffe6-0000-1000-8000-00805f9b34fb";

/// The accelerometer's samples.
pub const ACC_DATA_UUID: &'static str = "0000ffe7-0000-1000-8000-00805f9b34fb";

/// The refresh frequencies of both sensors, packed in one byte.
pub const PS_FREQ_UUID: &'static str = "0000ffe8-0000-1000-8000-00805f9b34fb";

/// The proximity sensor's interrupt notifications.
pub const PS_INT_UUID: &'static str = "0000ffe4-0000-1000-8000-00805f9b34fb";

/// The accelerometer's interrupt notifications.
pub const ACC_INT_UUID: &'static str = "0000ffe5-0000-1000-8000-00805f9b34fb";

/// The standard battery service.
pub const BATTERY_SERVICE_UUID: &'static str = "0000180f-0000-1000-8000-00805f9b34fb";

/// The standard battery level characteristic.
pub const BATTERY_LEVEL_UUID: &'static str = "00002a19-0000-1000-8000-00805f9b34fb";

/// Whether the listed services include the one with UUID text `uuid`.
pub fn has_service(services: &Vec<UiService>, uuid: &str) -> (r: bool)
    ensures
        r == exists|i: int| 0 <= i < services@.len() && (#[trigger] services@[i]).uuid@ == uuid@,
{
    let mut i: usize = 0;
    while i < services.len()
        invariant
            i <= services@.len(),
            forall|j: int| 0 <= j < i ==> (#[trigger] services@[j]).uuid@ != uuid@,
        decreases services@.len() - i,
    {
        if str_eq(services[i].uuid.as_str(), uuid) {
            return true;
        }
        i = i + 1;
    }
    false
}

/// The byte that stores both refresh frequencies: the proximity sensor's in
/// the low four bits, the accelerometer's in the high four (each taken modulo 16).
pub open spec fn freq_byte(ps: int, acc: int) -> int {
    ps % 16 + 16 * (acc % 16)
}

/// Packs the two refresh frequencies into the byte the device stores.
pub fn pack_freq_byte(ps: i32, acc: i32) -> (b: u8)
    ensures
        b as int == freq_byte(ps as int, acc as int),
{
    let lo: i32 = ps & 0x0F;
    let hi: i32 = acc & 0x0F;
    assert(lo == ps % 16) by (bit_vector)
        requires
            lo == ps & 0x0F,
    ;
    assert(hi == acc % 16) by (bit_vector)
        requires
            hi == acc & 0x0F,
    ;
    let v: i32 = lo | (hi << 4);
    assert(v == lo + 16 * hi) by (bit_vector)
        requires
            0 <= lo < 16,
            0 <= hi < 16,
            v == lo | (hi << 4),
    ;
    v as u8
}

/// Unpacks the refresh frequencies from the stored byte: (proximity,
/// accelerometer).
pub fn unpack_freq_byte(b: u8) -> (r: (i32, i32))
    ensures
        r.0 == b % 16,
        r.1 == b / 16,
{
    let lo: u8 = b & 0x0F;
    let hi: u8 = (b & 0xF0) >> 4;
    assert(lo == b % 16) by (bit_vector)
        requires
            lo == b & 0x0F,
    ;
    assert(hi == b / 16) by (bit_vector)
        requires
            hi == (b & 0xF0) >> 4,
    ;
    (lo as i32, hi as i32)
}

/// Packing and unpacking the refresh frequencies undo each other: frequencies
/// of 0 to 15 come back unchanged, and every stored byte is the packing of
/// what it unpacks to.
pub proof fn law_freq_byte_round_trip(ps: int, acc: int, b: u8)
    ensures
        0 <= ps < 16 && 0 <= acc < 16 ==> freq_byte(ps, acc) % 16 == ps && freq_byte(ps, acc) / 16
            == acc,
        freq_byte((b % 16) as int, (b / 16) as int) == b,
{
}

/// The frequencies read from the device, when it answered with at least one
/// byte.
pub fn freq_from_read(data: &Vec<u8>) -> (r: Option<(i32, i32)>)
    ensures
        data@.len() == 0 ==> r is None,
        data@.len() > 0 ==> r == Some(((data@[0] % 16) as i32, (data@[0] / 16) as i32)),
{
    if data.len() == 0 {
        None
    } else {
        Some(unpack_freq_byte(data[0]))
    }
}

/// A proximity sample: the first two bytes, little-endian, when there are at
/// least two.
pub fn decode_ps_sample(data: &Vec<u8>) -> (r: Option<u16>)
    ensures
        data@.len() < 2 ==> r is None,
        data@.len() >= 2 ==> r == Some((data@[0] + 256 * data@[1]) as u16),
{
    if data.len() < 2 {
        None
    } else {
        Some(data[0] as u16 + 256 * (data[1] as u16))
    }
}

/// The bits of an accelerometer sample (an IEEE 754 single, which the
/// interface makes of them): the first four bytes, little-endian, when there
/// are at least four.
pub fn decode_acc_bits(data: &Vec<u8>) -> (r: Option<u32>)
    ensures
        data@.len() < 4 ==> r is None,
        data@.len() >= 4 ==> r == Some(
            (data@[0] + 256 * data@[1] + 65536 * data@[2] + 16777216 * data@[3]) as u32,
        ),
{
    if data.len() < 4 {
        None
    } else {
        Some(
            data[0] as u32 + 256 * (data[1] as u32) + 65536 * (data[2] as u32) + 16777216 * (
            data[3] as u32),
        )
    }
}

/// The battery level a read or a notification reports: its first byte, when
/// there is one.
pub fn battery_from_read(data: &Vec<u8>) -> (r: Option<i32>)
    ensures
        data@.len() == 0 ==> r is None,
        data@.len() > 0 ==> r == Some(data@[0] as i32),
{
    if data.len() == 0 {
        None
    } else {
        Some(data[0] as i32)
    }
}

/// Shifts a new sample into a chart window: the oldest sample leaves, the new
/// one comes last, and the window keeps its length.
pub fn push_sample<T>(window: &mut Vec<T>, v: T)
    requires
        old(window)@.len() > 0,
    ensures
        final(window)@ == old(window)@.drop_first().push(v),
        final(window)@.len() == old(window)@.len(),
{
    window.remove(0);
    window.push(v);
    assert(final(window)@ =~= old(window)@.drop_first().push(v));
}

/// The pause between two polls of a sensor: a second divided by its
/// frequency, or half a second while polling is off (frequency 0 or less).
pub fn poll_delay_ms(freq: i32) -> (ms: u64)
    ensures
        freq > 0 ==> ms == 1000int / (freq as int),
        freq <= 0 ==> ms == 500,
{
    if freq > 0 {
        1000 / (freq as u64)
    } else {
        500
    }
}

/// Whether a notified value is a release: every byte zero. The device
/// notifies a press with a non-zero value and the release with zero; only
/// presses are counted.
pub open spec fn is_release(value: Seq<u8>) -> bool {
    forall|i: int| 0 <= i < value.len() ==> value[i] == 0
}

/// A notification is a release exactly when every byte of it is zero: a value
/// with any non-zero byte is a press and is counted, wherever that byte is.
pub proof fn law_release_is_all_zero(value: Seq<u8>)
    ensures
        !is_release(value) <==> exists|i: int| 0 <= i < value.len() && value[i] != 0,
        forall|i: int| 0 <= i < value.len() && value[i] != 0 ==> !is_release(value),
        value.len() == 0 ==> is_release(value),
{
}

/// Whether a notified value is a release.
pub fn is_release_value(value: &Vec<u8>) -> (r: bool)
    ensures
        r == is_release(value@),
{
    let mut i: usize = 0;
    while i < value.len()
        invariant
            i <= value@.len(),
            forall|j: int| 0 <= j < i ==> value@[j] == 0,
        decreases value@.len() - i,
    {
        if value[i] != 0 {
            return false;
        }
        i = i + 1;
    }
    true
}

/// An interrupt counter: how many presses were notified since the last reset,
/// and whether one was notified lately (the card flashes while it is).
pub struct TriggerCounter {
    pub count: i32,
    pub active: bool,
}

impl TriggerCounter {
    /// A counter at zero, not flashing.
    pub fn new() -> (c: TriggerCounter)
        ensures
            c.count == 0,
            !c.active,
    {
        TriggerCounter { count: 0, active: false }
    }

    /// Handles a notification: a press counts one and makes the card flash; a
    /// release (an all-zero value) changes nothing, so that one button press
    /// is not counted twice. Returns whether it counted.
    pub fn on_notification(&mut self, value: &Vec<u8>) -> (counted: bool)
        requires
            old(self).count < i32::MAX,
        ensures
            counted == !is_release(value@),
            counted ==> final(self).count == old(self).count + 1 && final(self).active,
            !counted ==> *final(self) == *old(self),
    {
        if is_release_value(value) {
            false
        } else {
            self.count = self.count + 1;
            self.active = true;
            true
        }
    }

    /// The flash is over.
    pub fn clear_active(&mut self)
        ensures
            final(self).count == old(self).count,
            !final(self).active,
    {
        self.active = false;
    }

    /// The reset button: the count goes back to zero.
    pub fn reset(&mut self)
        ensures
            final(self).count == 0,
            final(self).active == old(self).active,
    {
        self.count = 0;
    }
}

/// The colour classes of the battery indicator: green above 50 %, yellow above
/// 20 %, red otherwise.
pub fn get_battery_style(level: i32) -> (r: (&'static str, &'static str))
    ensures
        level > 50 ==> r.0@ == "text-emerald-400"@ && r.1@ == "bg-emerald-500"@,
        20 < level <= 50 ==> r.0@ == "text-yellow-400"@ && r.1@ == "bg-yellow-500"@,
        level <= 20 ==> r.0@ == "text-red-400"@ && r.1@ == "bg-red-500"@,
{
    if level > 50 {
        ("text-emerald-400", "bg-emerald-500")
    } else if level > 20 {
        ("text-yellow-400", "bg-yellow-500")
    } else {
        ("text-red-400", "bg-red-500")
    }
}

/// The colour classes of an interrupt card (text, border, background, ripple)
/// for its colour name; grey for an unknown name.
pub open spec fn trigger_colors(color: Seq<char>) -> (Seq<char>, Seq<char>, Seq<char>, Seq<char>) {
    if color == "emerald"@ {
        ("text-emerald-400"@, "border-emerald-500"@, "bg-emerald-500/20"@, "rgba(16, 185, 129, 0.6)"@)
    } else if color == "blue"@ {
        ("text-blue-400"@, "border-blue-500"@, "bg-blue-500/20"@, "rgba(59, 130, 246, 0.6)"@)
    } else if color == "purple"@ {
        ("text-purple-400"@, "border-purple-500"@, "bg-purple-500/20"@, "rgba(168, 85, 247, 0.6)"@)
    } else {
        ("text-gray-400"@, "border-gray-500"@, "bg-gray-500/20"@, "rgba(107, 114, 128, 0.6)"@)
    }
}

/// The colour classes of an interrupt card.
pub fn get_trigger_colors(color: &str) -> (r: (&'static str, &'static str, &'static str, &'static str))
    ensures
        (r.0@, r.1@, r.2@, r.3@) == trigger_colors(color@),
{
    if str_eq(color, "emerald") {
        ("text-emerald-400", "border-emerald-500", "bg-emerald-500/20", "rgba(16, 185, 129, 0.6)")
    } else if str_eq(color, "blue") {
        ("text-blue-400", "border-blue-500", "bg-blue-500/20", "rgba(59, 130, 246, 0.6)")
    } else if str_eq(color, "purple") {
        ("text-purple-400", "border-purple-500", "bg-purple-500/20", "rgba(168, 85, 247, 0.6)")
    } else {
        ("text-gray-400", "border-gray-500", "bg-gray-500/20", "rgba(107, 114, 128, 0.6)")
    }
}

/// The colour class of a sensor card's current value: the proximity card's
/// green for its colour "#60cd18", the accelerometer's blue otherwise.
pub fn sensor_value_color(color: &str) -> (r: &'static str)
    ensures
        color@ == "#60cd18"@ ==> r@ == "text-[#60cd18]"@,
        color@ != "#60cd18"@ ==> r@ == "text-[#2d6cdf]"@,
{
    if str_eq(color, "#60cd18") {
        "text-[#60cd18]"
    } else {
        "text-[#2d6cdf]"
    }
}

/// The frequency typed in a sensor card: the typed number, or the current
/// frequency when the text is no number.
pub fn freq_input(text: &str, current: i32) -> (f: i32)
    ensures
        match parse_decimal(text@) {
            Some(v) => f == v,
            None => f == current,
        },
{
    match parse_i32(text) {
        Some(v) => v,
        None => current,
    }
}

/// Whether to try again to find a service after `tried` failed tries: always
/// without a limit, else while fewer tries than the limit were made.
pub fn keep_waiting(tried: u32, limit: Option<u32>) -> (b: bool)
    ensures
        limit is None ==> b,
        limit is Some ==> b == (tried < limit->Some_0),
{
    match limit {
        Some(n) => tried < n,
        None => true,
    }
}

/// The classes of an interrupt card: bordered in its colour while it flashes,
/// plain grey otherwise.
pub fn trigger_card_class(is_active: bool, border_color: &str, bg_color: &str) -> (r: String)
    ensures
        is_active ==> r@ == "rounded-lg border-2 "@ + border_color@ + " "@ + bg_color@
            + " p-3 space-y-1 transition-all duration-150"@,
        !is_active ==> r@ == "rounded-lg border border-[#2a2a2a] bg-[#191919] p-3 space-y-1 transition-all duration-150"@,
{
    if is_active {
        let a = concat("rounded-lg border-2 ", border_color);
        let b = concat(a.as_str(), " ");
        let c = concat(b.as_str(), bg_color);
        concat(c.as_str(), " p-3 space-y-1 transition-all duration-150")
    } else {
        "rounded-lg border border-[#2a2a2a] bg-[#191919] p-3 space-y-1 transition-all duration-150".to_owned()
    }
}

} // verus!
