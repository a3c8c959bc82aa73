//! Data models exchanged between the BLE layer and the user interface, and
//! the pure conversions that build them.
pub mod ble;
pub mod ble_service;
pub mod uuid_text;

use vstd::prelude::*;
use crate::api::uuid_text::{uuid_text, uuid_to_text};

verus! {

/// A peripheral as the device list shows it.
#[derive(Debug, Clone, PartialEq)]
pub struct UiDevice {
    pub id: String,
    pub name: String,
    pub is_connected: bool,
    pub rssi: Option<i16>,
    pub services: Vec<String>,
}

/// A GATT service of a connected peripheral, with its characteristics.
#[derive(Debug, Clone, PartialEq, Eq)]
pub struct UiService {
    pub uuid: String,
    pub name: String,
    pub characteristic: Vec<UiCharacteristic>,
}

/// A GATT characteristic with the names of its properties.
#[derive(Debug, Clone, PartialEq, Eq)]
pub struct UiCharacteristic {
    pub uuid: String,
    pub service_uuid: String,
    pub property: Vec<String>,
}

/// A value notified by a characteristic.
#[derive(Debug, Clone, PartialEq, Eq)]
pub struct NotificationData {
    pub uuid: String,
    pub value: Vec<u8>,
}

/// A GATT characteristic as the BLE stack reports it: its UUID, the UUID of its
/// service and its property flags, the UUIDs as 128-bit values.
#[derive(Debug, Clone, Copy, PartialEq, Eq)]
pub struct CharacteristicInfo {
    pub uuid: u128,
    pub service_uuid: u128,
    pub properties: u8,
}

/// A GATT service as the BLE stack reports it.
#[derive(Debug, Clone, PartialEq, Eq)]
pub struct ServiceInfo {
    pub uuid: u128,
    pub characteristics: Vec<CharacteristicInfo>,
}

/// What the BLE stack reports of a peripheral: its id, advertised name, signal
/// strength, advertised service UUIDs and whether it is connected.
#[derive(Debug, Clone, PartialEq, Eq)]
pub struct PeripheralSnapshot {
    pub id: String,
    pub local_name: Option<String>,
    pub rssi: Option<i16>,
    pub services: Vec<u128>,
    pub is_connected: bool,
}

/// Bits of the GATT characteristic property flags (as btleplug's `CharPropFlags` defines them).
pub const PROP_READ: u8 = 0x02;

pub const PROP_WRITE_WITHOUT_RESPONSE: u8 = 0x04;

pub const PROP_WRITE: u8 = 0x08;

pub const PROP_NOTIFY: u8 = 0x10;

pub const PROP_INDICATE: u8 = 0x20;

/// Whether every bit of `flag` is set in `bits`.
pub open spec fn has_flag(bits: u8, flag: u8) -> bool {
    bits & flag == flag
}

/// The property names that `prop_flags_to_vec` lists for the flags `bits`,
/// in the order read, write, write_without_response, notify, indicate.
pub open spec fn prop_names(bits: u8) -> Seq<Seq<char>> {
    let s0 = Seq::<Seq<char>>::empty();
    let s1 = if has_flag(bits, PROP_READ) { s0.push("read"@) } else { s0 };
    let s2 = if has_flag(bits, PROP_WRITE) { s1.push("write"@) } else { s1 };
    let s3 = if has_flag(bits, PROP_WRITE_WITHOUT_RESPONSE) {
        s2.push("write_without_response"@)
    } else {
        s2
    };
    let s4 = if has_flag(bits, PROP_NOTIFY) { s3.push("notify"@) } else { s3 };
    if has_flag(bits, PROP_INDICATE) { s4.push("indicate"@) } else { s4 }
}

/// The views of a vector of strings.
pub open spec fn string_views(v: Seq<String>) -> Seq<Seq<char>> {
    v.map_values(|s: String| s@)
}

/// Names the properties set in the characteristic property flags `bits`.
pub fn prop_flags_to_vec(bits: u8) -> (out: Vec<String>)
    ensures
        string_views(out@) == prop_names(bits),
{
    let mut out: Vec<String> = Vec::new();
    let ghost g0 = string_views(out@);
    if bits & PROP_READ == PROP_READ {
        out.push("read".to_owned());
    }
    assert(string_views(out@) == (if has_flag(bits, PROP_READ) { g0.push("read"@) } else { g0 }));
    let ghost g1 = string_views(out@);
    if bits & PROP_WRITE == PROP_WRITE {
        out.push("write".to_owned());
    }
    assert(string_views(out@) == (if has_flag(bits, PROP_WRITE) { g1.push("write"@) } else { g1 }));
    let ghost g2 = string_views(out@);
    if bits & PROP_WRITE_WITHOUT_RESPONSE == PROP_WRITE_WITHOUT_RESPONSE {
        out.push("write_without_response".to_owned());
    }
    assert(string_views(out@) == (if has_flag(bits, PROP_WRITE_WITHOUT_RESPONSE) {
        g2.push("write_without_response"@)
    } else {
        g2
    }));
    let ghost g3 = string_views(out@);
    if bits & PROP_NOTIFY == PROP_NOTIFY {
        out.push("notify".to_owned());
    }
    assert(string_views(out@) == (if has_flag(bits, PROP_NOTIFY) { g3.push("notify"@) } else { g3 }));
    let ghost g4 = string_views(out@);
    if bits & PROP_INDICATE == PROP_INDICATE {
        out.push("indicate".to_owned());
    }
    assert(string_views(out@) == (if has_flag(bits, PROP_INDICATE) { g4.push("indicate"@) } else { g4 }));
    out
}


/// The hyphenated texts of a sequence of UUIDs.
pub open spec fn uuid_texts(v: Seq<u128>) -> Seq<Seq<char>> {
    v.map_values(|u: u128| uuid_text(u))
}

/// Formats each UUID of `v` in its hyphenated form.
pub fn uuids_to_texts(v: &Vec<u128>) -> (r: Vec<String>)
    ensures
        string_views(r@) == uuid_texts(v@),
{
    let mut r: Vec<String> = Vec::new();
    let mut i: usize = 0;
    while i < v.len()
        invariant
            i <= v@.len(),
            string_views(r@) == uuid_texts(v@.subrange(0, i as int)),
        decreases v@.len() - i,
    {
        let t = uuid_to_text(v[i]);
        let ghost before = r@;
        r.push(t);
        proof {
            assert(v@.subrange(0, i + 1) =~= v@.subrange(0, i as int).push(v@[i as int]));
            assert(r@ =~= before.push(t));
            assert(string_views(r@) =~= string_views(before).push(t@));
            assert(uuid_texts(v@.subrange(0, i + 1)) =~= uuid_texts(v@.subrange(0, i as int)).push(uuid_text(v@[i as int])));
        }
        i = i + 1;
    }
    assert(v@.subrange(0, v@.len() as int) =~= v@);
    r
}

/// The name a device is listed under when it advertises none.
pub open spec fn unnamed_device() -> Seq<char> {
    "Unknow"@
}

/// `d` is the device-list entry of the peripheral `s`.
pub open spec fn device_of_snapshot(d: UiDevice, s: PeripheralSnapshot) -> bool {
    &&& d.id@ == s.id@
    &&& d.name@ == match s.local_name {
        Some(n) => n@,
        None => unnamed_device(),
    }
    &&& d.is_connected == s.is_connected
    &&& d.rssi == s.rssi
    &&& string_views(d.services@) == uuid_texts(s.services@)
}

/// The device-list entry of a peripheral: its advertised name, or "Unknow" when
/// it advertises none, and its service UUIDs in hyphenated form.
pub fn make_ui_device(s: PeripheralSnapshot) -> (d: UiDevice)
    ensures
        device_of_snapshot(d, s),
{
    let services = uuids_to_texts(&s.services);
    let name = match s.local_name {
        Some(n) => n,
        None => "Unknow".to_owned(),
    };
    UiDevice { id: s.id, name, is_connected: s.is_connected, rssi: s.rssi, services }
}

impl UiCharacteristic {
    /// The UI form of a characteristic: hyphenated UUIDs and the names of its
    /// property flags.
    pub fn from_info(c: &CharacteristicInfo) -> (r: UiCharacteristic)
        ensures
            r.uuid@ == uuid_text(c.uuid),
            r.service_uuid@ == uuid_text(c.service_uuid),
            string_views(r.property@) == prop_names(c.properties),
    {
        UiCharacteristic {
            uuid: uuid_to_text(c.uuid),
            service_uuid: uuid_to_text(c.service_uuid),
            property: prop_flags_to_vec(c.properties),
        }
    }
}

/// The position of a device in the list: connected devices first, then by
/// signal strength, strongest first, an unknown RSSI counting as `i16::MIN`.
/// A larger rank comes earlier.
pub open spec fn device_rank(d: UiDevice) -> int {
    (if d.is_connected { 65536int } else { 0int }) + match d.rssi {
        Some(v) => v as int,
        None => i16::MIN as int,
    } + 32768
}

/// The devices of `s` that have rank `k`, in their order in `s`.
pub open spec fn rank_class(s: Seq<UiDevice>, k: int) -> Seq<UiDevice> {
    s.filter(|d: UiDevice| device_rank(d) == k)
}

/// `s` lists its devices by non-increasing rank.
pub open spec fn rank_sorted(s: Seq<UiDevice>) -> bool {
    forall|i: int, j: int| 0 <= i < j < s.len() ==> device_rank(#[trigger] s[i]) >= device_rank(#[trigger] s[j])
}

/// `r` is the stable sort of `v` by rank: sorted, and the devices of each rank
/// are those of `v`, in the same order.
pub open spec fn stable_rank_sort_of(r: Seq<UiDevice>, v: Seq<UiDevice>) -> bool {
    &&& r.len() == v.len()
    &&& rank_sorted(r)
    &&& forall|k: int| #[trigger] rank_class(r, k) == rank_class(v, k)
}

/// The rank of a device, computed.
pub fn rank_of(d: &UiDevice) -> (r: u32)
    ensures
        r as int == device_rank(*d),
{
    let base: u32 = if d.is_connected { 65536 } else { 0 };
    let rssi: i32 = match d.rssi {
        Some(v) => v as i32,
        None => i16::MIN as i32,
    };
    base + ((rssi + 32768) as u32)
}

proof fn lemma_rank_class_prepend(x: UiDevice, s: Seq<UiDevice>, k: int)
    ensures
        rank_class(seq![x] + s, k) == if device_rank(x) == k {
            seq![x] + rank_class(s, k)
        } else {
            rank_class(s, k)
        },
{
    let pred = |d: UiDevice| device_rank(d) == k;
    Seq::filter_distributes_over_add(seq![x], s, pred);
    reveal(Seq::filter);
    assert(seq![x].drop_last() =~= Seq::<UiDevice>::empty());
    assert(Seq::<UiDevice>::empty().filter(pred) =~= Seq::<UiDevice>::empty());
    if device_rank(x) == k {
        assert(seq![x].filter(pred) =~= seq![x]);
    } else {
        assert(seq![x].filter(pred) =~= Seq::<UiDevice>::empty());
        assert(Seq::<UiDevice>::empty() + s.filter(pred) =~= s.filter(pred));
    }
}

proof fn lemma_rank_class_add(a: Seq<UiDevice>, b: Seq<UiDevice>, k: int)
    ensures
        rank_class(a + b, k) == rank_class(a, k) + rank_class(b, k),
{
    Seq::filter_distributes_over_add(a, b, |d: UiDevice| device_rank(d) == k);
}

proof fn lemma_rank_class_none(s: Seq<UiDevice>, k: int)
    requires
        forall|i: int| 0 <= i < s.len() ==> device_rank(#[trigger] s[i]) != k,
    ensures
        rank_class(s, k) == Seq::<UiDevice>::empty(),
{
    let pred = |d: UiDevice| device_rank(d) == k;
    s.lemma_all_neg_filter_empty(pred);
}

proof fn lemma_count_in_rank_class(s: Seq<UiDevice>, x: UiDevice)
    ensures
        rank_class(s, device_rank(x)).to_multiset().count(x) == s.to_multiset().count(x),
    decreases s.len(),
{
    broadcast use vstd::seq_lib::group_to_multiset_ensures;

    if s.len() == 0 {
        lemma_rank_class_none(s, device_rank(x));
        assert(rank_class(s, device_rank(x)) =~= s);
    } else {
        let init = s.drop_last();
        let last = s.last();
        lemma_count_in_rank_class(init, x);
        assert(init.push(last) =~= s);
        init.lemma_filter_push(last, |d: UiDevice| device_rank(d) == device_rank(x));
    }
}

/// Sorting neither loses nor duplicates a device: a stable sort by rank holds
/// every device as often as the list it sorts.
pub proof fn law_stable_sort_is_permutation(r: Seq<UiDevice>, v: Seq<UiDevice>)
    requires
        stable_rank_sort_of(r, v),
    ensures
        r.to_multiset() == v.to_multiset(),
{
    assert forall|x: UiDevice| r.to_multiset().count(x) == v.to_multiset().count(x) by {
        lemma_count_in_rank_class(r, x);
        lemma_count_in_rank_class(v, x);
        assert(rank_class(r, device_rank(x)) == rank_class(v, device_rank(x)));
    }
    assert(r.to_multiset() =~= v.to_multiset());
}

/// How the device list orders two devices: a connected device comes before
/// every disconnected one, and between devices of the same connection state
/// the one with the stronger signal comes first, an unknown RSSI counting as
/// `i16::MIN`; devices equal in both rank alike.
pub proof fn law_rank_order(a: UiDevice, b: UiDevice)
    ensures
        a.is_connected && !b.is_connected ==> device_rank(a) > device_rank(b),
        ({
            let sa: int = match a.rssi {
                Some(v) => v as int,
                None => -32768,
            };
            let sb: int = match b.rssi {
                Some(v) => v as int,
                None => -32768,
            };
            &&& a.is_connected == b.is_connected ==> (device_rank(a) > device_rank(b) <==> sa > sb)
            &&& device_rank(a) == device_rank(b) <==> (a.is_connected == b.is_connected && sa == sb)
        }),
{
}

/// The sorted device list: no disconnected device comes before a connected
/// one, and among devices of the same connection state the signal strength
/// never increases down the list (unknown counting as `i16::MIN`).
pub proof fn law_sorted_device_order(r: Seq<UiDevice>, v: Seq<UiDevice>)
    requires
        stable_rank_sort_of(r, v),
    ensures
        forall|i: int, j: int|
            0 <= i < j < r.len() ==> {
                let sa: int = match (#[trigger] r[i]).rssi {
                    Some(x) => x as int,
                    None => -32768,
                };
                let sb: int = match (#[trigger] r[j]).rssi {
                    Some(x) => x as int,
                    None => -32768,
                };
                &&& (r[i].is_connected || !r[j].is_connected)
                &&& (r[i].is_connected == r[j].is_connected ==> sa >= sb)
            },
{
    assert forall|i: int, j: int| 0 <= i < j < r.len() implies {
        let sa: int = match (#[trigger] r[i]).rssi {
            Some(x) => x as int,
            None => -32768,
        };
        let sb: int = match (#[trigger] r[j]).rssi {
            Some(x) => x as int,
            None => -32768,
        };
        &&& (r[i].is_connected || !r[j].is_connected)
        &&& (r[i].is_connected == r[j].is_connected ==> sa >= sb)
    } by {
        law_rank_order(r[i], r[j]);
        law_rank_order(r[j], r[i]);
    }
}

/// Each property name is listed exactly when its own flag bit is set,
/// whatever the other bits, and nothing else is listed: "read" for 0x02,
/// "write" for 0x08, "write_without_response" for 0x04, "notify" for 0x10,
/// "indicate" for 0x20.
pub proof fn law_prop_names(bits: u8)
    ensures
        prop_names(bits).contains("read"@) <==> bits & 0x02 == 0x02,
        prop_names(bits).contains("write"@) <==> bits & 0x08 == 0x08,
        prop_names(bits).contains("write_without_response"@) <==> bits & 0x04 == 0x04,
        prop_names(bits).contains("notify"@) <==> bits & 0x10 == 0x10,
        prop_names(bits).contains("indicate"@) <==> bits & 0x20 == 0x20,
        forall|k: int|
            0 <= k < prop_names(bits).len() ==> {
                let n = #[trigger] prop_names(bits)[k];
                n == "read"@ || n == "write"@ || n == "write_without_response"@ || n == "notify"@
                    || n == "indicate"@
            },
        prop_names(bits).no_duplicates(),
{
    reveal_strlit("read");
    reveal_strlit("write");
    reveal_strlit("write_without_response");
    reveal_strlit("notify");
    reveal_strlit("indicate");
    let r = "read"@;
    let w = "write"@;
    let ww = "write_without_response"@;
    let n = "notify"@;
    let ind = "indicate"@;
    assert(r.len() == 4 && w.len() == 5 && ww.len() == 22 && n.len() == 6 && ind.len() == 8);
    let s0 = Seq::<Seq<char>>::empty();
    let s1 = if has_flag(bits, PROP_READ) { s0.push(r) } else { s0 };
    let s2 = if has_flag(bits, PROP_WRITE) { s1.push(w) } else { s1 };
    let s3 = if has_flag(bits, PROP_WRITE_WITHOUT_RESPONSE) { s2.push(ww) } else { s2 };
    let s4 = if has_flag(bits, PROP_NOTIFY) { s3.push(n) } else { s3 };
    let s5 = if has_flag(bits, PROP_INDICATE) { s4.push(ind) } else { s4 };
    assert(s5 == prop_names(bits));
    assert(forall|k: int| 0 <= k < s1.len() ==> #[trigger] s1[k] == r);
    assert(forall|k: int| 0 <= k < s2.len() ==> #[trigger] s2[k] == r || s2[k] == w);
    assert(forall|k: int| 0 <= k < s3.len() ==> #[trigger] s3[k] == r || s3[k] == w || s3[k] == ww);
    assert(forall|k: int| 0 <= k < s4.len() ==> #[trigger] s4[k] == r || s4[k] == w || s4[k] == ww || s4[k] == n);
    assert(forall|k: int| 0 <= k < s5.len() ==> #[trigger] s5[k] == r || s5[k] == w || s5[k] == ww || s5[k] == n || s5[k] == ind);
    assert(s1.contains(r) <==> has_flag(bits, PROP_READ)) by {
        if has_flag(bits, PROP_READ) {
            assert(s1[0] == r);
        }
    }
    assert(s2.contains(w) <==> has_flag(bits, PROP_WRITE)) by {
        if has_flag(bits, PROP_WRITE) {
            assert(s2[s2.len() - 1] == w);
        }
    }
    assert(s3.contains(ww) <==> has_flag(bits, PROP_WRITE_WITHOUT_RESPONSE)) by {
        if has_flag(bits, PROP_WRITE_WITHOUT_RESPONSE) {
            assert(s3[s3.len() - 1] == ww);
        }
    }
    assert(s4.contains(n) <==> has_flag(bits, PROP_NOTIFY)) by {
        if has_flag(bits, PROP_NOTIFY) {
            assert(s4[s4.len() - 1] == n);
        }
    }
    assert(s5.contains(ind) <==> has_flag(bits, PROP_INDICATE)) by {
        if has_flag(bits, PROP_INDICATE) {
            assert(s5[s5.len() - 1] == ind);
        }
    }
    // later pushes keep earlier names, and add no earlier name
    assert(s5.contains(r) <==> s1.contains(r)) by {
        if s1.contains(r) {
            let k = choose|k: int| 0 <= k < s1.len() && s1[k] == r;
            assert(s5[k] == r);
        }
        if s5.contains(r) {
            let k = choose|k: int| 0 <= k < s5.len() && s5[k] == r;
            assert(k < s1.len());
        }
    }
    assert(s5.contains(w) <==> s2.contains(w)) by {
        if s2.contains(w) {
            let k = choose|k: int| 0 <= k < s2.len() && s2[k] == w;
            assert(s5[k] == w);
        }
        if s5.contains(w) {
            let k = choose|k: int| 0 <= k < s5.len() && s5[k] == w;
            assert(k < s2.len());
        }
    }
    assert(s5.contains(ww) <==> s3.contains(ww)) by {
        if s3.contains(ww) {
            let k = choose|k: int| 0 <= k < s3.len() && s3[k] == ww;
            assert(s5[k] == ww);
        }
        if s5.contains(ww) {
            let k = choose|k: int| 0 <= k < s5.len() && s5[k] == ww;
            assert(k < s3.len());
        }
    }
    assert(s5.contains(n) <==> s4.contains(n)) by {
        if s4.contains(n) {
            let k = choose|k: int| 0 <= k < s4.len() && s4[k] == n;
            assert(s5[k] == n);
        }
        if s5.contains(n) {
            let k = choose|k: int| 0 <= k < s5.len() && s5[k] == n;
            assert(k < s4.len());
        }
    }
    assert(has_flag(bits, PROP_READ) == (bits & 0x02 == 0x02));
    assert(has_flag(bits, PROP_INDICATE) == (bits & 0x20 == 0x20));
}

/// Sorts devices as the device list shows them: connected devices first, then
/// by RSSI, strongest first, unknown last; devices of equal rank keep their
/// relative order (a stable sort).
pub fn sort_devices(devices: Vec<UiDevice>) -> (r: Vec<UiDevice>)
    ensures
        stable_rank_sort_of(r@, devices@),
{
    let ghost v = devices@;
    let mut rest = devices;
    let mut out: Vec<UiDevice> = Vec::new();
    proof {
        assert(v.subrange(v.len() as int, v.len() as int) =~= Seq::<UiDevice>::empty());
        assert forall|k: int| #[trigger] rank_class(out@, k) == rank_class(
            v.subrange(v.len() as int, v.len() as int),
            k,
        ) by {
            lemma_rank_class_none(out@, k);
        }
        assert(rest@ =~= v.subrange(0, rest@.len() as int));
    }
    while rest.len() > 0
        invariant
            rest@.len() <= v.len(),
            rest@ == v.subrange(0, rest@.len() as int),
            stable_rank_sort_of(out@, v.subrange(rest@.len() as int, v.len() as int)),
        decreases rest@.len(),
    {
        let ghost n = rest@.len();
        let ghost tail = v.subrange(n as int, v.len() as int);
        let x = rest.pop().unwrap();
        assert(x == v[n - 1]);
        assert(rest@ =~= v.subrange(0, rest@.len() as int));
        let rx = rank_of(&x);
        // first position whose rank does not exceed that of `x`
        let mut p: usize = 0;
        while p < out.len() && rank_of(&out[p]) > rx
            invariant
                p <= out@.len(),
                forall|i: int| 0 <= i < p ==> device_rank(#[trigger] out@[i]) > rx,
            decreases out@.len() - p,
        {
            p = p + 1;
        }
        let ghost before = out@;
        out.insert(p, x);
        proof {
            let a = before.subrange(0, p as int);
            let b = before.subrange(p as int, before.len() as int);
            assert(before =~= a + b);
            assert(out@ =~= a + (seq![x] + b));
            assert(v.subrange(n - 1, v.len() as int) =~= seq![x] + tail);
            assert forall|i: int, j: int| 0 <= i < j < out@.len() implies device_rank(
                #[trigger] out@[i],
            ) >= device_rank(#[trigger] out@[j]) by {
                if j < p {
                } else if j == p {
                } else if i < p {
                    assert(out@[j] == before[j - 1]);
                    if p < before.len() {
                        assert(device_rank(before[p as int]) <= rx);
                    }
                } else if i == p {
                    assert(out@[j] == before[j - 1]);
                    assert(device_rank(before[p as int]) <= rx);
                    if p < j - 1 {
                        assert(device_rank(before[p as int]) >= device_rank(before[j - 1]));
                    }
                } else {
                    assert(out@[i] == before[i - 1]);
                    assert(out@[j] == before[j - 1]);
                }
            }
            assert forall|k: int| #[trigger] rank_class(out@, k) == rank_class(
                v.subrange(n - 1, v.len() as int),
                k,
            ) by {
                lemma_rank_class_add(a, seq![x] + b, k);
                lemma_rank_class_add(a, b, k);
                lemma_rank_class_prepend(x, b, k);
                lemma_rank_class_prepend(x, tail, k);
                if device_rank(x) == k {
                    assert forall|i: int| 0 <= i < a.len() implies device_rank(#[trigger] a[i]) != k by {
                        assert(a[i] == before[i]);
                    }
                    lemma_rank_class_none(a, k);
                    assert(rank_class(a, k) + (seq![x] + rank_class(b, k)) =~= seq![x] + (
                    rank_class(a, k) + rank_class(b, k)));
                }
            }
        }
    }
    out
}

/// The device list built from peripheral reports: one entry per report, sorted
/// by `sort_devices`.
pub fn devices_from_snapshots(snaps: Vec<PeripheralSnapshot>) -> (r: Vec<UiDevice>)
    ensures
        exists|made: Seq<UiDevice>|
            {
                &&& made.len() == snaps@.len()
                &&& forall|i: int| 0 <= i < made.len() ==> device_of_snapshot(#[trigger] made[i], snaps@[i])
                &&& stable_rank_sort_of(r@, made)
            },
{
    let ghost orig = snaps@;
    let mut rest = snaps;
    let mut rev: Vec<UiDevice> = Vec::new();
    // take the reports from the back, then restore their order
    while rest.len() > 0
        invariant
            rest@.len() <= orig.len(),
            rest@ == orig.subrange(0, rest@.len() as int),
            rev@.len() + rest@.len() == orig.len(),
            forall|i: int| 0 <= i < rev@.len() ==> device_of_snapshot(#[trigger] rev@[i], orig[orig.len() - 1 - i]),
        decreases rest@.len(),
    {
        let ghost n = rest@.len();
        let s = rest.pop().unwrap();
        assert(s == orig[n - 1]);
        assert(rest@ =~= orig.subrange(0, rest@.len() as int));
        let d = make_ui_device(s);
        rev.push(d);
    }
    let mut made: Vec<UiDevice> = Vec::new();
    while rev.len() > 0
        invariant
            rev@.len() + made@.len() == orig.len(),
            forall|i: int| 0 <= i < rev@.len() ==> device_of_snapshot(#[trigger] rev@[i], orig[orig.len() - 1 - i]),
            forall|i: int| 0 <= i < made@.len() ==> device_of_snapshot(#[trigger] made@[i], orig[i]),
        decreases rev@.len(),
    {
        let ghost m = rev@.len();
        let d = rev.pop().unwrap();
        assert(device_of_snapshot(d, orig[orig.len() - m]));
        made.push(d);
    }
    let ghost made_view = made@;
    let r = sort_devices(made);
    assert(made_view.len() == orig.len());
    r
}

} // verus!
