//! Decisions of the BLE manager: its error type, the registry of known and
//! connected peripherals, characteristic lookup, service listing and the
//! retry protocol of characteristic access.
use vstd::prelude::*;
use crate::api::{
    CharacteristicInfo, PeripheralSnapshot, ServiceInfo, UiCharacteristic, UiService,
    prop_flags_to_vec, prop_names, string_views,
};
use crate::api::uuid_text::{lemma_uuid_text_injective, parse_uuid, uuid_parse, uuid_text, uuid_to_text};
use crate::text::{concat, str_eq};

verus! {

/// Error raised by the BLE layer; it carries a human readable message.
#[derive(Debug)]
pub struct BleError(String);

impl View for BleError {
    type V = Seq<char>;

    /// The message.
    closed spec fn view(&self) -> Seq<char> {
        self.0@
    }
}

impl BleError {
    /// Builds an error from its message.
    pub fn new(msg: String) -> (e: BleError)
        ensures
            e@ == msg@,
    {
        BleError(msg)
    }

    /// The message of the error (what `Display` prints).
    pub fn message(&self) -> (s: String)
        ensures
            s@ == self@,
    {
        self.0.clone()
    }
}

/// Builds an error from a message given as a string slice.
pub fn ble_error(msg: &str) -> (e: BleError)
    ensures
        e@ == msg@,
{
    BleError(msg.to_owned())
}

// ---------------------------------------------------------------------------
// Service names
// ---------------------------------------------------------------------------

/// The name shown for a service UUID: the standard services the app knows,
/// else "Unknown Service".
pub open spec fn service_name_of(uuid: Seq<char>) -> Seq<char> {
    if uuid == "00001800-0000-1000-8000-00805f9b34fb"@ {
        "Generic Access"@
    } else if uuid == "00001801-0000-1000-8000-00805f9b34fb"@ {
        "Generic Attribute"@
    } else if uuid == "0000180a-0000-1000-8000-00805f9b34fb"@ {
        "Device Information"@
    } else if uuid == "0000180f-0000-1000-8000-00805f9b34fb"@ {
        "Battery Service"@
    } else if uuid == "00001802-0000-1000-8000-00805f9b34fb"@ {
        "Immediate Alert"@
    } else {
        "Unknown Service"@
    }
}

/// The name of a service from its UUID text.
pub fn get_service_name(uuid: &str) -> (name: &'static str)
    ensures
        name@ == service_name_of(uuid@),
{
    if str_eq(uuid, "00001800-0000-1000-8000-00805f9b34fb") {
        "Generic Access"
    } else if str_eq(uuid, "00001801-0000-1000-8000-00805f9b34fb") {
        "Generic Attribute"
    } else if str_eq(uuid, "0000180a-0000-1000-8000-00805f9b34fb") {
        "Device Information"
    } else if str_eq(uuid, "0000180f-0000-1000-8000-00805f9b34fb") {
        "Battery Service"
    } else if str_eq(uuid, "00001802-0000-1000-8000-00805f9b34fb") {
        "Immediate Alert"
    } else {
        "Unknown Service"
    }
}

/// `u` lists the characteristic `c` of the service with UUID `service`.
pub open spec fn lists_characteristic(u: UiCharacteristic, c: CharacteristicInfo, service: u128) -> bool {
    &&& u.uuid@ == uuid_text(c.uuid)
    &&& u.service_uuid@ == uuid_text(service)
    &&& string_views(u.property@) == prop_names(c.properties)
}

/// `u` lists the service `s` with all its characteristics, in order.
pub open spec fn lists_service(u: UiService, s: ServiceInfo) -> bool {
    &&& u.uuid@ == uuid_text(s.uuid)
    &&& u.name@ == service_name_of(uuid_text(s.uuid))
    &&& u.characteristic@.len() == s.characteristics@.len()
    &&& forall|j: int|
        0 <= j < u.characteristic@.len() ==> lists_characteristic(
            #[trigger] u.characteristic@[j],
            s.characteristics@[j],
            s.uuid,
        )
}

/// The UI form of a service: its UUID, its name and its characteristics, each
/// listed under the service's UUID.
pub fn ui_service_of(s: &ServiceInfo) -> (u: UiService)
    ensures
        lists_service(u, *s),
{
    let mut chars: Vec<UiCharacteristic> = Vec::new();
    let mut j: usize = 0;
    while j < s.characteristics.len()
        invariant
            j <= s.characteristics@.len(),
            chars@.len() == j,
            forall|k: int|
                0 <= k < j ==> lists_characteristic(#[trigger] chars@[k], s.characteristics@[k], s.uuid),
        decreases s.characteristics@.len() - j,
    {
        let c = s.characteristics[j];
        chars.push(
            UiCharacteristic {
                uuid: uuid_to_text(c.uuid),
                service_uuid: uuid_to_text(s.uuid),
                property: prop_flags_to_vec(c.properties),
            },
        );
        j = j + 1;
    }
    let uuid = uuid_to_text(s.uuid);
    let name = get_service_name(uuid.as_str()).to_owned();
    UiService { uuid, name, characteristic: chars }
}

/// The UI form of every service of a peripheral, in order.
pub fn list_ui_services(services: &Vec<ServiceInfo>) -> (r: Vec<UiService>)
    ensures
        r@.len() == services@.len(),
        forall|i: int| 0 <= i < r@.len() ==> lists_service(#[trigger] r@[i], services@[i]),
{
    let mut r: Vec<UiService> = Vec::new();
    let mut i: usize = 0;
    while i < services.len()
        invariant
            i <= services@.len(),
            r@.len() == i,
            forall|k: int| 0 <= k < i ==> lists_service(#[trigger] r@[k], services@[k]),
        decreases services@.len() - i,
    {
        r.push(ui_service_of(&services[i]));
        i = i + 1;
    }
    r
}

// ---------------------------------------------------------------------------
// Characteristic lookup
// ---------------------------------------------------------------------------

/// `c` is the characteristic with UUID `ch` in the service with UUID `service`.
pub open spec fn addresses(c: CharacteristicInfo, service: u128, ch: u128) -> bool {
    c.service_uuid == service && c.uuid == ch
}

proof fn lemma_parse_exact(text: Seq<char>, r: Result<u128, String>)
    requires
        r is Ok ==> uuid_parse(text) == Ok::<u128, Seq<char>>(r->Ok_0),
        r is Err ==> uuid_parse(text) == Err::<u128, Seq<char>>(r->Err_0@),
        (exists|v: u128| #[trigger] uuid_text(v) == text) ==> r is Ok && uuid_text(r->Ok_0) == text,
    ensures
        forall|v: u128| #[trigger] uuid_text(v) == text ==> uuid_parse(text) == Ok::<u128, Seq<char>>(v),
{
    assert forall|v: u128| #[trigger] uuid_text(v) == text implies uuid_parse(text) == Ok::<u128, Seq<char>>(v) by {
        lemma_uuid_text_injective(v, r->Ok_0);
    }
}

/// Finds the characteristic that a service UUID text and a characteristic UUID
/// text address among `chars`: the first that matches both. Fails when either
/// text is no UUID, or when none matches. Texts in the hyphenated form that
/// the service list shows always parse, to the UUIDs they were made from.
pub fn find_characteristic(service_uuid: &str, char_uuid: &str, chars: &Vec<CharacteristicInfo>) -> (r:
    Result<usize, BleError>)
    ensures
        match uuid_parse(service_uuid@) {
            Err(e) => r matches Err(err) && err@ == "Invalid service UUID: "@ + e,
            Ok(s) => match uuid_parse(char_uuid@) {
                Err(e) => r matches Err(err) && err@ == "Invalid characteristic UUID: "@ + e,
                Ok(c) => match r {
                    Ok(i) => i < chars@.len() && addresses(chars@[i as int], s, c) && forall|j: int|
                        0 <= j < i ==> !addresses(#[trigger] chars@[j], s, c),
                    Err(err) => err@ == "Characteristic not found: "@ + char_uuid@ && forall|j: int|
                        0 <= j < chars@.len() ==> !addresses(#[trigger] chars@[j], s, c),
                },
            },
        },
        forall|sv: u128, cv: u128|
            #![trigger uuid_text(sv), uuid_text(cv)]
            uuid_text(sv) == service_uuid@ && uuid_text(cv) == char_uuid@ ==> uuid_parse(service_uuid@)
                == Ok::<u128, Seq<char>>(sv) && uuid_parse(char_uuid@) == Ok::<u128, Seq<char>>(cv),
{
    let ps = parse_uuid(service_uuid);
    proof {
        lemma_parse_exact(service_uuid@, ps);
    }
    let s = match ps {
        Ok(v) => v,
        Err(e) => {
            return Err(BleError(concat("Invalid service UUID: ", e.as_str())));
        },
    };
    let pc = parse_uuid(char_uuid);
    proof {
        lemma_parse_exact(char_uuid@, pc);
    }
    let c = match pc {
        Ok(v) => v,
        Err(e) => {
            return Err(BleError(concat("Invalid characteristic UUID: ", e.as_str())));
        },
    };
    let mut i: usize = 0;
    while i < chars.len()
        invariant
            i <= chars@.len(),
            uuid_parse(service_uuid@) == Ok::<u128, Seq<char>>(s),
            uuid_parse(char_uuid@) == Ok::<u128, Seq<char>>(c),
            forall|v: u128| #[trigger] uuid_text(v) == service_uuid@ ==> uuid_parse(service_uuid@) == Ok::<u128, Seq<char>>(v),
            forall|v: u128| #[trigger] uuid_text(v) == char_uuid@ ==> uuid_parse(char_uuid@) == Ok::<u128, Seq<char>>(v),
            forall|j: int| 0 <= j < i ==> !addresses(#[trigger] chars@[j], s, c),
        decreases chars@.len() - i,
    {
        if chars[i].service_uuid == s && chars[i].uuid == c {
            return Ok(i);
        }
        i = i + 1;
    }
    Err(BleError(concat("Characteristic not found: ", char_uuid)))
}

// ---------------------------------------------------------------------------
// Registry of peripherals
// ---------------------------------------------------------------------------

/// The ids held by a vector of strings, as a set.
pub open spec fn id_set(v: Seq<String>) -> Set<Seq<char>> {
    string_views(v).to_set()
}

/// No id occurs twice.
pub open spec fn distinct_ids(v: Seq<String>) -> bool {
    forall|i: int, j: int| 0 <= i < j < v.len() ==> (#[trigger] v[i])@ != (#[trigger] v[j])@
}

pub(crate) proof fn lemma_id_set_contains(v: Seq<String>, x: Seq<char>)
    ensures
        id_set(v).contains(x) <==> exists|i: int| 0 <= i < v.len() && (#[trigger] v[i])@ == x,
{
    if id_set(v).contains(x) {
        let i = choose|i: int| 0 <= i < string_views(v).len() && string_views(v)[i] == x;
        assert(v[i]@ == x);
    }
    if exists|i: int| 0 <= i < v.len() && (#[trigger] v[i])@ == x {
        let i = choose|i: int| 0 <= i < v.len() && (#[trigger] v[i])@ == x;
        assert(string_views(v)[i] == x);
    }
}

pub(crate) proof fn lemma_id_set_push(v: Seq<String>, s: String)
    ensures
        id_set(v.push(s)) == id_set(v).insert(s@),
{
    assert forall|x: Seq<char>| id_set(v.push(s)).contains(x) <==> id_set(v).insert(s@).contains(x) by {
        lemma_id_set_contains(v.push(s), x);
        lemma_id_set_contains(v, x);
        if exists|i: int| 0 <= i < v.len() && (#[trigger] v[i])@ == x {
            let i = choose|i: int| 0 <= i < v.len() && (#[trigger] v[i])@ == x;
            assert(v.push(s)[i] == v[i]);
        }
        if exists|i: int| 0 <= i < v.push(s).len() && (#[trigger] v.push(s)[i])@ == x {
            let i = choose|i: int| 0 <= i < v.push(s).len() && (#[trigger] v.push(s)[i])@ == x;
            if i < v.len() {
                assert(v[i] == v.push(s)[i]);
            }
        }
        assert(v.push(s)[v.len() as int] == s);
    }
    assert(id_set(v.push(s)) =~= id_set(v).insert(s@));
}

pub(crate) proof fn lemma_id_set_remove(v: Seq<String>, k: int)
    requires
        distinct_ids(v),
        0 <= k < v.len(),
    ensures
        id_set(v.remove(k)) == id_set(v).remove(v[k]@),
        distinct_ids(v.remove(k)),
{
    let w = v.remove(k);
    assert forall|x: Seq<char>| id_set(w).contains(x) <==> id_set(v).remove(v[k]@).contains(x) by {
        lemma_id_set_contains(w, x);
        lemma_id_set_contains(v, x);
        if exists|i: int| 0 <= i < w.len() && (#[trigger] w[i])@ == x {
            let i = choose|i: int| 0 <= i < w.len() && (#[trigger] w[i])@ == x;
            if i < k {
                assert(w[i] == v[i]);
            } else {
                assert(w[i] == v[i + 1]);
            }
        }
        if exists|i: int| 0 <= i < v.len() && (#[trigger] v[i])@ == x {
            let i = choose|i: int| 0 <= i < v.len() && (#[trigger] v[i])@ == x;
            if x != v[k]@ {
                if i < k {
                    assert(w[i] == v[i]);
                } else {
                    assert(i != k);
                    assert(w[i - 1] == v[i]);
                }
            }
        }
    }
    assert(id_set(w) =~= id_set(v).remove(v[k]@));
    assert forall|i: int, j: int| 0 <= i < j < w.len() implies (#[trigger] w[i])@ != (#[trigger] w[j])@ by {
        let ii = if i < k { i } else { i + 1 };
        let jj = if j < k { j } else { j + 1 };
        assert(w[i] == v[ii]);
        assert(w[j] == v[jj]);
    }
}

/// The index of the first string of `v` equal to `id`, if any.
pub fn position_of(v: &Vec<String>, id: &str) -> (r: Option<usize>)
    ensures
        match r {
            Some(i) => i < v@.len() && v@[i as int]@ == id@ && forall|j: int| 0 <= j < i ==> (#[trigger] v@[j])@ != id@,
            None => forall|j: int| 0 <= j < v@.len() ==> (#[trigger] v@[j])@ != id@,
        },
{
    let mut i: usize = 0;
    while i < v.len()
        invariant
            i <= v@.len(),
            forall|j: int| 0 <= j < i ==> (#[trigger] v@[j])@ != id@,
        decreases v@.len() - i,
    {
        if str_eq(v[i].as_str(), id) {
            return Some(i);
        }
        i = i + 1;
    }
    None
}

/// Where the peripheral to connect to comes from.
#[derive(Debug, Clone, Copy, PartialEq, Eq)]
pub enum PeripheralSource {
    /// The peripheral at this index of the adapter's fresh list.
    Fresh(usize),
    /// The handle kept from an earlier discovery.
    Known,
}

/// What `stop_scan` has to do.
#[derive(Debug, Clone, Copy, PartialEq, Eq)]
pub enum StopScanAction {
    /// No scan is running: nothing to do.
    Nothing,
    /// A scan is running but no adapter is held: only clear the flag.
    ClearFlag,
    /// Stop the adapter's scan, then clear the flag.
    StopAdapter,
}

/// The connected set after applying connection reports in order.
pub open spec fn connection_updates(c: Set<Seq<char>>, snaps: Seq<PeripheralSnapshot>) -> Set<Seq<char>>
    decreases snaps.len(),
{
    if snaps.len() == 0 {
        c
    } else {
        let prev = connection_updates(c, snaps.drop_last());
        let s = snaps.last();
        if s.is_connected {
            prev.insert(s.id@)
        } else {
            prev.remove(s.id@)
        }
    }
}

/// The ids of the reports that say connected.
pub open spec fn connected_report_ids(snaps: Seq<PeripheralSnapshot>) -> Set<Seq<char>>
    decreases snaps.len(),
{
    if snaps.len() == 0 {
        Set::empty()
    } else {
        let prev = connected_report_ids(snaps.drop_last());
        if snaps.last().is_connected {
            prev.insert(snaps.last().id@)
        } else {
            prev
        }
    }
}

/// What the last report about `id` says: whether it is connected, or `None`
/// when no report is about `id`.
pub open spec fn last_report(snaps: Seq<PeripheralSnapshot>, id: Seq<char>) -> Option<bool>
    decreases snaps.len(),
{
    if snaps.len() == 0 {
        None
    } else if snaps.last().id@ == id {
        Some(snaps.last().is_connected)
    } else {
        last_report(snaps.drop_last(), id)
    }
}

/// Applying reports in order: an id that some report is about is connected if
/// and only if its last report says so; every other id keeps its state.
pub proof fn law_connection_updates(c: Set<Seq<char>>, snaps: Seq<PeripheralSnapshot>, id: Seq<char>)
    ensures
        connection_updates(c, snaps).contains(id) == match last_report(snaps, id) {
            Some(b) => b,
            None => c.contains(id),
        },
    decreases snaps.len(),
{
    if snaps.len() > 0 {
        law_connection_updates(c, snaps.drop_last(), id);
    }
}

/// Which ids the reports say connected: an id is among them if and only if
/// some report about it says connected.
proof fn lemma_connected_report_ids(snaps: Seq<PeripheralSnapshot>, id: Seq<char>)
    ensures
        connected_report_ids(snaps).contains(id) <==> exists|i: int|
            0 <= i < snaps.len() && (#[trigger] snaps[i]).id@ == id && snaps[i].is_connected,
    decreases snaps.len(),
{
    if snaps.len() > 0 {
        let init = snaps.drop_last();
        lemma_connected_report_ids(init, id);
        if exists|i: int| 0 <= i < init.len() && (#[trigger] init[i]).id@ == id && init[i].is_connected {
            let i = choose|i: int| 0 <= i < init.len() && (#[trigger] init[i]).id@ == id && init[i].is_connected;
            assert(snaps[i] == init[i]);
        }
        if exists|i: int| 0 <= i < snaps.len() && (#[trigger] snaps[i]).id@ == id && snaps[i].is_connected {
            let i = choose|i: int| 0 <= i < snaps.len() && (#[trigger] snaps[i]).id@ == id && snaps[i].is_connected;
            if i < snaps.len() - 1 {
                assert(init[i] == snaps[i]);
            }
        }
        assert(snaps.last() == snaps[snaps.len() - 1]);
    }
}

/// With one report about each id, the last report about an id is its report.
proof fn lemma_last_report_unique(snaps: Seq<PeripheralSnapshot>, i: int)
    requires
        0 <= i < snaps.len(),
        forall|a: int, b: int| 0 <= a < b < snaps.len() ==> (#[trigger] snaps[a]).id@ != (#[trigger] snaps[b]).id@,
    ensures
        last_report(snaps, snaps[i].id@) == Some(snaps[i].is_connected),
    decreases snaps.len(),
{
    if i < snaps.len() - 1 {
        let init = snaps.drop_last();
        assert(init[i] == snaps[i]);
        assert(snaps.last() == snaps[snaps.len() - 1]);
        lemma_last_report_unique(init, i);
    }
}

/// The reports cover the ids of `known` each once: one report per known id, and
/// none about an unknown id.
pub open spec fn reports_cover_once(known: Set<Seq<char>>, snaps: Seq<PeripheralSnapshot>) -> bool {
    &&& forall|a: int, b: int| 0 <= a < b < snaps.len() ==> (#[trigger] snaps[a]).id@ != (#[trigger] snaps[b]).id@
    &&& forall|i: int| 0 <= i < snaps.len() ==> known.contains((#[trigger] snaps[i]).id@)
    &&& forall|x: Seq<char>| #[trigger] known.contains(x) ==> exists|i: int| 0 <= i < snaps.len() && (#[trigger] snaps[i]).id@ == x
}

/// After a refresh round whose reports cover the known ids each once, the
/// connected set is exactly the set of known ids whose report says connected,
/// and no id becomes known.
pub proof fn law_refresh_round(c: Set<Seq<char>>, known: Set<Seq<char>>, snaps: Seq<PeripheralSnapshot>)
    requires
        c.subset_of(known),
        reports_cover_once(known, snaps),
    ensures
        connection_updates(c, snaps) == connected_report_ids(snaps),
        connection_updates(c, snaps).subset_of(known),
        forall|i: int| 0 <= i < snaps.len() ==> connection_updates(c, snaps).contains((#[trigger] snaps[i]).id@)
            == snaps[i].is_connected,
        known.union(connected_report_ids(snaps)) == known,
{
    assert forall|i: int| 0 <= i < snaps.len() implies connection_updates(c, snaps).contains((#[trigger] snaps[i]).id@)
        == snaps[i].is_connected by {
        law_connection_updates(c, snaps, snaps[i].id@);
        lemma_last_report_unique(snaps, i);
    }
    assert forall|x: Seq<char>| connection_updates(c, snaps).contains(x) == connected_report_ids(snaps).contains(x) by {
        law_connection_updates(c, snaps, x);
        lemma_connected_report_ids(snaps, x);
        if known.contains(x) {
            let i = choose|i: int| 0 <= i < snaps.len() && (#[trigger] snaps[i]).id@ == x;
            lemma_last_report_unique(snaps, i);
            if connected_report_ids(snaps).contains(x) {
                let j = choose|j: int| 0 <= j < snaps.len() && (#[trigger] snaps[j]).id@ == x && snaps[j].is_connected;
                lemma_last_report_unique(snaps, j);
            }
        } else {
            assert(last_report(snaps, x) is None) by {
                lemma_last_report_none(snaps, x);
            }
        }
    }
    assert(connection_updates(c, snaps) =~= connected_report_ids(snaps));
    assert forall|x: Seq<char>| connected_report_ids(snaps).contains(x) implies known.contains(x) by {
        lemma_connected_report_ids(snaps, x);
    }
    assert(known.union(connected_report_ids(snaps)) =~= known);
}

/// No report about `x` means no last report about it.
proof fn lemma_last_report_none(snaps: Seq<PeripheralSnapshot>, x: Seq<char>)
    requires
        forall|i: int| 0 <= i < snaps.len() ==> (#[trigger] snaps[i]).id@ != x,
    ensures
        last_report(snaps, x) is None,
    decreases snaps.len(),
{
    if snaps.len() > 0 {
        let init = snaps.drop_last();
        assert(snaps.last() == snaps[snaps.len() - 1]);
        assert forall|i: int| 0 <= i < init.len() implies (#[trigger] init[i]).id@ != x by {
            assert(init[i] == snaps[i]);
        }
        lemma_last_report_none(init, x);
    }
}

/// The reports of a refresh round are made for the known ids, in order: one
/// report per id listed by `known_ids`. They cover the known ids each once.
pub proof fn law_reports_of_known_ids(ids: Seq<String>, snaps: Seq<PeripheralSnapshot>)
    requires
        distinct_ids(ids),
        snaps.len() == ids.len(),
        forall|i: int| 0 <= i < ids.len() ==> (#[trigger] snaps[i]).id@ == ids[i]@,
    ensures
        reports_cover_once(id_set(ids), snaps),
{
    assert forall|a: int, b: int| 0 <= a < b < snaps.len() implies (#[trigger] snaps[a]).id@ != (#[trigger] snaps[b]).id@ by {
        assert(ids[a]@ != ids[b]@);
    }
    assert forall|i: int| 0 <= i < snaps.len() implies id_set(ids).contains((#[trigger] snaps[i]).id@) by {
        lemma_id_set_contains(ids, snaps[i].id@);
        assert(ids[i]@ == snaps[i].id@);
    }
    assert forall|x: Seq<char>| #[trigger] id_set(ids).contains(x) implies exists|i: int|
        0 <= i < snaps.len() && (#[trigger] snaps[i]).id@ == x by {
        lemma_id_set_contains(ids, x);
        let i = choose|i: int| 0 <= i < ids.len() && (#[trigger] ids[i])@ == x;
        assert(snaps[i].id@ == x);
    }
}

/// A whole device refresh (`get_devices`): the fresh ids are recorded as known,
/// the known ids are listed, each reports once whether it is connected, and the
/// reports are applied. Afterwards the known set is the old one with the fresh
/// ids, and the connected set is exactly the known ids whose report says
/// connected.
pub proof fn law_get_devices_round(
    known0: Set<Seq<char>>,
    connected0: Set<Seq<char>>,
    fresh: Seq<String>,
    ids: Seq<String>,
    snaps: Seq<PeripheralSnapshot>,
)
    requires
        connected0.subset_of(known0),
        id_set(ids) == known0.union(id_set(fresh)),
        distinct_ids(ids),
        snaps.len() == ids.len(),
        forall|i: int| 0 <= i < ids.len() ==> (#[trigger] snaps[i]).id@ == ids[i]@,
    ensures
        ({
            let known = known0.union(id_set(fresh));
            let connected = connection_updates(connected0, snaps);
            &&& known.union(connected_report_ids(snaps)) == known
            &&& connected.subset_of(known)
            &&& connected == connected_report_ids(snaps)
            &&& forall|i: int| 0 <= i < snaps.len() ==> connected.contains((#[trigger] snaps[i]).id@)
                == snaps[i].is_connected
        }),
{
    law_reports_of_known_ids(ids, snaps);
    law_refresh_round(connected0, known0.union(id_set(fresh)), snaps);
}

/// The state the BLE manager keeps besides its handles: the ids of the
/// peripherals it knows, those it holds as connected, and whether it scans.
/// Every connected id is known, and no id is held twice.
pub struct PeripheralRegistry {
    known: Vec<String>,
    connected: Vec<String>,
    scanning: bool,
}

impl PeripheralRegistry {
    /// The registry's invariant: no id twice, every connected id known.
    pub closed spec fn wf(&self) -> bool {
        &&& distinct_ids(self.known@)
        &&& distinct_ids(self.connected@)
        &&& id_set(self.connected@).subset_of(id_set(self.known@))
    }

    /// The ids of the known peripherals.
    pub closed spec fn known(&self) -> Set<Seq<char>> {
        id_set(self.known@)
    }

    /// The ids of the peripherals held as connected.
    pub closed spec fn connected(&self) -> Set<Seq<char>> {
        id_set(self.connected@)
    }

    /// Whether a scan is running.
    pub closed spec fn scanning(&self) -> bool {
        self.scanning
    }

    /// Every peripheral held as connected is known.
    pub proof fn law_connected_are_known(&self)
        requires
            self.wf(),
        ensures
            self.connected().subset_of(self.known()),
    {
    }

    /// An empty registry: nothing known, nothing connected, no scan.
    pub fn new() -> (r: PeripheralRegistry)
        ensures
            r.known() == Set::<Seq<char>>::empty(),
            r.connected() == Set::<Seq<char>>::empty(),
            !r.scanning(),
            r.wf(),
            r.connected().subset_of(r.known()),
    {
        let r = PeripheralRegistry { known: Vec::new(), connected: Vec::new(), scanning: false };
        assert(id_set(r.known@) =~= Set::<Seq<char>>::empty());
        assert(id_set(r.connected@) =~= Set::<Seq<char>>::empty());
        r
    }

    /// Whether a scan is running.
    pub fn is_scanning(&self) -> (b: bool)
        ensures
            b == self.scanning(),
    {
        self.scanning
    }

    /// Whether the peripheral `id` is known.
    pub fn is_known(&self, id: &str) -> (b: bool)
        requires
            self.wf(),
        ensures
            b == self.known().contains(id@),
    {
        proof {
            lemma_id_set_contains(self.known@, id@);
        }
        position_of(&self.known, id).is_some()
    }

    /// Whether the peripheral `id` is held as connected.
    pub fn is_marked_connected(&self, id: &str) -> (b: bool)
        requires
            self.wf(),
        ensures
            b == self.connected().contains(id@),
    {
        proof {
            lemma_id_set_contains(self.connected@, id@);
        }
        position_of(&self.connected, id).is_some()
    }

    /// The ids of the known peripherals, each once.
    pub fn known_ids(&self) -> (r: Vec<String>)
        requires
            self.wf(),
        ensures
            id_set(r@) == self.known(),
            distinct_ids(r@),
    {
        let r = self.known.clone();
        proof {
            assert forall|i: int| 0 <= i < r@.len() implies r@[i] == self.known@[i] by {
                assert(cloned::<String>(self.known@[i], r@[i]));
            }
            assert(r@ =~= self.known@);
        }
        r
    }

    /// Records a peripheral as known and connected (after a successful connect,
    /// or when the adapter reports it connected).
    pub fn mark_connected(&mut self, id: &str)
        requires
            old(self).wf(),
        ensures
            final(self).wf(),
            final(self).known() == old(self).known().insert(id@),
            final(self).connected() == old(self).connected().insert(id@),
            final(self).connected().subset_of(final(self).known()),
            final(self).scanning() == old(self).scanning(),
    {
        proof {
                        lemma_id_set_contains(self.known@, id@);
            lemma_id_set_contains(self.connected@, id@);
        }
        if position_of(&self.known, id).is_none() {
            let ghost before = self.known@;
            let s = id.to_owned();
            self.known.push(s);
            proof {
                lemma_id_set_push(before, s);
            }
        } else {
            assert(id_set(self.known@).insert(id@) =~= id_set(self.known@));
        }
        if position_of(&self.connected, id).is_none() {
            let ghost before = self.connected@;
            let s = id.to_owned();
            self.connected.push(s);
            proof {
                lemma_id_set_push(before, s);
            }
        } else {
            assert(id_set(self.connected@).insert(id@) =~= id_set(self.connected@));
        }
    }

    /// Records a peripheral as known.
    pub fn mark_known(&mut self, id: &str)
        requires
            old(self).wf(),
        ensures
            final(self).wf(),
            final(self).known() == old(self).known().insert(id@),
            final(self).connected() == old(self).connected(),
            final(self).connected().subset_of(final(self).known()),
            final(self).scanning() == old(self).scanning(),
    {
        proof {
                        lemma_id_set_contains(self.known@, id@);
        }
        if position_of(&self.known, id).is_none() {
            let ghost before = self.known@;
            let s = id.to_owned();
            self.known.push(s);
            proof {
                lemma_id_set_push(before, s);
            }
        } else {
            assert(id_set(self.known@).insert(id@) =~= id_set(self.known@));
        }
    }

    /// Records that a peripheral is no longer connected; it stays known.
    pub fn mark_disconnected(&mut self, id: &str)
        requires
            old(self).wf(),
        ensures
            final(self).wf(),
            final(self).known() == old(self).known(),
            final(self).connected() == old(self).connected().remove(id@),
            final(self).connected().subset_of(final(self).known()),
            final(self).scanning() == old(self).scanning(),
    {
        proof {
                        lemma_id_set_contains(self.connected@, id@);
        }
        match position_of(&self.connected, id) {
            Some(k) => {
                let ghost before = self.connected@;
                self.connected.remove(k);
                proof {
                    lemma_id_set_remove(before, k as int);
                }
            },
            None => {
                assert(id_set(self.connected@).remove(id@) =~= id_set(self.connected@));
            },
        }
    }
    /// Marks the start of a scan.
    pub fn start_scan(&mut self)
        requires
            old(self).wf(),
        ensures
            final(self).wf(),
            final(self).known() == old(self).known(),
            final(self).connected() == old(self).connected(),
            final(self).scanning(),
    {
        self.scanning = true;
    }

    /// What stopping the scan has to do: nothing when no scan runs, else stop
    /// the adapter's scan when an adapter is held, and clear the flag.
    pub fn stop_scan_action(&self, has_adapter: bool) -> (a: StopScanAction)
        ensures
            a == (if !self.scanning() {
                StopScanAction::Nothing
            } else if has_adapter {
                StopScanAction::StopAdapter
            } else {
                StopScanAction::ClearFlag
            }),
    {
        if !self.scanning {
            StopScanAction::Nothing
        } else if has_adapter {
            StopScanAction::StopAdapter
        } else {
            StopScanAction::ClearFlag
        }
    }

    /// Marks the end of the scan (once the adapter, if any, has stopped it).
    pub fn finish_stop_scan(&mut self)
        requires
            old(self).wf(),
        ensures
            final(self).wf(),
            final(self).known() == old(self).known(),
            final(self).connected() == old(self).connected(),
            !final(self).scanning(),
    {
        self.scanning = false;
    }

    /// Which peripheral `connect` uses: the first of the adapter's fresh list
    /// with that id, else a known one; an unknown id is "Device not found".
    pub fn connect_source(&self, id: &str, fresh_ids: &Vec<String>) -> (r: Result<
        PeripheralSource,
        BleError,
    >)
        requires
            self.wf(),
        ensures
            match r {
                Ok(PeripheralSource::Fresh(i)) => i < fresh_ids@.len() && fresh_ids@[i as int]@ == id@
                    && forall|j: int| 0 <= j < i ==> (#[trigger] fresh_ids@[j])@ != id@,
                Ok(PeripheralSource::Known) => (forall|j: int|
                    0 <= j < fresh_ids@.len() ==> (#[trigger] fresh_ids@[j])@ != id@)
                    && self.known().contains(id@),
                Err(e) => (forall|j: int|
                    0 <= j < fresh_ids@.len() ==> (#[trigger] fresh_ids@[j])@ != id@)
                    && !self.known().contains(id@) && e@ == "Device not found"@,
            },
    {
        match position_of(fresh_ids, id) {
            Some(i) => Ok(PeripheralSource::Fresh(i)),
            None => {
                if self.is_known(id) {
                    Ok(PeripheralSource::Known)
                } else {
                    Err(ble_error("Device not found"))
                }
            },
        }
    }

    /// Whether `disconnect` may proceed: only a known peripheral can be
    /// disconnected, else "Peripheral not found".
    pub fn check_disconnect(&self, id: &str) -> (r: Result<(), BleError>)
        requires
            self.wf(),
        ensures
            r is Ok <==> self.known().contains(id@),
            r matches Err(e) ==> e@ == "Peripheral not found"@,
    {
        if self.is_known(id) {
            Ok(())
        } else {
            Err(ble_error("Peripheral not found"))
        }
    }

    /// Characteristic access needs a connected peripheral, else "Device not
    /// connected".
    pub fn require_connected(&self, id: &str) -> (r: Result<(), BleError>)
        requires
            self.wf(),
        ensures
            r is Ok <==> self.connected().contains(id@),
            r matches Err(e) ==> e@ == "Device not connected"@,
    {
        if self.is_marked_connected(id) {
            Ok(())
        } else {
            Err(ble_error("Device not connected"))
        }
    }

    /// The outcome of refreshing a peripheral from the adapter's fresh list:
    /// when the list holds it and it reports connected, it is recorded as known
    /// and connected; otherwise "Device not found or disconnected", and nothing
    /// changes.
    pub fn apply_refresh(&mut self, id: &str, found_connected: bool) -> (r: Result<(), BleError>)
        requires
            old(self).wf(),
        ensures
            final(self).wf(),
            final(self).connected().subset_of(final(self).known()),
            final(self).scanning() == old(self).scanning(),
            r is Ok <==> found_connected,
            found_connected ==> final(self).known() == old(self).known().insert(id@)
                && final(self).connected() == old(self).connected().insert(id@),
            !found_connected ==> final(self).known() == old(self).known() && final(self).connected()
                == old(self).connected(),
            r matches Err(e) ==> e@ == "Device not found or disconnected"@,
    {
        if found_connected {
            self.mark_connected(id);
            Ok(())
        } else {
            Err(ble_error("Device not found or disconnected"))
        }
    }

    /// The answer of `is_connected` once confirmed: a peripheral that could not
    /// be confirmed connected is dropped from the connected set.
    pub fn settle_connection(&mut self, id: &str, confirmed: bool) -> (b: bool)
        requires
            old(self).wf(),
        ensures
            final(self).wf(),
            final(self).connected().subset_of(final(self).known()),
            b == confirmed,
            final(self).known() == old(self).known(),
            final(self).scanning() == old(self).scanning(),
            final(self).connected() == (if confirmed {
                old(self).connected()
            } else {
                old(self).connected().remove(id@)
            }),
    {
        if !confirmed {
            self.mark_disconnected(id);
        }
        confirmed
    }

    /// Lists the services of a connected peripheral; "Device not connected"
    /// otherwise.
    pub fn list_characteristics(&self, id: &str, services: &Vec<ServiceInfo>) -> (r: Result<
        Vec<UiService>,
        BleError,
    >)
        requires
            self.wf(),
        ensures
            r is Ok <==> self.connected().contains(id@),
            r matches Err(e) ==> e@ == "Device not connected"@,
            r matches Ok(v) ==> v@.len() == services@.len() && forall|i: int|
                0 <= i < v@.len() ==> lists_service(#[trigger] v@[i], services@[i]),
    {
        self.require_connected(id)?;
        Ok(list_ui_services(services))
    }

    /// Records the peripherals of the adapter's fresh list as known.
    pub fn record_peripherals(&mut self, ids: &Vec<String>)
        requires
            old(self).wf(),
        ensures
            final(self).wf(),
            final(self).connected().subset_of(final(self).known()),
            final(self).known() == old(self).known().union(id_set(ids@)),
            final(self).connected() == old(self).connected(),
            final(self).scanning() == old(self).scanning(),
    {
        let mut i: usize = 0;
        while i < ids.len()
            invariant
                i <= ids@.len(),
                self.wf(),
                self.known() == old(self).known().union(id_set(ids@.subrange(0, i as int))),
                self.connected() == old(self).connected(),
                self.scanning() == old(self).scanning(),
            decreases ids@.len() - i,
        {
            self.mark_known(ids[i].as_str());
            proof {
                assert(ids@.subrange(0, i + 1) =~= ids@.subrange(0, i as int).push(ids@[i as int]));
                lemma_id_set_push(ids@.subrange(0, i as int), ids@[i as int]);
            }
            i = i + 1;
        }
        proof {
            assert(ids@.subrange(0, ids@.len() as int) =~= ids@);
            assert(old(self).known().union(id_set(ids@)) =~= self.known());
        }
    }

    /// Updates the connected set from the adapter's reports, in order: a report
    /// of a connected peripheral records it as known and connected, any other
    /// report drops it from the connected set.
    pub fn apply_snapshots(&mut self, snaps: &Vec<PeripheralSnapshot>)
        requires
            old(self).wf(),
        ensures
            final(self).wf(),
            final(self).connected().subset_of(final(self).known()),
            final(self).known() == old(self).known().union(connected_report_ids(snaps@)),
            final(self).connected() == connection_updates(old(self).connected(), snaps@),
            final(self).scanning() == old(self).scanning(),
            reports_cover_once(old(self).known(), snaps@) ==> final(self).known() == old(self).known()
                && final(self).connected() == connected_report_ids(snaps@) && forall|i: int|
                0 <= i < snaps@.len() ==> final(self).connected().contains((#[trigger] snaps@[i]).id@)
                == snaps@[i].is_connected,
    {
        let mut i: usize = 0;
        while i < snaps.len()
            invariant
                i <= snaps@.len(),
                self.wf(),
                self.known() == old(self).known().union(connected_report_ids(snaps@.subrange(0, i as int))),
                self.connected() == connection_updates(old(self).connected(), snaps@.subrange(0, i as int)),
                self.scanning() == old(self).scanning(),
            decreases snaps@.len() - i,
        {
            let s = &snaps[i];
            if s.is_connected {
                self.mark_connected(s.id.as_str());
            } else {
                self.mark_disconnected(s.id.as_str());
            }
            proof {
                let pre = snaps@.subrange(0, i as int);
                let post = snaps@.subrange(0, i + 1);
                assert(post =~= pre.push(snaps@[i as int]));
                assert(post.drop_last() =~= pre);
                if s.is_connected {
                    assert(connected_report_ids(post) == connected_report_ids(pre).insert(s.id@));
                    assert(old(self).known().union(connected_report_ids(post)) =~= old(self).known().union(connected_report_ids(pre)).insert(s.id@));
                } else {
                    assert(connected_report_ids(post) == connected_report_ids(pre));
                }
            }
            i = i + 1;
        }
        proof {
            assert(snaps@.subrange(0, snaps@.len() as int) =~= snaps@);
            if reports_cover_once(old(self).known(), snaps@) {
                law_refresh_round(old(self).connected(), old(self).known(), snaps@);
            }
        }
    }
}

/// Disconnecting undoes connecting, except that the peripheral stays known: a
/// registry that records `id` as connected and then as disconnected holds the
/// same connected set as before, with `id` left out, and knows `id`.
pub proof fn law_disconnect_after_connect(
    r1: PeripheralRegistry,
    r2: PeripheralRegistry,
    r3: PeripheralRegistry,
    id: Seq<char>,
)
    requires
        r2.known() == r1.known().insert(id),
        r2.connected() == r1.connected().insert(id),
        r3.known() == r2.known(),
        r3.connected() == r2.connected().remove(id),
    ensures
        r3.connected() == r1.connected().remove(id),
        r3.known().contains(id),
        !r3.connected().contains(id),
{
    assert(r3.connected() =~= r1.connected().remove(id));
}

// ---------------------------------------------------------------------------
// Retry protocol of characteristic access
// ---------------------------------------------------------------------------

/// How characteristic access retries: reads and writes may refresh the
/// peripheral before the first attempt and again after a failed attempt;
/// subscriptions refresh at most once.
#[derive(Debug, Clone, Copy, PartialEq, Eq, Structural)]
pub enum RetryPolicy {
    /// `read` and `write`.
    ReadWrite,
    /// `subscribe`.
    Subscribe,
}

/// The step of an access whose outcome is awaited.
#[derive(Debug, Clone, Copy, PartialEq, Eq, Structural)]
pub enum AccessStep {
    /// The first lookup of the characteristic.
    Lookup,
    /// The refresh after the first lookup failed.
    RefreshAfterLookup,
    /// The lookup after that refresh.
    LookupAfterRefresh,
    /// The first attempt at the operation.
    Operate,
    /// The refresh before the last attempt.
    RefreshAfterOperate,
    /// The lookup before the last attempt.
    FinalLookup,
    /// The last attempt at the operation.
    FinalOperate,
    /// The access is over.
    Done,
}

/// What the BLE manager does next.
#[derive(Debug, Clone, Copy, PartialEq, Eq, Structural)]
pub enum AccessAction {
    /// Look the characteristic up on the connected peripheral.
    Lookup,
    /// Refresh the peripheral from the adapter.
    Refresh,
    /// Perform the read, write or subscription.
    Operate,
    /// Return the operation's result.
    Succeed,
    /// Return the error of the outcome just reported.
    Fail,
}

/// The transition table of characteristic access: from the awaited step and
/// whether it succeeded, the next awaited step and the action to take.
pub open spec fn access_next(policy: RetryPolicy, step: AccessStep, ok: bool) -> (AccessStep, AccessAction) {
    match step {
        AccessStep::Lookup => if ok {
            (AccessStep::Operate, AccessAction::Operate)
        } else {
            match policy {
                RetryPolicy::ReadWrite => (AccessStep::RefreshAfterLookup, AccessAction::Refresh),
                RetryPolicy::Subscribe => (AccessStep::RefreshAfterOperate, AccessAction::Refresh),
            }
        },
        AccessStep::RefreshAfterLookup => if ok {
            (AccessStep::LookupAfterRefresh, AccessAction::Lookup)
        } else {
            (AccessStep::Done, AccessAction::Fail)
        },
        AccessStep::LookupAfterRefresh => if ok {
            (AccessStep::Operate, AccessAction::Operate)
        } else {
            (AccessStep::Done, AccessAction::Fail)
        },
        AccessStep::Operate => if ok {
            (AccessStep::Done, AccessAction::Succeed)
        } else {
            (AccessStep::RefreshAfterOperate, AccessAction::Refresh)
        },
        AccessStep::RefreshAfterOperate => if ok {
            (AccessStep::FinalLookup, AccessAction::Lookup)
        } else {
            (AccessStep::Done, AccessAction::Fail)
        },
        AccessStep::FinalLookup => if ok {
            (AccessStep::FinalOperate, AccessAction::Operate)
        } else {
            (AccessStep::Done, AccessAction::Fail)
        },
        AccessStep::FinalOperate => if ok {
            (AccessStep::Done, AccessAction::Succeed)
        } else {
            (AccessStep::Done, AccessAction::Fail)
        },
        AccessStep::Done => (AccessStep::Done, if ok {
            AccessAction::Succeed
        } else {
            AccessAction::Fail
        }),
    }
}

/// Every access starts by looking the characteristic up.
pub fn access_start() -> (r: (AccessStep, AccessAction))
    ensures
        r == (AccessStep::Lookup, AccessAction::Lookup),
{
    (AccessStep::Lookup, AccessAction::Lookup)
}

/// The next step of a characteristic access, given whether the awaited step
/// succeeded.
pub fn access_next_step(policy: RetryPolicy, step: AccessStep, ok: bool) -> (r: (AccessStep, AccessAction))
    ensures
        r == access_next(policy, step, ok),
{
    match step {
        AccessStep::Lookup => if ok {
            (AccessStep::Operate, AccessAction::Operate)
        } else {
            match policy {
                RetryPolicy::ReadWrite => (AccessStep::RefreshAfterLookup, AccessAction::Refresh),
                RetryPolicy::Subscribe => (AccessStep::RefreshAfterOperate, AccessAction::Refresh),
            }
        },
        AccessStep::RefreshAfterLookup => if ok {
            (AccessStep::LookupAfterRefresh, AccessAction::Lookup)
        } else {
            (AccessStep::Done, AccessAction::Fail)
        },
        AccessStep::LookupAfterRefresh => if ok {
            (AccessStep::Operate, AccessAction::Operate)
        } else {
            (AccessStep::Done, AccessAction::Fail)
        },
        AccessStep::Operate => if ok {
            (AccessStep::Done, AccessAction::Succeed)
        } else {
            (AccessStep::RefreshAfterOperate, AccessAction::Refresh)
        },
        AccessStep::RefreshAfterOperate => if ok {
            (AccessStep::FinalLookup, AccessAction::Lookup)
        } else {
            (AccessStep::Done, AccessAction::Fail)
        },
        AccessStep::FinalLookup => if ok {
            (AccessStep::FinalOperate, AccessAction::Operate)
        } else {
            (AccessStep::Done, AccessAction::Fail)
        },
        AccessStep::FinalOperate => if ok {
            (AccessStep::Done, AccessAction::Succeed)
        } else {
            (AccessStep::Done, AccessAction::Fail)
        },
        AccessStep::Done => (AccessStep::Done, if ok {
            AccessAction::Succeed
        } else {
            AccessAction::Fail
        }),
    }
}

/// How many more actions an access can take from an awaited step.
pub open spec fn access_budget(step: AccessStep) -> nat {
    match step {
        AccessStep::Lookup => 6,
        AccessStep::RefreshAfterLookup => 5,
        AccessStep::LookupAfterRefresh => 4,
        AccessStep::Operate => 3,
        AccessStep::RefreshAfterOperate => 2,
        AccessStep::FinalLookup => 1,
        AccessStep::FinalOperate => 0,
        AccessStep::Done => 0,
    }
}

/// How many more refreshes an access can ask for from an awaited step.
pub open spec fn refreshes_left(policy: RetryPolicy, step: AccessStep) -> nat {
    match step {
        AccessStep::Lookup => match policy {
            RetryPolicy::ReadWrite => 2,
            RetryPolicy::Subscribe => 1,
        },
        AccessStep::RefreshAfterLookup => 1,
        AccessStep::LookupAfterRefresh => 1,
        AccessStep::Operate => 1,
        _ => 0,
    }
}

/// Characteristic access always ends: every step that does not end the access
/// leads to a step with a smaller budget, so an access takes at most seven
/// actions, the first lookup included.
pub proof fn law_access_terminates(policy: RetryPolicy, step: AccessStep, ok: bool)
    requires
        step != AccessStep::Done,
    ensures
        ({
            let (next, action) = access_next(policy, step, ok);
            (action == AccessAction::Succeed || action == AccessAction::Fail) <==> next == AccessStep::Done
        }),
        ({
            let (next, action) = access_next(policy, step, ok);
            next != AccessStep::Done ==> access_budget(next) < access_budget(step)
        }),
{
}

/// Reads and writes refresh the peripheral at most twice, subscriptions at
/// most once: asking for a refresh uses up one of those left, no other action
/// adds any.
pub proof fn law_access_refresh_bound(policy: RetryPolicy, step: AccessStep, ok: bool)
    ensures
        refreshes_left(RetryPolicy::ReadWrite, AccessStep::Lookup) == 2,
        refreshes_left(RetryPolicy::Subscribe, AccessStep::Lookup) == 1,
        ({
            let (next, action) = access_next(policy, step, ok);
            if action == AccessAction::Refresh {
                refreshes_left(policy, next) + 1 <= refreshes_left(policy, step)
            } else {
                refreshes_left(policy, next) <= refreshes_left(policy, step)
            }
        }),
{
}

/// An access succeeds exactly when an attempt at the operation succeeds, and
/// fails only on a failed outcome.
pub proof fn law_access_outcome(policy: RetryPolicy, step: AccessStep, ok: bool)
    requires
        step != AccessStep::Done,
    ensures
        access_next(policy, step, ok).1 == AccessAction::Succeed <==> ok && (step
            == AccessStep::Operate || step == AccessStep::FinalOperate),
        access_next(policy, step, ok).1 == AccessAction::Fail ==> !ok,
{
}

/// The order of the actions of an access: the operation is attempted only right
/// after a lookup found the characteristic; a lookup is asked for only after a
/// refresh succeeded (the first lookup aside); a refresh only after the first
/// lookup or the first attempt failed; and a failed refresh, a failed lookup
/// after a refresh, or a failed last attempt ends the access with a failure.
pub proof fn law_access_order(policy: RetryPolicy, step: AccessStep, ok: bool)
    ensures
        access_next(policy, step, ok).1 == AccessAction::Operate ==> ok && (step == AccessStep::Lookup
            || step == AccessStep::LookupAfterRefresh || step == AccessStep::FinalLookup),
        access_next(policy, step, ok).1 == AccessAction::Lookup ==> ok && (step
            == AccessStep::RefreshAfterLookup || step == AccessStep::RefreshAfterOperate),
        access_next(policy, step, ok).1 == AccessAction::Refresh ==> !ok && (step == AccessStep::Lookup
            || step == AccessStep::Operate),
        !ok && (step == AccessStep::RefreshAfterLookup || step == AccessStep::LookupAfterRefresh || step
            == AccessStep::RefreshAfterOperate || step == AccessStep::FinalLookup || step
            == AccessStep::FinalOperate) ==> access_next(policy, step, ok) == (
            AccessStep::Done,
            AccessAction::Fail,
        ),
        !ok && (step == AccessStep::Lookup || step == AccessStep::Operate) ==> access_next(
            policy,
            step,
            ok,
        ).1 == AccessAction::Refresh,
        ok && step == AccessStep::Lookup ==> access_next(policy, step, ok) == (
            AccessStep::Operate,
            AccessAction::Operate,
        ),
{
}

} // verus!
