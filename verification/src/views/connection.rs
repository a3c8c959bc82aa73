//! The connection page: automatic connection after a scan, and what the device
//! list shows.
use vstd::prelude::*;
use crate::api::{UiDevice, UiService, string_views};
use crate::api::ble::{distinct_ids, id_set, lemma_id_set_contains, lemma_id_set_push, lemma_id_set_remove, position_of};
use crate::context::{Theme, toggled};
use crate::text::{concat, contains_str, decimal_of, decimal_text};
use crate::views::status::SERVICE_UUID;

verus! {

/// Whether a device advertises the sensor service.
pub open spec fn advertises_sensor(d: UiDevice) -> bool {
    exists|j: int| 0 <= j < d.services@.len() && (#[trigger] d.services@[j])@ == SERVICE_UUID@
}

/// The device a scan connects to on its own: while no device is selected and
/// no connection is under way, the first listed device that advertises the
/// sensor service.
pub fn auto_connect_target(devices: &Vec<UiDevice>, connected_id: &str, is_connecting: bool) -> (r:
    Option<usize>)
    ensures
        (connected_id@.len() > 0 || is_connecting) ==> r is None,
        (connected_id@.len() == 0 && !is_connecting) ==> match r {
            Some(i) => i < devices@.len() && advertises_sensor(devices@[i as int]) && forall|j: int|
                0 <= j < i ==> !advertises_sensor(#[trigger] devices@[j]),
            None => forall|j: int| 0 <= j < devices@.len() ==> !advertises_sensor(#[trigger] devices@[j]),
        },
{
    if !connected_id.is_empty() || is_connecting {
        return None;
    }
    let mut i: usize = 0;
    while i < devices.len()
        invariant
            i <= devices@.len(),
            connected_id@.len() == 0,
            !is_connecting,
            forall|j: int| 0 <= j < i ==> !advertises_sensor(#[trigger] devices@[j]),
        decreases devices@.len() - i,
    {
        if contains_str(&devices[i].services, SERVICE_UUID) {
            return Some(i);
        }
        i = i + 1;
    }
    None
}

/// What the scan loop does next.
#[derive(Debug, Clone, Copy, PartialEq, Eq, Structural)]
pub enum ScanAction {
    /// The scan time is over: stop scanning.
    Stop,
    /// Connect to the device at this index of the batch, and stop scanning.
    ConnectTo(usize),
    /// Show the batch as the device list and go on scanning.
    Show,
}

/// One step of the scan loop: on timeout (`None`) stop; on a batch of
/// devices, connect to the automatic target when there is one, else show the
/// batch.
pub fn scan_step(batch: Option<&Vec<UiDevice>>, connected_id: &str, is_connecting: bool) -> (a: ScanAction)
    ensures
        batch is None ==> a == ScanAction::Stop,
        batch is Some ==> a != ScanAction::Stop,
        batch is Some && a is ConnectTo ==> ({
            let devices = batch->Some_0@;
            let i = a->ConnectTo_0 as int;
            &&& connected_id@.len() == 0 && !is_connecting
            &&& i < devices.len() && advertises_sensor(devices[i])
            &&& forall|j: int| 0 <= j < i ==> !advertises_sensor(#[trigger] devices[j])
        }),
        batch is Some && a == ScanAction::Show ==> (connected_id@.len() > 0 || is_connecting || forall|j: int|
            0 <= j < batch->Some_0@.len() ==> !advertises_sensor(#[trigger] batch->Some_0@[j])),
{
    match batch {
        None => ScanAction::Stop,
        Some(devices) => match auto_connect_target(devices, connected_id, is_connecting) {
            Some(i) => ScanAction::ConnectTo(i),
            None => ScanAction::Show,
        },
    }
}

/// The device list is refreshed periodically only while neither a scan nor a
/// connection is under way.
pub fn should_refresh_devices(is_scanning: bool, is_connecting: bool) -> (b: bool)
    ensures
        b == (!is_scanning && !is_connecting),
{
    !is_scanning && !is_connecting
}

/// Flips whether `id` is in a set of ids (an expanded device or service).
pub fn toggle_id(set: &mut Vec<String>, id: &str)
    requires
        distinct_ids(old(set)@),
    ensures
        distinct_ids(final(set)@),
        id_set(old(set)@).contains(id@) ==> id_set(final(set)@) == id_set(old(set)@).remove(id@),
        !id_set(old(set)@).contains(id@) ==> id_set(final(set)@) == id_set(old(set)@).insert(id@),
{
    match position_of(set, id) {
        Some(k) => {
            let ghost before = set@;
            set.remove(k);
            proof {
                lemma_id_set_remove(before, k as int);
                lemma_id_set_contains(before, id@);
            }
        },
        None => {
            let ghost before = set@;
            proof {
                assert(!id_set(before).contains(id@)) by {
                    if id_set(before).contains(id@) {
                        let i = choose|i: int| 0 <= i < string_views(before).len() && string_views(before)[i] == id@;
                        assert(before[i]@ == id@);
                    }
                }
            }
            let s = id.to_owned();
            set.push(s);
            proof {
                lemma_id_set_push(before, s);
                assert forall|i: int, j: int| 0 <= i < j < set@.len() implies (#[trigger] set@[i])@ != (#[trigger] set@[j])@ by {
                    if j == set@.len() - 1 {
                        assert(set@[i] == before[i]);
                    } else {
                        assert(set@[i] == before[i]);
                        assert(set@[j] == before[j]);
                    }
                }
            }
        },
    }
}

/// Adds `id` to a set of ids.
pub fn insert_id(set: &mut Vec<String>, id: &str)
    requires
        distinct_ids(old(set)@),
    ensures
        distinct_ids(final(set)@),
        id_set(final(set)@) == id_set(old(set)@).insert(id@),
{
    match position_of(set, id) {
        Some(_) => {
            proof {
                lemma_id_set_contains(set@, id@);
                assert(id_set(set@).insert(id@) =~= id_set(set@));
            }
        },
        None => {
            let ghost before = set@;
            let s = id.to_owned();
            set.push(s);
            proof {
                lemma_id_set_push(before, s);
                assert forall|i: int, j: int| 0 <= i < j < set@.len() implies (#[trigger] set@[i])@ != (#[trigger] set@[j])@ by {
                    assert(set@[i] == before[i]);
                    if j < set@.len() - 1 {
                        assert(set@[j] == before[j]);
                    }
                }
            }
        },
    }
}

/// Removes `id` from a set of ids.
pub fn remove_id(set: &mut Vec<String>, id: &str)
    requires
        distinct_ids(old(set)@),
    ensures
        distinct_ids(final(set)@),
        id_set(final(set)@) == id_set(old(set)@).remove(id@),
{
    match position_of(set, id) {
        Some(k) => {
            let ghost before = set@;
            set.remove(k);
            proof {
                lemma_id_set_remove(before, k as int);
            }
        },
        None => {
            proof {
                assert(id_set(set@).remove(id@) =~= id_set(set@)) by {
                    if id_set(set@).contains(id@) {
                        let i = choose|i: int| 0 <= i < string_views(set@).len() && string_views(set@)[i] == id@;
                        assert(set@[i]@ == id@);
                    }
                }
            }
        },
    }
}

/// The status badge of a device entry (label, classes) for its connection
/// state and the theme.
pub open spec fn status_badge(is_connected: bool, theme: Theme) -> (Seq<char>, Seq<char>) {
    if is_connected {
        if theme == Theme::Dark {
            ("已连接"@, "bg-emerald-500/15 text-emerald-300 border border-emerald-500/30"@)
        } else {
            ("已连接"@, "bg-emerald-100 text-emerald-700 border border-emerald-300"@)
        }
    } else if theme == Theme::Dark {
        ("未连接"@, "bg-slate-500/15 text-slate-300 border border-slate-500/30"@)
    } else {
        ("未连接"@, "bg-slate-100 text-slate-600 border border-slate-300"@)
    }
}

/// The badge's label says the connection state and nothing else: "已连接"
/// (connected) exactly when the device is connected, "未连接" (not connected)
/// otherwise, whatever the theme; its classes are green for a connected device
/// and slate otherwise.
pub proof fn law_status_badge_label(is_connected: bool, theme: Theme)
    ensures
        is_connected ==> status_badge(is_connected, theme).0 == "已连接"@,
        !is_connected ==> status_badge(is_connected, theme).0 == "未连接"@,
        status_badge(is_connected, theme).0 == status_badge(is_connected, toggled(theme)).0,
        "已连接"@ != "未连接"@,
        is_connected ==> status_badge(is_connected, theme).1.subrange(0, 11) == "bg-emerald-"@,
        !is_connected ==> status_badge(is_connected, theme).1.subrange(0, 9) == "bg-slate-"@,
{
    reveal_strlit("已连接");
    reveal_strlit("未连接");
    reveal_strlit("bg-emerald-");
    reveal_strlit("bg-slate-");
    reveal_strlit("bg-emerald-500/15 text-emerald-300 border border-emerald-500/30");
    reveal_strlit("bg-emerald-100 text-emerald-700 border border-emerald-300");
    reveal_strlit("bg-slate-500/15 text-slate-300 border border-slate-500/30");
    reveal_strlit("bg-slate-100 text-slate-600 border border-slate-300");
    assert("已连接"@[0] != "未连接"@[0]);
    assert("bg-emerald-500/15 text-emerald-300 border border-emerald-500/30"@.subrange(0, 11) =~= "bg-emerald-"@);
    assert("bg-emerald-100 text-emerald-700 border border-emerald-300"@.subrange(0, 11) =~= "bg-emerald-"@);
    assert("bg-slate-500/15 text-slate-300 border border-slate-500/30"@.subrange(0, 9) =~= "bg-slate-"@);
    assert("bg-slate-100 text-slate-600 border border-slate-300"@.subrange(0, 9) =~= "bg-slate-"@);
}

/// The status badge of a device entry.
pub fn device_status_badge(is_connected: bool, theme: Theme) -> (r: (&'static str, &'static str))
    ensures
        (r.0@, r.1@) == status_badge(is_connected, theme),
{
    if is_connected {
        if theme.is_dark() {
            ("已连接", "bg-emerald-500/15 text-emerald-300 border border-emerald-500/30")
        } else {
            ("已连接", "bg-emerald-100 text-emerald-700 border border-emerald-300")
        }
    } else if theme.is_dark() {
        ("未连接", "bg-slate-500/15 text-slate-300 border border-slate-500/30")
    } else {
        ("未连接", "bg-slate-100 text-slate-600 border border-slate-300")
    }
}

/// The signal strength shown for a device: "<rssi> dBm", or "未知" (unknown).
pub fn rssi_label(rssi: Option<i16>) -> (r: String)
    ensures
        rssi is Some ==> r@ == decimal_text(rssi->Some_0 as int) + " dBm"@,
        rssi is None ==> r@ == "未知"@,
{
    match rssi {
        Some(v) => {
            let t = decimal_of(v as i32);
            concat(t.as_str(), " dBm")
        },
        None => "未知".to_owned(),
    }
}

/// The texts of a sequence joined with ", ".
pub open spec fn comma_joined(s: Seq<Seq<char>>) -> Seq<char>
    decreases s.len(),
{
    if s.len() == 0 {
        Seq::empty()
    } else if s.len() == 1 {
        s[0]
    } else {
        comma_joined(s.drop_last()) + ", "@ + s.last()
    }
}

/// The properties cell of a characteristic: "—" when it has none, else the
/// property names joined with ", ".
pub fn properties_text(props: &Vec<String>) -> (r: String)
    ensures
        props@.len() == 0 ==> r@ == "—"@,
        props@.len() > 0 ==> r@ == comma_joined(string_views(props@)),
{
    if props.len() == 0 {
        return "—".to_owned();
    }
    let mut r = props[0].clone();
    let mut i: usize = 1;
    proof {
        assert(string_views(props@).subrange(0, 1).len() == 1);
    }
    while i < props.len()
        invariant
            1 <= i <= props@.len(),
            r@ == comma_joined(string_views(props@).subrange(0, i as int)),
        decreases props@.len() - i,
    {
        let ghost pre = string_views(props@).subrange(0, i as int);
        let ghost post = string_views(props@).subrange(0, i + 1);
        let with_sep = concat(r.as_str(), ", ");
        r = concat(with_sep.as_str(), props[i].as_str());
        proof {
            assert(post.drop_last() =~= pre);
            assert(post.last() == props@[i as int]@);
        }
        i = i + 1;
    }
    assert(string_views(props@).subrange(0, props@.len() as int) =~= string_views(props@));
    r
}

/// Joining is made of its parts: a single text is shown as it is, and the
/// join of two non-empty lists one after the other is the join of the first,
/// ", ", and the join of the second.
pub proof fn law_comma_joined_concat(s: Seq<Seq<char>>, t: Seq<Seq<char>>)
    requires
        s.len() > 0,
        t.len() > 0,
    ensures
        comma_joined(seq![t[0]]) == t[0],
        comma_joined(s + t) == comma_joined(s) + ", "@ + comma_joined(t),
    decreases t.len(),
{
    assert(seq![t[0]].len() == 1);
    if t.len() == 1 {
        assert((s + t).drop_last() =~= s);
        assert((s + t).last() == t[0]);
    } else {
        let t1 = t.drop_last();
        law_comma_joined_concat(s, t1);
        assert((s + t).drop_last() =~= s + t1);
        assert((s + t).last() == t.last());
        assert(comma_joined(s + t) == comma_joined(s + t1) + ", "@ + t.last());
        assert(comma_joined(t) == comma_joined(t1) + ", "@ + t.last());
        assert(comma_joined(s + t) =~= comma_joined(s) + ", "@ + comma_joined(t));
    }
}

/// What the expanded panel of a device shows.
#[derive(Debug, Clone, Copy, PartialEq, Eq, Structural)]
pub enum ServicePanel {
    /// The list of its services.
    List,
    /// "未发现服务": the device has no services.
    NoServices,
    /// "正在加载服务...": the services are being loaded.
    Loading,
}

/// What the expanded panel of a device shows for its loaded services.
pub fn service_panel(services: Option<&Vec<UiService>>) -> (p: ServicePanel)
    ensures
        services is None ==> p == ServicePanel::Loading,
        services is Some ==> (p == if services->Some_0@.len() > 0 {
            ServicePanel::List
        } else {
            ServicePanel::NoServices
        }),
{
    match services {
        Some(v) => if v.len() > 0 {
            ServicePanel::List
        } else {
            ServicePanel::NoServices
        },
        None => ServicePanel::Loading,
    }
}

} // verus!
