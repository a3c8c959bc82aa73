//! How the UI-side BLE service turns the worker's replies into its results.
use vstd::prelude::*;
use crate::api::UiDevice;
use crate::api::ble::BleError;

verus! {

/// The result of a request whose reply carries a `Result`: the reply itself,
/// or "Channel closed" when the worker dropped the reply channel (`None`).
pub fn settle_reply<T>(reply: Option<Result<T, String>>) -> (r: Result<T, String>)
    ensures
        reply is Some ==> r == reply->Some_0,
        reply is None ==> r is Err && r->Err_0@ == "Channel closed"@,
{
    match reply {
        Some(x) => x,
        None => Err("Channel closed".to_owned()),
    }
}

/// The device list a request gets: the reply, or no devices when the channel
/// was dropped.
pub fn settle_devices(reply: Option<Vec<UiDevice>>) -> (r: Vec<UiDevice>)
    ensures
        reply is Some ==> r == reply->Some_0,
        reply is None ==> r@.len() == 0,
{
    match reply {
        Some(v) => v,
        None => Vec::new(),
    }
}

/// The connection status a request gets: the reply, or `false` when the
/// channel was dropped.
pub fn settle_flag(reply: Option<bool>) -> (r: bool)
    ensures
        r == (reply == Some(true)),
{
    match reply {
        Some(b) => b,
        None => false,
    }
}

/// What the worker sends back for a manager call: its value, or the error's
/// message.
pub fn worker_reply<T>(r: Result<T, BleError>) -> (out: Result<T, String>)
    ensures
        r is Ok ==> out is Ok && out->Ok_0 == r->Ok_0,
        r is Err ==> out is Err && out->Err_0@ == r->Err_0@,
{
    match r {
        Ok(v) => Ok(v),
        Err(e) => Err(e.message()),
    }
}

/// What the worker sends back for `get_devices`: the list, or no devices when
/// the manager failed.
pub fn worker_devices(r: Result<Vec<UiDevice>, BleError>) -> (out: Vec<UiDevice>)
    ensures
        r is Ok ==> out == r->Ok_0,
        r is Err ==> out@.len() == 0,
{
    match r {
        Ok(v) => v,
        Err(_) => Vec::new(),
    }
}

/// What the worker sends back for `is_connected`: the answer, or `false` when
/// the manager failed.
pub fn worker_flag(r: Result<bool, BleError>) -> (out: bool)
    ensures
        out == (r is Ok && r->Ok_0),
{
    match r {
        Ok(b) => b,
        Err(_) => false,
    }
}

} // verus!
