use vstd::prelude::*;
use crate::launchd::xpc::{XpcDict, XpcValue, XpcValueView, key};

verus! {

/// What `list_services_proto` holds: the fields of `launchctl list`.
pub open spec fn list_services_proto_view() -> Map<Seq<char>, XpcValueView> {
    Map::<Seq<char>, XpcValueView>::empty()
        .insert(key("subsystem"), XpcValueView::U64(3))
        .insert(key("handle"), XpcValueView::U64(0))
        .insert(key("routine"), XpcValueView::U64(815))
        .insert(key("legacy"), XpcValueView::Bool(true))
}

/// What `dumpstate_proto` holds: the fields of `launchctl dumpstate`.
pub open spec fn dumpstate_proto_view() -> Map<Seq<char>, XpcValueView> {
    Map::<Seq<char>, XpcValueView>::empty()
        .insert(key("subsystem"), XpcValueView::U64(3))
        .insert(key("routine"), XpcValueView::U64(834))
        .insert(key("type"), XpcValueView::U64(1))
        .insert(key("handle"), XpcValueView::U64(0))
}

/// What `dumpjpcategory_proto` holds: the fields of `launchctl dumpjpcategory`.
pub open spec fn dumpjpcategory_proto_view() -> Map<Seq<char>, XpcValueView> {
    Map::<Seq<char>, XpcValueView>::empty()
        .insert(key("subsystem"), XpcValueView::U64(3))
        .insert(key("routine"), XpcValueView::U64(837))
        .insert(key("type"), XpcValueView::U64(1))
        .insert(key("handle"), XpcValueView::U64(0))
}

/// What `procinfo_proto` holds: the fields of `launchctl procinfo`.
pub open spec fn procinfo_proto_view() -> Map<Seq<char>, XpcValueView> {
    Map::<Seq<char>, XpcValueView>::empty()
        .insert(key("subsystem"), XpcValueView::U64(2))
        .insert(key("routine"), XpcValueView::U64(708))
}

/// The message of `launchctl list`; a `name` entry narrows it to one job.
pub fn list_services_proto() -> (r: XpcDict)
    ensures
        r@ == list_services_proto_view(),
{
    XpcDict::new()
        .entry("subsystem", XpcValue::U64(3))
        .entry("handle", XpcValue::U64(0))
        .entry("routine", XpcValue::U64(815))
        .entry("legacy", XpcValue::Bool(true))
}

/// The message of `launchctl dumpstate`; it needs a shared memory region
/// under `shmem` to write into.
pub fn dumpstate_proto() -> (r: XpcDict)
    ensures
        r@ == dumpstate_proto_view(),
{
    XpcDict::new()
        .entry("subsystem", XpcValue::U64(3))
        .entry("routine", XpcValue::U64(834))
        .entry("type", XpcValue::U64(1))
        .with_handle_or_default(None)
}

/// The message of `launchctl dumpjpcategory`; it needs somewhere to write.
pub fn dumpjpcategory_proto() -> (r: XpcDict)
    ensures
        r@ == dumpjpcategory_proto_view(),
{
    XpcDict::new()
        .entry("subsystem", XpcValue::U64(3))
        .entry("routine", XpcValue::U64(837))
        .entry("type", XpcValue::U64(1))
        .with_handle_or_default(None)
}

/// The message of `launchctl procinfo`; it needs somewhere to write.
pub fn procinfo_proto() -> (r: XpcDict)
    ensures
        r@ == procinfo_proto_view(),
{
    XpcDict::new()
        .entry("subsystem", XpcValue::U64(2))
        .entry("routine", XpcValue::U64(708))
}

} // verus!
