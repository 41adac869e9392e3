use vstd::prelude::*;
use crate::launchd::xpc::{XpcDict, XpcValue, XpcValueView, key};

verus! {

/// What `list_services_message` holds: `launchctl list` in the requestor's
/// system domain.
pub open spec fn list_services_message_view() -> Map<Seq<char>, XpcValueView> {
    Map::<Seq<char>, XpcValueView>::empty()
        .insert(key("type"), XpcValueView::U64(1))
        .insert(key("handle"), XpcValueView::U64(0))
        .insert(key("subsystem"), XpcValueView::U64(3))
        .insert(key("routine"), XpcValueView::U64(815))
        .insert(key("legacy"), XpcValueView::Bool(true))
}

/// The message that lists the services launchd knows of.
pub fn list_services_message() -> (r: XpcDict)
    ensures
        r@ == list_services_message_view(),
{
    XpcDict::new()
        .entry("type", XpcValue::U64(1))
        .entry("handle", XpcValue::U64(0))
        .entry("subsystem", XpcValue::U64(3))
        .entry("routine", XpcValue::U64(815))
        .entry("legacy", XpcValue::Bool(true))
}

/// A new message with the entries of a prototype.
pub fn from_msg(proto: &XpcDict) -> (r: XpcDict)
    ensures
        r@ == proto@,
{
    let r = XpcDict::new().extend(proto);
    proof {
        assert(r@ =~= proto@);
    }
    r
}

} // verus!
