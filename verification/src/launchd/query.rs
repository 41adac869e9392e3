use vstd::prelude::*;
use crate::launchd::command::{FindStep, REPORT_SHMEM_SIZE};
use crate::launchd::enums::{DomainType, domain_type_from_number, domain_type_number};
use crate::launchd::message::{
    dumpstate_proto, dumpstate_proto_view, list_services_proto, list_services_proto_view,
};
use crate::launchd::xpc::{XpcDict, XpcValue, XpcValueView, key, strings_view};

verus! {

/// The number after the last domain type that these queries ask: they go
/// from the system domain up to, not including, the requestor's domain.
pub const DOMAIN_NUMBER_END: u64 = 7;

/// The message that asks the domain type of a number for a job.
pub fn find_in_all_message(label: &str, domain_number: u64) -> (r: XpcDict)
    ensures
        r@ == list_services_proto_view()
            .insert(key("type"), XpcValueView::U64(domain_number))
            .insert(key("name"), XpcValueView::Str(label@)),
{
    let r = XpcDict::new()
        .extend(&list_services_proto())
        .entry("type", XpcValue::U64(domain_number))
        .entry("name", XpcValue::Str(label.to_string()));
    proof {
        assert(Map::<Seq<char>, XpcValueView>::empty().union_prefer_right(
            list_services_proto_view(),
        ) =~= list_services_proto_view());
    }
    r
}

/// After asking the domain type of a number: the job is found there if the
/// domain answered, else the next number is asked, until the end.
pub fn find_in_all_step(domain_number: u64, answered: bool) -> (r: FindStep)
    ensures
        answered ==> r == FindStep::Found(domain_type_from_number(domain_number)),
        !answered && domain_number + 1 < DOMAIN_NUMBER_END ==> r == FindStep::Next(
            (domain_number + 1) as u64,
        ),
        !answered && domain_number + 1 >= DOMAIN_NUMBER_END ==> r == FindStep::NotFound,
{
    if answered {
        FindStep::Found(DomainType::from_number(domain_number))
    } else if domain_number < DOMAIN_NUMBER_END - 1 {
        FindStep::Next(domain_number + 1)
    } else {
        FindStep::NotFound
    }
}

/// The message that lists the jobs of a domain, or only the one named.
pub fn list(domain_type: DomainType, name: Option<String>) -> (r: XpcDict)
    ensures
        r@ == (match name {
            Some(n) => list_services_proto_view()
                .insert(key("type"), XpcValueView::U64(domain_type_number(domain_type)))
                .insert(key("name"), XpcValueView::Str(n@)),
            None => list_services_proto_view().insert(
                key("type"),
                XpcValueView::U64(domain_type_number(domain_type)),
            ),
        }),
{
    let value = match name {
        Some(n) => Some(XpcValue::Str(n)),
        None => None,
    };
    let r = XpcDict::new()
        .extend(&list_services_proto())
        .with_domain_type_or_default(Some(domain_type))
        .entry_if_present("name", value);
    proof {
        assert(Map::<Seq<char>, XpcValueView>::empty().union_prefer_right(
            list_services_proto_view(),
        ) =~= list_services_proto_view());
    }
    r
}

/// Every label that some domain listed, each once.
pub fn list_all(lists: &Vec<Vec<String>>) -> (r: Vec<String>)
    ensures
        strings_view(r@).no_duplicates(),
        forall|x: Seq<char>| #[trigger] strings_view(r@).contains(x)
            <==> exists|i: int| 0 <= i < lists@.len() && strings_view(lists@[i]@).contains(x),
{
    crate::launchd::command::list_all(lists)
}

/// The message of `launchctl dumpstate`, with a shared region to write into.
pub fn dumpstate() -> (r: XpcDict)
    ensures
        r@ == dumpstate_proto_view().insert(key("shmem"), XpcValueView::Shmem(REPORT_SHMEM_SIZE)),
{
    let r = XpcDict::new().extend(&dumpstate_proto()).entry(
        "shmem",
        XpcValue::Shmem(REPORT_SHMEM_SIZE),
    );
    proof {
        assert(Map::<Seq<char>, XpcValueView>::empty().union_prefer_right(dumpstate_proto_view())
            =~= dumpstate_proto_view());
    }
    r
}

} // verus!
