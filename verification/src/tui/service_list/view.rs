use vstd::prelude::*;
use crate::launchd::entry_status::LaunchdEntryStatus;
use crate::launchd::job_type_filter::{JobFlag, JobTypeFilter, bits_have, flag_bit};
use crate::launchd::plist::{LaunchdPlist, PlistMap, entry_filter_bits};
use crate::text::{
    ascii_lower_seq, bytes_le, seq_contains, str_contains, str_eq, str_le, to_ascii_lowercase, utf8_of,
    lemma_bytes_le_total, lemma_bytes_le_transitive,
};
use crate::tui::service_list::list_item::ServiceListItem;
use crate::launchd::enums::DomainType;
use crate::launchd::plist::LaunchdEntryLocation;
use crate::tui::omnibox::command::{CommandView, OmniboxCommand};
use crate::tui::omnibox::state::{ModeView, OmniboxMode, OmniboxState};
use crate::tui::omnibox::view::{OmniboxError, OmniboxResult, ResultView, result_view};

verus! {

/// Whether a label passes the name filter: an empty filter passes every
/// label, else the filter must occur in the label, ignoring ASCII case.
pub open spec fn label_matches(label: Seq<char>, filter: Seq<char>) -> bool {
    filter.len() == 0 || seq_contains(ascii_lower_seq(label), ascii_lower_seq(filter))
}

/// Whether a label passes the name filter.
pub fn matches_name_filter(label: &str, name_filter: &str) -> (r: bool)
    ensures
        r == label_matches(label@, name_filter@),
{
    if name_filter.is_empty() {
        return true;
    }
    let l = to_ascii_lowercase(label);
    let f = to_ascii_lowercase(name_filter);
    str_contains(l.as_str(), f.as_str())
}

/// The views of a list of strings.
pub open spec fn views(v: Seq<String>) -> Seq<Seq<char>> {
    v.map_values(|s: String| s@)
}

/// Whether a list of strings holds a string.
pub fn contains_label(v: &Vec<String>, label: &str) -> (r: bool)
    ensures
        r == views(v@).contains(label@),
{
    let mut i: usize = 0;
    while i < v.len()
        invariant
            0 <= i <= v@.len(),
            forall|j: int| 0 <= j < i ==> v@[j]@ != label@,
        decreases v@.len() - i,
    {
        if str_eq(v[i].as_str(), label) {
            assert(views(v@)[i as int] == label@);
            return true;
        }
        i = i + 1;
    }
    assert(!views(v@).contains(label@)) by {
        if views(v@).contains(label@) {
            let j = choose|j: int| 0 <= j < views(v@).len() && views(v@)[j] == label@;
            assert(v@[j]@ == label@);
        }
    }
    false
}

/// The labels that pass the name filter, in order.
pub open spec fn keep_matching(s: Seq<Seq<char>>, filter: Seq<char>) -> Seq<Seq<char>>
    decreases s.len(),
{
    if s.len() == 0 {
        Seq::empty()
    } else if label_matches(s.last(), filter) {
        keep_matching(s.drop_last(), filter).push(s.last())
    } else {
        keep_matching(s.drop_last(), filter)
    }
}

/// The running jobs that have no plist on disk, in order.
pub open spec fn without_plist(running: Seq<Seq<char>>, plists: Map<Seq<char>, LaunchdPlist>) -> Seq<Seq<char>>
    decreases running.len(),
{
    if running.len() == 0 {
        Seq::empty()
    } else if plists.contains_key(running.last()) {
        without_plist(running.drop_last(), plists)
    } else {
        without_plist(running.drop_last(), plists).push(running.last())
    }
}

/// The labels the service list shows before the job type filter: every
/// label with a plist, then every running job without one, each kept when
/// it passes the name filter.
pub open spec fn candidate_labels(
    plist_labels: Seq<Seq<char>>,
    plists: Map<Seq<char>, LaunchdPlist>,
    running: Seq<Seq<char>>,
    filter: Seq<char>,
) -> Seq<Seq<char>> {
    keep_matching(plist_labels + without_plist(running, plists), filter)
}

proof fn lemma_keep_matching_sub(s: Seq<Seq<char>>, f: Seq<char>)
    ensures
        forall|x: Seq<char>| #[trigger] keep_matching(s, f).contains(x) ==> s.contains(x),
        s.no_duplicates() ==> keep_matching(s, f).no_duplicates(),
    decreases s.len(),
{
    if s.len() > 0 {
        let t = s.drop_last();
        lemma_keep_matching_sub(t, f);
        let k = keep_matching(s, f);
        let kt = keep_matching(t, f);
        assert forall|x: Seq<char>| #[trigger] k.contains(x) implies s.contains(x) by {
            let i = choose|i: int| 0 <= i < k.len() && k[i] == x;
            if i < kt.len() {
                assert(kt[i] == x);
                assert(kt.contains(x));
                let j = choose|j: int| 0 <= j < t.len() && t[j] == x;
                assert(s[j] == x);
            } else {
                assert(s[s.len() - 1] == x);
            }
        }
        if s.no_duplicates() {
            assert(t.no_duplicates()) by {
                assert forall|a: int, b: int| 0 <= a < t.len() && 0 <= b < t.len() && a != b implies t[a] != t[b] by {
                    assert(t[a] == s[a] && t[b] == s[b]);
                }
            }
            if label_matches(s.last(), f) {
                assert(!kt.contains(s.last())) by {
                    if kt.contains(s.last()) {
                        let j = choose|j: int| 0 <= j < t.len() && t[j] == s.last();
                        assert(s[j] == s[s.len() - 1]);
                    }
                }
                assert forall|a: int, b: int| 0 <= a < k.len() && 0 <= b < k.len() && a != b implies k[a] != k[b] by {
                    if a < kt.len() && b < kt.len() {
                        assert(k[a] == kt[a] && k[b] == kt[b]);
                    } else if a < kt.len() {
                        assert(k[a] == kt[a]);
                        assert(kt.contains(k[a]));
                    } else {
                        assert(k[b] == kt[b]);
                        assert(kt.contains(k[b]));
                    }
                }
            }
        }
    }
}

proof fn lemma_without_plist_sub(running: Seq<Seq<char>>, plists: Map<Seq<char>, LaunchdPlist>)
    ensures
        forall|x: Seq<char>| #[trigger] without_plist(running, plists).contains(x) ==> running.contains(x)
            && !plists.contains_key(x),
        running.no_duplicates() ==> without_plist(running, plists).no_duplicates(),
    decreases running.len(),
{
    if running.len() > 0 {
        let t = running.drop_last();
        lemma_without_plist_sub(t, plists);
        let k = without_plist(running, plists);
        let kt = without_plist(t, plists);
        assert forall|x: Seq<char>| #[trigger] k.contains(x) implies running.contains(x) && !plists.contains_key(x) by {
            let i = choose|i: int| 0 <= i < k.len() && k[i] == x;
            if i < kt.len() {
                assert(kt[i] == x);
                assert(kt.contains(x));
                let j = choose|j: int| 0 <= j < t.len() && t[j] == x;
                assert(running[j] == x);
            } else {
                assert(running[running.len() - 1] == x);
            }
        }
        if running.no_duplicates() {
            assert(t.no_duplicates()) by {
                assert forall|a: int, b: int| 0 <= a < t.len() && 0 <= b < t.len() && a != b implies t[a] != t[b] by {
                    assert(t[a] == running[a] && t[b] == running[b]);
                }
            }
            if !plists.contains_key(running.last()) {
                assert(!kt.contains(running.last())) by {
                    if kt.contains(running.last()) {
                        let j = choose|j: int| 0 <= j < t.len() && t[j] == running.last();
                        assert(running[j] == running[running.len() - 1]);
                    }
                }
                assert forall|a: int, b: int| 0 <= a < k.len() && 0 <= b < k.len() && a != b implies k[a] != k[b] by {
                    if a < kt.len() && b < kt.len() {
                        assert(k[a] == kt[a] && k[b] == kt[b]);
                    } else if a < kt.len() {
                        assert(k[a] == kt[a]);
                        assert(kt.contains(k[a]));
                    } else {
                        assert(k[b] == kt[b]);
                        assert(kt.contains(k[b]));
                    }
                }
            }
        }
    }
}

/// The labels to show, before the job type filter: plist labels and
/// running jobs without a plist that pass the name filter. The caller
/// fetches the status of each and hands them to `present_services`.
pub fn labels_to_present(plists: &PlistMap, running_jobs: &Vec<String>, name_filter: &str) -> (r: Vec<
    String,
>)
    requires
        views(running_jobs@).no_duplicates(),
    ensures
        views(r@) == candidate_labels(plists.label_seq(), plists@, views(running_jobs@), name_filter@),
        views(r@).no_duplicates(),
{
    let ghost all = plists.label_seq() + without_plist(views(running_jobs@), plists@);
    let mut all_labels: Vec<String> = Vec::new();
    let mut i: usize = 0;
    while i < plists.len()
        invariant
            0 <= i <= plists.label_seq().len(),
            views(all_labels@) == plists.label_seq().take(i as int),
        decreases plists.label_seq().len() - i,
    {
        let ghost before = all_labels@;
        let l = plists.label_at(i).clone();
        all_labels.push(l);
        proof {
            assert(all_labels@ =~= before.push(l));
            assert(views(all_labels@) =~= views(before).push(l@));
            assert(plists.label_seq().take(i + 1) =~= plists.label_seq().take(i as int).push(
                plists.label_seq()[i as int],
            ));
        }
        i = i + 1;
    }
    assert(plists.label_seq().take(i as int) =~= plists.label_seq());
    let mut j: usize = 0;
    while j < running_jobs.len()
        invariant
            0 <= j <= running_jobs@.len(),
            views(all_labels@) == plists.label_seq() + without_plist(
                views(running_jobs@).take(j as int),
                plists@,
            ),
        decreases running_jobs@.len() - j,
    {
        let ghost rv = views(running_jobs@);
        assert(rv.take(j + 1).drop_last() =~= rv.take(j as int));
        assert(rv.take(j + 1).last() == running_jobs@[j as int]@);
        if !plists.contains_key(running_jobs[j].as_str()) {
            let ghost before = all_labels@;
            let l = running_jobs[j].clone();
            all_labels.push(l);
            proof {
                assert(all_labels@ =~= before.push(l));
                assert(views(all_labels@) =~= views(before).push(l@));
                assert(views(all_labels@) =~= plists.label_seq() + without_plist(rv.take(j + 1), plists@));
            }
        }
        j = j + 1;
    }
    assert(views(running_jobs@).take(j as int) =~= views(running_jobs@));
    let mut kept: Vec<String> = Vec::new();
    let mut k: usize = 0;
    while k < all_labels.len()
        invariant
            0 <= k <= all_labels@.len(),
            views(all_labels@) == all,
            views(kept@) == keep_matching(all.take(k as int), name_filter@),
        decreases all_labels@.len() - k,
    {
        assert(all.take(k + 1).drop_last() =~= all.take(k as int));
        assert(all.take(k + 1).last() == all_labels@[k as int]@);
        if matches_name_filter(all_labels[k].as_str(), name_filter) {
            let ghost before = kept@;
            let l = all_labels[k].clone();
            kept.push(l);
            proof {
                assert(kept@ =~= before.push(l));
                assert(views(kept@) =~= views(before).push(l@));
            }
        }
        k = k + 1;
    }
    assert(all.take(k as int) =~= all);
    let _ = plists.len();
    proof {
        let a = plists.label_seq();
        let b = without_plist(views(running_jobs@), plists@);
        lemma_without_plist_sub(views(running_jobs@), plists@);
        assert(all.no_duplicates()) by {
            assert forall|x: int, y: int| 0 <= x < all.len() && 0 <= y < all.len() && x != y implies all[x] != all[y] by {
                if x < a.len() && y < a.len() {
                    assert(all[x] == a[x] && all[y] == a[y]);
                } else if x >= a.len() && y >= a.len() {
                    assert(all[x] == b[x - a.len()] && all[y] == b[y - a.len()]);
                } else if x < a.len() {
                    assert(all[x] == a[x]);
                    assert(a.contains(a[x]));
                    assert(all[y] == b[y - a.len()]);
                    assert(b.contains(b[y - a.len()]));
                } else {
                    assert(all[y] == a[y]);
                    assert(a.contains(a[y]));
                    assert(all[x] == b[x - a.len()]);
                    assert(b.contains(b[x - a.len()]));
                }
            }
        }
        lemma_keep_matching_sub(all, name_filter@);
    }
    kept
}

/// The filter bits of a job: from its plist when known (plus disabled when
/// it is), else just loaded, or else just disabled.
pub open spec fn item_filter_bits(plist: Option<LaunchdPlist>, loaded: bool, disabled: bool) -> u32 {
    match plist {
        Some(p) => entry_filter_bits(p.entry_location, p.entry_type, loaded) | (if disabled {
            flag_bit(JobFlag::Disabled)
        } else {
            0
        }),
        None => if loaded {
            flag_bit(JobFlag::Loaded)
        } else if disabled {
            flag_bit(JobFlag::Disabled)
        } else {
            0
        },
    }
}

/// The filter flags of a job.
pub fn item_job_type_filter(plist: &Option<LaunchdPlist>, is_loaded: bool, is_disabled: bool) -> (r:
    JobTypeFilter)
    ensures
        r.spec_bits() == item_filter_bits(*plist, is_loaded, is_disabled),
{
    match plist {
        Some(p) => {
            let f = p.job_type_filter(is_loaded);
            if is_disabled {
                f.union(JobTypeFilter::flag(JobFlag::Disabled))
            } else {
                proof {
                    let b = f.spec_bits();
                    assert(b | 0u32 == b) by (bit_vector);
                }
                f
            }
        },
        None => {
            if is_loaded {
                JobTypeFilter::flag(JobFlag::Loaded)
            } else if is_disabled {
                JobTypeFilter::flag(JobFlag::Disabled)
            } else {
                JobTypeFilter::empty()
            }
        },
    }
}

/// Whether a job passes the job type filter: an empty filter passes every
/// job, else the job must have every flag of the filter.
pub open spec fn passes_job_type_filter(item_bits: u32, filter_bits: u32) -> bool {
    filter_bits == 0 || item_bits & filter_bits == filter_bits
}

/// The items the service list shows, in the order of the candidates: each
/// candidate with its flags, kept when it passes the job type filter.
pub open spec fn kept_items(
    candidates: Seq<(String, LaunchdEntryStatus)>,
    running: Seq<Seq<char>>,
    disabled: Seq<Seq<char>>,
    filter_bits: u32,
) -> Seq<ServiceListItem>
    decreases candidates.len(),
{
    if candidates.len() == 0 {
        Seq::empty()
    } else {
        let before = kept_items(candidates.drop_last(), running, disabled, filter_bits);
        let c = candidates.last();
        let bits = item_filter_bits(c.1.plist, running.contains(c.0@), disabled.contains(c.0@));
        if passes_job_type_filter(bits, filter_bits) {
            before.push(
                ServiceListItem {
                    name: c.0,
                    status: c.1,
                    job_type_filter: JobTypeFilter::from_spec_bits(bits),
                },
            )
        } else {
            before
        }
    }
}

/// The order of the service list: jobs that are not loaded come first,
/// then by label.
pub open spec fn item_le(a: ServiceListItem, b: ServiceListItem) -> bool {
    let la = a.job_type_filter.has(JobFlag::Loaded);
    let lb = b.job_type_filter.has(JobFlag::Loaded);
    (!la && lb) || (la == lb && bytes_le(utf8_of(a.name@), utf8_of(b.name@)))
}

/// Items in the order of the service list.
pub open spec fn sorted_items(s: Seq<ServiceListItem>) -> bool {
    forall|i: int, j: int| 0 <= i < j < s.len() ==> item_le(#[trigger] s[i], #[trigger] s[j])
}

proof fn lemma_bytes_le_refl(a: Seq<u8>)
    ensures
        bytes_le(a, a),
    decreases a.len(),
{
    if a.len() > 0 {
        lemma_bytes_le_refl(a.drop_first());
    }
}

proof fn lemma_item_le_refl(a: ServiceListItem)
    ensures
        item_le(a, a),
{
    lemma_bytes_le_refl(utf8_of(a.name@));
}

proof fn lemma_item_le_total(a: ServiceListItem, b: ServiceListItem)
    ensures
        item_le(a, b) || item_le(b, a),
{
    lemma_bytes_le_total(utf8_of(a.name@), utf8_of(b.name@));
}

proof fn lemma_item_le_transitive(a: ServiceListItem, b: ServiceListItem, c: ServiceListItem)
    requires
        item_le(a, b),
        item_le(b, c),
    ensures
        item_le(a, c),
{
    if a.job_type_filter.has(JobFlag::Loaded) == b.job_type_filter.has(JobFlag::Loaded)
        && b.job_type_filter.has(JobFlag::Loaded) == c.job_type_filter.has(JobFlag::Loaded) {
        lemma_bytes_le_transitive(utf8_of(a.name@), utf8_of(b.name@), utf8_of(c.name@));
    }
}

/// Whether `a` comes no later than `b` in the service list.
fn item_le_exec(a: &ServiceListItem, b: &ServiceListItem) -> (r: bool)
    ensures
        r == item_le(*a, *b),
{
    let loaded = JobTypeFilter::flag(JobFlag::Loaded);
    let la = a.job_type_filter.intersects(loaded);
    let lb = b.job_type_filter.intersects(loaded);
    proof {
        let x = a.job_type_filter.spec_bits();
        let y = b.job_type_filter.spec_bits();
        assert((x & 64u32 != 0) == (x & 64u32 == 64u32)) by (bit_vector);
        assert((y & 64u32 != 0) == (y & 64u32 == 64u32)) by (bit_vector);
    }
    if !la && lb {
        true
    } else if la == lb {
        str_le(a.name.as_str(), b.name.as_str())
    } else {
        false
    }
}

/// Sort items into the order of the service list, keeping the order of
/// items that compare equal.
/// No two items share a name.
pub open spec fn names_distinct(s: Seq<ServiceListItem>) -> bool {
    forall|i: int, j: int| 0 <= i < j < s.len() ==> #[trigger] s[i].name@ != #[trigger] s[j].name@
}

proof fn lemma_move_keeps_names_distinct(out: Seq<ServiceListItem>, rest: Seq<ServiceListItem>, m: int)
    requires
        0 <= m < rest.len(),
    ensures
        names_distinct(out + rest) ==> names_distinct(out.push(rest[m]) + rest.remove(m)),
{
    let u = out + rest;
    let v = out.push(rest[m]) + rest.remove(m);
    let o = out.len() as int;
    if names_distinct(u) {
        assert forall|i: int, j: int| 0 <= i < j < v.len() implies #[trigger] v[i].name@ != #[trigger] v[j].name@ by {
            let fi = if i < o { i } else if i == o { o + m } else if i - o - 1 < m { i - 1 } else { i };
            let fj = if j < o { j } else if j == o { o + m } else if j - o - 1 < m { j - 1 } else { j };
            assert(v[i] == u[fi]);
            assert(v[j] == u[fj]);
            assert(fi != fj);
            if fi < fj {
                assert(u[fi].name@ != u[fj].name@);
            } else {
                assert(u[fj].name@ != u[fi].name@);
            }
        }
    }
}

fn sort_items(items: Vec<ServiceListItem>) -> (r: Vec<ServiceListItem>)
    ensures
        sorted_items(r@),
        r@.to_multiset() == items@.to_multiset(),
        names_distinct(items@) ==> names_distinct(r@),
{
    broadcast use vstd::seq_lib::group_to_multiset_ensures;
    let ghost all = items@;
    let mut rest = items;
    let mut out: Vec<ServiceListItem> = Vec::new();
    while rest.len() > 0
        invariant
            sorted_items(out@),
            forall|i: int, j: int|
                0 <= i < out@.len() && 0 <= j < rest@.len() ==> item_le(#[trigger] out@[i], #[trigger] rest@[j]),
            out@.to_multiset().add(rest@.to_multiset()) == all.to_multiset(),
            names_distinct(all) ==> names_distinct(out@ + rest@),
        decreases rest@.len(),
    {
        let mut m: usize = 0;
        let mut k: usize = 1;
        proof {
            lemma_item_le_refl(rest@[0]);
        }
        while k < rest.len()
            invariant
                1 <= k <= rest@.len(),
                m < k,
                forall|j: int| 0 <= j < k ==> item_le(rest@[m as int], #[trigger] rest@[j]),
            decreases rest@.len() - k,
        {
            if !item_le_exec(&rest[m], &rest[k]) {
                proof {
                    lemma_item_le_total(rest@[m as int], rest@[k as int]);
                    assert forall|j: int| 0 <= j <= k implies item_le(rest@[k as int], #[trigger] rest@[j]) by {
                        lemma_item_le_refl(rest@[k as int]);
                        if j < k {
                            lemma_item_le_transitive(rest@[k as int], rest@[m as int], rest@[j]);
                        }
                    }
                }
                m = k;
            }
            k = k + 1;
        }
        let ghost before_rest = rest@;
        let ghost before_out = out@;
        let x = rest.remove(m);
        proof {
            assert(rest@ =~= before_rest.remove(m as int));
            assert forall|j: int| 0 <= j < rest@.len() implies item_le(x, #[trigger] rest@[j]) by {
                if j < m {
                    assert(rest@[j] == before_rest[j]);
                } else {
                    assert(rest@[j] == before_rest[j + 1]);
                }
            }
        }
        out.push(x);
        proof {
            assert(out@ =~= before_out.push(x));
            assert forall|i: int, j: int| 0 <= i < out@.len() && 0 <= j < rest@.len() implies item_le(
                #[trigger] out@[i],
                #[trigger] rest@[j],
            ) by {
                if i < before_out.len() {
                    let j1 = if j < m { j } else { j + 1 };
                    assert(rest@[j] == before_rest[j1]);
                    assert(out@[i] == before_out[i]);
                }
            }
            assert forall|i: int, j: int| 0 <= i < j < out@.len() implies item_le(#[trigger] out@[i], #[trigger] out@[j]) by {
                if j < before_out.len() {
                    assert(out@[i] == before_out[i]);
                    assert(out@[j] == before_out[j]);
                } else {
                    assert(out@[i] == before_out[i]);
                    assert(before_rest[m as int] == x);
                    assert(item_le(before_out[i], before_rest[m as int]));
                }
            }
            before_rest.to_multiset_ensures();
            before_out.to_multiset_ensures();
            assert(before_rest.contains(x));
            assert(rest@.to_multiset() =~= before_rest.to_multiset().remove(x));
            assert(before_rest.to_multiset().count(x) > 0);
            assert(before_rest.to_multiset() =~= rest@.to_multiset().insert(x));
            assert(out@.to_multiset() =~= before_out.to_multiset().insert(x));
            assert(out@.to_multiset().add(rest@.to_multiset()) =~= before_out.to_multiset().add(
                before_rest.to_multiset(),
            ));
            lemma_move_keeps_names_distinct(before_out, before_rest, m as int);
        }
    }
    assert(out@ + rest@ =~= out@);
    assert(rest@.to_multiset() =~= vstd::multiset::Multiset::<ServiceListItem>::empty());
    assert(out@.to_multiset().add(vstd::multiset::Multiset::<ServiceListItem>::empty()) =~= out@.to_multiset());
    out
}

/// What the service list knows from launchd: the running jobs and the
/// disabled ones.
pub struct ServiceListState {
    pub running_jobs: Vec<String>,
    pub disabled_jobs: Vec<String>,
}

/// The labels of the candidates, in order.
pub open spec fn candidate_names(c: Seq<(String, LaunchdEntryStatus)>) -> Seq<Seq<char>> {
    c.map_values(|x: (String, LaunchdEntryStatus)| x.0@)
}

proof fn lemma_kept_names(
    c: Seq<(String, LaunchdEntryStatus)>,
    running: Seq<Seq<char>>,
    disabled: Seq<Seq<char>>,
    fb: u32,
)
    ensures
        forall|i: int| 0 <= i < kept_items(c, running, disabled, fb).len() ==> candidate_names(c).contains(
            #[trigger] kept_items(c, running, disabled, fb)[i].name@,
        ),
        candidate_names(c).no_duplicates() ==> names_distinct(kept_items(c, running, disabled, fb)),
    decreases c.len(),
{
    if c.len() > 0 {
        let t = c.drop_last();
        lemma_kept_names(t, running, disabled, fb);
        let k = kept_items(c, running, disabled, fb);
        let kt = kept_items(t, running, disabled, fb);
        let cn = candidate_names(c);
        let tn = candidate_names(t);
        assert(tn =~= cn.drop_last());
        assert forall|i: int| 0 <= i < k.len() implies cn.contains(#[trigger] k[i].name@) by {
            if i < kt.len() {
                assert(k[i] == kt[i]);
                assert(tn.contains(kt[i].name@));
                let j = choose|j: int| 0 <= j < tn.len() && tn[j] == kt[i].name@;
                assert(cn[j] == tn[j]);
            } else {
                assert(cn[cn.len() - 1] == k[i].name@);
            }
        }
        if cn.no_duplicates() {
            assert(tn.no_duplicates()) by {
                assert forall|a: int, b: int| 0 <= a < tn.len() && 0 <= b < tn.len() && a != b implies tn[a] != tn[b] by {
                    assert(tn[a] == cn[a] && tn[b] == cn[b]);
                }
            }
            assert forall|i: int, j: int| 0 <= i < j < k.len() implies #[trigger] k[i].name@ != #[trigger] k[j].name@ by {
                if j < kt.len() {
                    assert(k[i] == kt[i] && k[j] == kt[j]);
                } else {
                    assert(k[i] == kt[i]);
                    assert(tn.contains(kt[i].name@));
                    let a = choose|a: int| 0 <= a < tn.len() && tn[a] == kt[i].name@;
                    assert(cn[a] == tn[a]);
                    assert(k[j].name@ == cn[cn.len() - 1]);
                }
            }
        }
    }
}

/// Under a non-empty job type filter every item shown holds every flag of
/// the filter, and a candidate whose flags lack one of them is not shown;
/// each item carries the flags of its job.
pub proof fn law_job_type_filter_holds_all_flags(
    c: Seq<(String, LaunchdEntryStatus)>,
    running: Seq<Seq<char>>,
    disabled: Seq<Seq<char>>,
    fb: u32,
)
    ensures
        forall|i: int| 0 <= i < kept_items(c, running, disabled, fb).len() ==> fb == 0 || (
            #[trigger] kept_items(c, running, disabled, fb)[i]).job_type_filter.spec_bits() & fb == fb,
        candidate_names(c).no_duplicates() ==> forall|k: int, i: int|
            0 <= k < c.len() && 0 <= i < kept_items(c, running, disabled, fb).len() && fb != 0
                && item_filter_bits(c[k].1.plist, running.contains(c[k].0@), disabled.contains(c[k].0@)) & fb
                != fb ==> #[trigger] kept_items(c, running, disabled, fb)[i].name@ != #[trigger] c[k].0@,
    decreases c.len(),
{
    if c.len() > 0 {
        let t = c.drop_last();
        law_job_type_filter_holds_all_flags(t, running, disabled, fb);
        lemma_kept_names(t, running, disabled, fb);
        let k = kept_items(c, running, disabled, fb);
        let kt = kept_items(t, running, disabled, fb);
        let last = c.last();
        let bits = item_filter_bits(last.1.plist, running.contains(last.0@), disabled.contains(last.0@));
        JobTypeFilter::lemma_from_spec_bits(bits);
        assert forall|i: int| 0 <= i < k.len() implies fb == 0 || (#[trigger] k[i]).job_type_filter.spec_bits() & fb == fb by {
            if i < kt.len() {
                assert(k[i] == kt[i]);
            }
        }
        if candidate_names(c).no_duplicates() {
            let cn = candidate_names(c);
            let tn = candidate_names(t);
            assert(tn =~= cn.drop_last());
            assert(tn.no_duplicates()) by {
                assert forall|a: int, b: int| 0 <= a < tn.len() && 0 <= b < tn.len() && a != b implies tn[a] != tn[b] by {
                    assert(tn[a] == cn[a] && tn[b] == cn[b]);
                }
            }
            assert forall|j: int, i: int|
                0 <= j < c.len() && 0 <= i < k.len() && fb != 0 && item_filter_bits(
                    c[j].1.plist,
                    running.contains(c[j].0@),
                    disabled.contains(c[j].0@),
                ) & fb != fb implies #[trigger] k[i].name@ != #[trigger] c[j].0@ by {
                assert(cn[j] == c[j].0@);
                if j < t.len() {
                    assert(t[j] == c[j]);
                    if i < kt.len() {
                        assert(k[i] == kt[i]);
                        assert(kt[i].name@ != t[j].0@);
                    } else {
                        assert(k[i].name@ == last.0@);
                        assert(cn[c.len() - 1] == last.0@);
                    }
                } else {
                    assert(i < kt.len());
                    assert(k[i] == kt[i]);
                    assert(tn.contains(kt[i].name@));
                    let a = choose|a: int| 0 <= a < tn.len() && tn[a] == kt[i].name@;
                    assert(cn[a] == tn[a]);
                }
            }
        }
    }
}

/// The items of the service list: each candidate (label and status) with
/// its flags, kept when it passes the job type filter, sorted so that jobs
/// that are not loaded come first, then by label.
pub fn present_services(
    candidates: Vec<(String, LaunchdEntryStatus)>,
    state: &ServiceListState,
    job_type_filter: JobTypeFilter,
) -> (r: Vec<ServiceListItem>)
    requires
        candidate_names(candidates@).no_duplicates(),
    ensures
        sorted_items(r@),
        names_distinct(r@),
        forall|i: int| 0 <= i < r@.len() ==> job_type_filter.spec_bits() == 0
            || (#[trigger] r@[i]).job_type_filter.spec_bits() & job_type_filter.spec_bits()
            == job_type_filter.spec_bits(),
        forall|k: int, i: int|
            0 <= k < candidates@.len() && 0 <= i < r@.len() && job_type_filter.spec_bits() != 0
                && item_filter_bits(
                candidates@[k].1.plist,
                views(state.running_jobs@).contains(candidates@[k].0@),
                views(state.disabled_jobs@).contains(candidates@[k].0@),
            ) & job_type_filter.spec_bits() != job_type_filter.spec_bits() ==> #[trigger] r@[i].name@
                != #[trigger] candidates@[k].0@,
        r@.to_multiset() == kept_items(
            candidates@,
            views(state.running_jobs@),
            views(state.disabled_jobs@),
            job_type_filter.spec_bits(),
        ).to_multiset(),
{
    let ghost all = candidates@;
    let ghost running = views(state.running_jobs@);
    let ghost disabled = views(state.disabled_jobs@);
    let ghost fb = job_type_filter.spec_bits();
    let mut candidates = candidates;
    let n = candidates.len();
    assert(n == all.len());
    let mut items: Vec<ServiceListItem> = Vec::new();
    let mut done: usize = 0;
    while candidates.len() > 0
        invariant
            candidates@ == all.skip(done as int),
            done + candidates@.len() == all.len(),
            all.len() == n,
            items@ == kept_items(all.take(done as int), running, disabled, fb),
            running == views(state.running_jobs@),
            disabled == views(state.disabled_jobs@),
            fb == job_type_filter.spec_bits(),
        decreases candidates@.len(),
    {
        let ghost cb = candidates@;
        let (label, status) = candidates.remove(0);
        proof {
            assert(all[done as int] == cb[0]);
            assert(all.take(done + 1).drop_last() =~= all.take(done as int));
            assert(all.take(done + 1).last() == (label, status));
            assert(candidates@ =~= all.skip(done + 1));
        }
        let is_loaded = contains_label(&state.running_jobs, label.as_str());
        let is_disabled = contains_label(&state.disabled_jobs, label.as_str());
        let entry_filter = item_job_type_filter(&status.plist, is_loaded, is_disabled);
        let passes = job_type_filter.is_empty() || entry_filter.contains(job_type_filter);
        if passes {
            proof {
                JobTypeFilter::lemma_from_spec_bits(entry_filter.spec_bits());
                JobTypeFilter::lemma_bits_determine(
                    entry_filter,
                    JobTypeFilter::from_spec_bits(entry_filter.spec_bits()),
                );
            }
            items.push(ServiceListItem { name: label, status, job_type_filter: entry_filter });
        }
        done = done + 1;
    }
    assert(all.take(done as int) =~= all);
    proof {
        lemma_kept_names(all, running, disabled, fb);
        law_job_type_filter_holds_all_flags(all, running, disabled, fb);
    }
    let r = sort_items(items);
    proof {
        let kept = kept_items(all, running, disabled, fb);
        assert(items@ == kept);
        assert(r@.to_multiset() == kept.to_multiset());
        assert forall|i: int| 0 <= i < r@.len() implies exists|j: int|
            0 <= j < kept.len() && kept[j] == #[trigger] r@[i] by {
            r@.to_multiset_ensures();
            kept.to_multiset_ensures();
            assert(r@.contains(r@[i]));
            assert(r@.to_multiset().count(r@[i]) > 0);
            assert(kept.to_multiset().count(r@[i]) > 0);
            assert(kept.contains(r@[i]));
        }
        assert forall|i: int| 0 <= i < r@.len() implies fb == 0 || (#[trigger] r@[i]).job_type_filter.spec_bits() & fb == fb by {
            let j = choose|j: int| 0 <= j < kept.len() && kept[j] == r@[i];
            assert(fb == 0 || kept[j].job_type_filter.spec_bits() & fb == fb);
        }
        assert forall|k: int, i: int|
            0 <= k < all.len() && 0 <= i < r@.len() && fb != 0 && item_filter_bits(
                all[k].1.plist,
                running.contains(all[k].0@),
                disabled.contains(all[k].0@),
            ) & fb != fb implies #[trigger] r@[i].name@ != #[trigger] all[k].0@ by {
            let j = choose|j: int| 0 <= j < kept.len() && kept[j] == r@[i];
            assert(kept[j].name@ != all[k].0@);
        }
    }
    r
}

} // verus!

verus! {

/// The filters the service list applies, as last set by the omnibox.
pub struct ServiceListFilters {
    pub label_filter: String,
    pub job_type_filter: JobTypeFilter,
}

impl ServiceListFilters {
    /// The filters a new service list starts with: no label filter, loaded
    /// jobs only.
    pub fn new() -> (r: Self)
        ensures
            r.label_filter@ == Seq::<char>::empty(),
            r.job_type_filter.spec_bits() == flag_bit(JobFlag::Loaded),
    {
        ServiceListFilters { label_filter: String::new(), job_type_filter: JobTypeFilter::launchk_default() }
    }
}

/// Take the filters of a new omnibox state: the label filter while one is
/// typed, the job type filter while it is edited, both when the omnibox goes
/// idle.
pub fn handle_state_update(filters: &mut ServiceListFilters, state: OmniboxState) -> (r: OmniboxResult)
    ensures
        result_view(r) == ResultView::Answer(None),
        final(filters).label_filter@ == (if state.mode@ == ModeView::LabelFilter || state.mode@
            == ModeView::Idle {
            state.label_filter@
        } else {
            old(filters).label_filter@
        }),
        final(filters).job_type_filter == (if state.mode@ == ModeView::JobTypeFilter || state.mode@
            == ModeView::Idle {
            state.job_type_filter
        } else {
            old(filters).job_type_filter
        }),
{
    let OmniboxState { mode, label_filter, job_type_filter, .. } = state;
    match mode {
        OmniboxMode::LabelFilter => {
            filters.label_filter = label_filter;
        },
        OmniboxMode::JobTypeFilter => {
            filters.job_type_filter = job_type_filter;
        },
        OmniboxMode::Idle => {
            filters.label_filter = label_filter;
            filters.job_type_filter = job_type_filter;
        },
        _ => {},
    }
    Ok(None)
}

/// The domain a job of a plist location belongs to: a user's agents are in
/// the user domain, everything else in the system domain.
pub open spec fn location_domain(l: LaunchdEntryLocation) -> DomainType {
    match l {
        LaunchdEntryLocation::User => DomainType::User,
        _ => DomainType::System,
    }
}

/// What a command on the highlighted job comes to: an answer at once, or a
/// call to launchd or the editor for the caller to make.
#[derive(Debug)]
pub enum ServiceCommandOutcome {
    Done(OmniboxResult),
    Blame { name: String, domain: DomainType },
    Enable { name: String, domain: DomainType },
    Disable { name: String, domain: DomainType },
    ProcInfo { pid: i64 },
    Edit { plist: LaunchdPlist },
    Bootstrap { name: String, domain: DomainType, plist_path: String },
    Bootout { name: String, domain: DomainType },
}

/// The value of a command's outcome.
pub ghost enum OutcomeView {
    Done(ResultView),
    Blame(Seq<char>, DomainType),
    Enable(Seq<char>, DomainType),
    Disable(Seq<char>, DomainType),
    ProcInfo(i64),
    Edit(LaunchdPlist),
    Bootstrap(Seq<char>, DomainType, Seq<char>),
    Bootout(Seq<char>, DomainType),
}

/// The value of a command's outcome.
pub open spec fn outcome_view(o: ServiceCommandOutcome) -> OutcomeView {
    match o {
        ServiceCommandOutcome::Done(r) => OutcomeView::Done(result_view(r)),
        ServiceCommandOutcome::Blame { name, domain } => OutcomeView::Blame(name@, domain),
        ServiceCommandOutcome::Enable { name, domain } => OutcomeView::Enable(name@, domain),
        ServiceCommandOutcome::Disable { name, domain } => OutcomeView::Disable(name@, domain),
        ServiceCommandOutcome::ProcInfo { pid } => OutcomeView::ProcInfo(pid),
        ServiceCommandOutcome::Edit { plist } => OutcomeView::Edit(plist),
        ServiceCommandOutcome::Bootstrap { name, domain, plist_path } => OutcomeView::Bootstrap(
            name@,
            domain,
            plist_path@,
        ),
        ServiceCommandOutcome::Bootout { name, domain } => OutcomeView::Bootout(name@, domain),
    }
}

/// Commands that change a job, which need root for a system job;
/// `procinfo` only reads and does not.
pub open spec fn is_privileged(c: CommandView) -> bool {
    match c {
        CommandView::DisableRequest | CommandView::EnableRequest
        | CommandView::BootstrapRequest | CommandView::BootoutRequest | CommandView::Edit => true,
        _ => false,
    }
}

/// The message asking to restart with sudo.
pub open spec fn sudo_prompt() -> Seq<char> {
    "This requires root privileges. Sudo and restart?"@
}

/// What a command on a plist of the highlighted job comes to.
pub open spec fn plist_command_outcome(c: CommandView, item: ServiceListItem) -> OutcomeView {
    match item.status.plist {
        None => OutcomeView::Done(ResultView::CommandError("Cannot find plist"@)),
        Some(p) => match c {
            CommandView::Edit => OutcomeView::Edit(p),
            CommandView::Bootstrap(dt) => OutcomeView::Bootstrap(item.name@, dt, p.plist_path@),
            CommandView::Bootout(dt) => OutcomeView::Bootout(item.name@, dt),
            _ => OutcomeView::Done(ResultView::Answer(None)),
        },
    }
}

/// What a command comes to for the highlighted job, if there is one.
pub open spec fn command_outcome(c: CommandView, item: Option<ServiceListItem>, running_as_root: bool) -> OutcomeView {
    match item {
        None => OutcomeView::Done(ResultView::CommandError("Cannot get highlighted row"@)),
        Some(it) => {
            let need_escalate = match it.status.plist {
                Some(p) => location_domain(p.entry_location) == DomainType::System,
                None => false,
            };
            if is_privileged(c) && !running_as_root && need_escalate {
                OutcomeView::Done(
                    ResultView::Answer(
                        Some(CommandView::Confirm(sudo_prompt(), seq![CommandView::Quit, CommandView::Sudo])),
                    ),
                )
            } else {
                match c {
                    CommandView::Blame => OutcomeView::Blame(it.name@, it.status.domain),
                    CommandView::BootstrapRequest => OutcomeView::Done(
                        ResultView::Answer(Some(CommandView::Bootstrap(it.status.domain))),
                    ),
                    CommandView::BootoutRequest => OutcomeView::Done(
                        ResultView::Answer(Some(CommandView::Bootout(it.status.domain))),
                    ),
                    CommandView::EnableRequest => OutcomeView::Done(
                        ResultView::Answer(Some(CommandView::Enable(it.status.domain))),
                    ),
                    CommandView::DisableRequest => OutcomeView::Done(
                        ResultView::Answer(Some(CommandView::Disable(it.status.domain))),
                    ),
                    CommandView::Enable(dt) => OutcomeView::Enable(it.name@, dt),
                    CommandView::Disable(dt) => OutcomeView::Disable(it.name@, dt),
                    CommandView::ProcInfo => if it.status.pid == 0 {
                        OutcomeView::Done(ResultView::CommandError("No PID for "@ + it.name@))
                    } else {
                        OutcomeView::ProcInfo(it.status.pid)
                    },
                    CommandView::Edit | CommandView::Bootstrap(_) | CommandView::Bootout(_) => plist_command_outcome(c, it),
                    _ => OutcomeView::Done(ResultView::Answer(None)),
                }
            }
        },
    }
}

/// `procinfo` does not need root: on any job with a process it names the
/// call for that process, whoever runs the tool; on a job without one it
/// answers that there is no PID.
pub proof fn law_procinfo_needs_no_root(item: ServiceListItem, running_as_root: bool)
    ensures
        item.status.pid != 0 ==> command_outcome(CommandView::ProcInfo, Some(item), running_as_root)
            == OutcomeView::ProcInfo(item.status.pid),
        item.status.pid == 0 ==> command_outcome(CommandView::ProcInfo, Some(item), running_as_root)
            == OutcomeView::Done(ResultView::CommandError("No PID for "@ + item.name@)),
{
}

/// `disable` and `enable` in a domain never ask for root: on any job they
/// name the call of that kind for the job's label in that domain, so the two
/// never come to the same call. Asked for without a domain, when no sudo
/// prompt is due (running as root, or a job that is not a system job), each
/// answers with its command in the job's own domain.
pub proof fn law_disable_and_enable_call_launchd(item: ServiceListItem, running_as_root: bool)
    ensures
        forall|dt: DomainType|
            #[trigger] command_outcome(CommandView::Disable(dt), Some(item), running_as_root)
                == OutcomeView::Disable(item.name@, dt),
        forall|dt: DomainType|
            #[trigger] command_outcome(CommandView::Enable(dt), Some(item), running_as_root)
                == OutcomeView::Enable(item.name@, dt),
        forall|dt: DomainType|
            command_outcome(CommandView::Disable(dt), Some(item), running_as_root) != #[trigger] command_outcome(
                CommandView::Enable(dt),
                Some(item),
                running_as_root,
            ),
        running_as_root || item.status.plist is None || item.status.plist->Some_0.entry_location
            == LaunchdEntryLocation::User ==> command_outcome(
            CommandView::DisableRequest,
            Some(item),
            running_as_root,
        ) == OutcomeView::Done(ResultView::Answer(Some(CommandView::Disable(item.status.domain)))),
        running_as_root || item.status.plist is None || item.status.plist->Some_0.entry_location
            == LaunchdEntryLocation::User ==> command_outcome(
            CommandView::EnableRequest,
            Some(item),
            running_as_root,
        ) == OutcomeView::Done(ResultView::Answer(Some(CommandView::Enable(item.status.domain)))),
{
}

/// Restarting with sudo is asked for exactly when a command that changes a
/// job (the requests to disable, enable, bootstrap or bootout it, and
/// editing its plist) is run on a system or global job by a user who is not
/// root. Otherwise each request answers with its own command in the job's
/// domain, `blame` asks launchd why the job was launched, and the commands
/// on a plist act on the job's plist.
pub proof fn law_sudo_only_for_changes_to_system_jobs(item: ServiceListItem, running_as_root: bool, dt: DomainType)
    ensures
        ({
            let sudo_due = !running_as_root && item.status.plist is Some
                && item.status.plist->Some_0.entry_location != LaunchdEntryLocation::User;
            let prompt = OutcomeView::Done(
                ResultView::Answer(
                    Some(CommandView::Confirm(sudo_prompt(), seq![CommandView::Quit, CommandView::Sudo])),
                ),
            );
            &&& sudo_due ==> command_outcome(CommandView::DisableRequest, Some(item), running_as_root) == prompt
            &&& sudo_due ==> command_outcome(CommandView::EnableRequest, Some(item), running_as_root) == prompt
            &&& sudo_due ==> command_outcome(CommandView::BootstrapRequest, Some(item), running_as_root) == prompt
            &&& sudo_due ==> command_outcome(CommandView::BootoutRequest, Some(item), running_as_root) == prompt
            &&& sudo_due ==> command_outcome(CommandView::Edit, Some(item), running_as_root) == prompt
            &&& !sudo_due ==> command_outcome(CommandView::BootstrapRequest, Some(item), running_as_root)
                == OutcomeView::Done(ResultView::Answer(Some(CommandView::Bootstrap(item.status.domain))))
            &&& !sudo_due ==> command_outcome(CommandView::BootoutRequest, Some(item), running_as_root)
                == OutcomeView::Done(ResultView::Answer(Some(CommandView::Bootout(item.status.domain))))
            &&& !sudo_due ==> command_outcome(CommandView::DisableRequest, Some(item), running_as_root)
                == OutcomeView::Done(ResultView::Answer(Some(CommandView::Disable(item.status.domain))))
            &&& !sudo_due ==> command_outcome(CommandView::EnableRequest, Some(item), running_as_root)
                == OutcomeView::Done(ResultView::Answer(Some(CommandView::Enable(item.status.domain))))
            &&& command_outcome(CommandView::Blame, Some(item), running_as_root) == OutcomeView::Blame(
                item.name@,
                item.status.domain,
            )
            &&& item.status.plist is Some ==> command_outcome(
                CommandView::Bootstrap(dt),
                Some(item),
                running_as_root,
            ) == OutcomeView::Bootstrap(item.name@, dt, item.status.plist->Some_0.plist_path@)
            &&& item.status.plist is Some ==> command_outcome(CommandView::Bootout(dt), Some(item), running_as_root)
                == OutcomeView::Bootout(item.name@, dt)
            &&& item.status.plist is Some && !sudo_due ==> command_outcome(
                CommandView::Edit,
                Some(item),
                running_as_root,
            ) == OutcomeView::Edit(item.status.plist->Some_0)
        }),
{
}

fn command_error(msg: &str) -> (r: ServiceCommandOutcome)
    ensures
        outcome_view(r) == OutcomeView::Done(ResultView::CommandError(msg@)),
{
    ServiceCommandOutcome::Done(Err(OmniboxError::CommandError(msg.to_owned())))
}

fn answer(c: OmniboxCommand) -> (r: ServiceCommandOutcome)
    ensures
        outcome_view(r) == OutcomeView::Done(ResultView::Answer(Some(c@))),
{
    ServiceCommandOutcome::Done(Ok(Some(c)))
}

/// What a command on a plist of the highlighted job comes to.
fn handle_plist_command(cmd: OmniboxCommand, item: &ServiceListItem) -> (r: ServiceCommandOutcome)
    ensures
        outcome_view(r) == plist_command_outcome(cmd@, *item),
{
    let plist = match &item.status.plist {
        Some(p) => p.clone(),
        None => return command_error("Cannot find plist"),
    };
    match cmd {
        OmniboxCommand::Edit => ServiceCommandOutcome::Edit { plist },
        OmniboxCommand::Bootstrap(dt) => ServiceCommandOutcome::Bootstrap {
            name: item.name.clone(),
            domain: dt,
            plist_path: plist.plist_path,
        },
        OmniboxCommand::Bootout(dt) => ServiceCommandOutcome::Bootout { name: item.name.clone(), domain: dt },
        _ => ServiceCommandOutcome::Done(Ok(None)),
    }
}

/// What a command comes to for the highlighted job: commands that change a
/// system job ask to restart with sudo when not running as root; requests
/// become the command for the job's domain; the rest name the call to make.
pub fn handle_command(cmd: OmniboxCommand, item: Option<&ServiceListItem>, running_as_root: bool) -> (r:
    ServiceCommandOutcome)
    ensures
        outcome_view(r) == command_outcome(
            cmd@,
            match item {
                Some(i) => Some(*i),
                None => None,
            },
            running_as_root,
        ),
        item is Some && cmd is Disable ==> outcome_view(r) == OutcomeView::Disable(
            item->Some_0.name@,
            cmd->Disable_0,
        ),
        item is Some && cmd is Enable ==> outcome_view(r) == OutcomeView::Enable(
            item->Some_0.name@,
            cmd->Enable_0,
        ),
{
    proof {
        if let Some(i) = item {
            law_disable_and_enable_call_launchd(*i, running_as_root);
        }
    }
    let it = match item {
        Some(i) => i,
        None => return command_error("Cannot get highlighted row"),
    };
    let need_escalate = match &it.status.plist {
        Some(p) => match p.entry_location {
            LaunchdEntryLocation::User => false,
            _ => true,
        },
        None => false,
    };
    let privileged = match cmd {
        OmniboxCommand::DisableRequest | OmniboxCommand::EnableRequest
        | OmniboxCommand::BootstrapRequest | OmniboxCommand::BootoutRequest | OmniboxCommand::Edit => true,
        _ => false,
    };
    if privileged && !running_as_root && need_escalate {
        let mut then: Vec<OmniboxCommand> = Vec::new();
        then.push(OmniboxCommand::Quit);
        then.push(OmniboxCommand::Sudo);
        let ghost t = then@;
        proof {
            reveal_with_fuel(crate::tui::omnibox::command::commands_view, 3);
            reveal_with_fuel(crate::tui::omnibox::command::command_view, 2);
            let t1 = t.drop_last();
            let t0 = t1.drop_last();
            assert(t0.len() == 0);
            assert(crate::tui::omnibox::command::commands_view(t0) == Seq::<CommandView>::empty());
            assert(t1.last() == OmniboxCommand::Quit);
            assert(t.last() == OmniboxCommand::Sudo);
            assert(crate::tui::omnibox::command::commands_view(t1) == crate::tui::omnibox::command::commands_view(t0).push(CommandView::Quit));
            assert(crate::tui::omnibox::command::commands_view(t) == crate::tui::omnibox::command::commands_view(t1).push(CommandView::Sudo));
            assert(crate::tui::omnibox::command::commands_view(t) =~= seq![CommandView::Quit, CommandView::Sudo]);
        }
        return answer(OmniboxCommand::Confirm("This requires root privileges. Sudo and restart?".to_owned(), then));
    }
    match cmd {
        OmniboxCommand::Blame => ServiceCommandOutcome::Blame { name: it.name.clone(), domain: it.status.domain },
        OmniboxCommand::BootstrapRequest => answer(OmniboxCommand::Bootstrap(it.status.domain)),
        OmniboxCommand::BootoutRequest => answer(OmniboxCommand::Bootout(it.status.domain)),
        OmniboxCommand::EnableRequest => answer(OmniboxCommand::Enable(it.status.domain)),
        OmniboxCommand::DisableRequest => answer(OmniboxCommand::Disable(it.status.domain)),
        OmniboxCommand::Enable(dt) => ServiceCommandOutcome::Enable { name: it.name.clone(), domain: dt },
        OmniboxCommand::Disable(dt) => ServiceCommandOutcome::Disable { name: it.name.clone(), domain: dt },
        OmniboxCommand::ProcInfo => {
            if it.status.pid == 0 {
                let mut msg = "No PID for ".to_owned();
                msg.append(it.name.as_str());
                ServiceCommandOutcome::Done(Err(OmniboxError::CommandError(msg)))
            } else {
                ServiceCommandOutcome::ProcInfo { pid: it.status.pid }
            }
        },
        OmniboxCommand::Edit => handle_plist_command(cmd, it),
        OmniboxCommand::Bootstrap(_) => handle_plist_command(cmd, it),
        OmniboxCommand::Bootout(_) => handle_plist_command(cmd, it),
        _ => ServiceCommandOutcome::Done(Ok(None)),
    }
}

} // verus!
