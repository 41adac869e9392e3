use vstd::prelude::*;
use vstd::string::StringSliceAdditionalSpecFns;
use crate::text::{
    bytes_le, can_truncate, i64_to_string, lemma_bytes_le_total, lemma_bytes_le_transitive,
    pad_spec, pad_to_width, seq_contains, signed_decimal, std_to_lowercase, str_contains, str_le,
    to_lowercase, truncate_bytes, truncate_bytes_spec, utf8_of,
};

verus! {

/// Whether a service is listed: while filtering, its lowercase label holds
/// the lowercase filter.
pub open spec fn service_shown(label: Seq<char>, filter: Option<Seq<char>>) -> bool {
    match filter {
        None => true,
        Some(f) => seq_contains(std_to_lowercase(label), std_to_lowercase(f)),
    }
}

/// The filter, if there is one, as characters.
pub open spec fn filter_view(filter: Option<&str>) -> Option<Seq<char>> {
    match filter {
        Some(f) => Some(f@),
        None => None,
    }
}

/// Labels in the order `String` compares them.
pub open spec fn labels_sorted(s: Seq<String>) -> bool {
    forall|i: int, j: int| 0 <= i < j < s.len() ==> bytes_le(utf8_of(#[trigger] s[i]@), utf8_of(#[trigger] s[j]@))
}

proof fn lemma_bytes_le_refl(a: Seq<u8>)
    ensures
        bytes_le(a, a),
    decreases a.len(),
{
    if a.len() > 0 {
        lemma_bytes_le_refl(a.drop_first());
    }
}

fn sort_labels(labels: Vec<String>) -> (r: Vec<String>)
    ensures
        labels_sorted(r@),
        r@.to_multiset() == labels@.to_multiset(),
{
    broadcast use vstd::seq_lib::group_to_multiset_ensures;
    let ghost all = labels@;
    let mut rest = labels;
    let mut out: Vec<String> = Vec::new();
    while rest.len() > 0
        invariant
            labels_sorted(out@),
            forall|i: int, j: int|
                0 <= i < out@.len() && 0 <= j < rest@.len() ==> bytes_le(
                    utf8_of(#[trigger] out@[i]@),
                    utf8_of(#[trigger] rest@[j]@),
                ),
            out@.to_multiset().add(rest@.to_multiset()) == all.to_multiset(),
        decreases rest@.len(),
    {
        let mut m: usize = 0;
        let mut k: usize = 1;
        proof {
            lemma_bytes_le_refl(utf8_of(rest@[0]@));
        }
        while k < rest.len()
            invariant
                1 <= k <= rest@.len(),
                m < k,
                forall|j: int| 0 <= j < k ==> bytes_le(utf8_of(rest@[m as int]@), utf8_of(#[trigger] rest@[j]@)),
            decreases rest@.len() - k,
        {
            if !str_le(rest[m].as_str(), rest[k].as_str()) {
                proof {
                    let bm = utf8_of(rest@[m as int]@);
                    let bk = utf8_of(rest@[k as int]@);
                    lemma_bytes_le_total(bm, bk);
                    assert forall|j: int| 0 <= j <= k implies bytes_le(bk, utf8_of(#[trigger] rest@[j]@)) by {
                        lemma_bytes_le_refl(bk);
                        if j < k {
                            lemma_bytes_le_transitive(bk, bm, utf8_of(rest@[j]@));
                        }
                    }
                }
                m = k;
            }
            k = k + 1;
        }
        let ghost before_rest = rest@;
        let ghost before_out = out@;
        let x = rest.remove(m);
        proof {
            assert(rest@ =~= before_rest.remove(m as int));
            assert forall|j: int| 0 <= j < rest@.len() implies bytes_le(utf8_of(x@), utf8_of(#[trigger] rest@[j]@)) by {
                if j < m {
                    assert(rest@[j] == before_rest[j]);
                } else {
                    assert(rest@[j] == before_rest[j + 1]);
                }
            }
        }
        out.push(x);
        proof {
            assert(out@ =~= before_out.push(x));
            assert forall|i: int, j: int| 0 <= i < out@.len() && 0 <= j < rest@.len() implies bytes_le(
                utf8_of(#[trigger] out@[i]@),
                utf8_of(#[trigger] rest@[j]@),
            ) by {
                if i < before_out.len() {
                    let j1 = if j < m { j } else { j + 1 };
                    assert(rest@[j] == before_rest[j1]);
                    assert(out@[i] == before_out[i]);
                }
            }
            assert forall|i: int, j: int| 0 <= i < j < out@.len() implies bytes_le(utf8_of(#[trigger] out@[i]@), utf8_of(#[trigger] out@[j]@)) by {
                if j < before_out.len() {
                    assert(out@[i] == before_out[i]);
                    assert(out@[j] == before_out[j]);
                } else {
                    assert(out@[i] == before_out[i]);
                    assert(before_rest[m as int] == x);
                    assert(bytes_le(utf8_of(before_out[i]@), utf8_of(before_rest[m as int]@)));
                }
            }
            before_rest.to_multiset_ensures();
            before_out.to_multiset_ensures();
            assert(before_rest.contains(x));
            assert(rest@.to_multiset() =~= before_rest.to_multiset().remove(x));
            assert(before_rest.to_multiset().count(x) > 0);
            assert(before_rest.to_multiset() =~= rest@.to_multiset().insert(x));
            assert(out@.to_multiset() =~= before_out.to_multiset().insert(x));
            assert(out@.to_multiset().add(rest@.to_multiset()) =~= before_out.to_multiset().add(
                before_rest.to_multiset(),
            ));
        }
    }
    assert(rest@.to_multiset() =~= vstd::multiset::Multiset::<String>::empty());
    assert(out@.to_multiset().add(vstd::multiset::Multiset::<String>::empty()) =~= out@.to_multiset());
    out
}

/// The labels of the services to list, in order: every label while no
/// filter is typed, else those whose lowercase form holds the lowercase
/// filter.
pub fn sorted_services(labels: &Vec<String>, filter: Option<&str>) -> (r: Vec<String>)
    ensures
        labels_sorted(r@),
        r@.to_multiset() == labels@.filter(|s: String| service_shown(s@, filter_view(filter))).to_multiset(),
{
    let ghost pred = |s: String| service_shown(s@, filter_view(filter));
    let lowered_filter = match filter {
        Some(f) => Some(to_lowercase(f)),
        None => None,
    };
    let mut kept: Vec<String> = Vec::new();
    let mut i: usize = 0;
    while i < labels.len()
        invariant
            i <= labels@.len(),
            kept@ == labels@.subrange(0, i as int).filter(pred),
            pred == (|s: String| service_shown(s@, filter_view(filter))),
            lowered_filter matches Some(lf) ==> filter is Some && lf@ == std_to_lowercase(filter->Some_0@),
            lowered_filter is None ==> filter is None,
        decreases labels@.len() - i,
    {
        let label = &labels[i];
        let keep = match &lowered_filter {
            None => true,
            Some(lf) => {
                let ll = to_lowercase(label.as_str());
                str_contains(ll.as_str(), lf.as_str())
            },
        };
        proof {
            assert(labels@.subrange(0, i + 1) =~= labels@.subrange(0, i as int).push(labels@[i as int]));
            labels@.subrange(0, i as int).lemma_filter_push(labels@[i as int], pred);
            assert(keep == pred(labels@[i as int]));
        }
        if keep {
            kept.push(label.clone());
        }
        i = i + 1;
    }
    proof {
        assert(labels@.subrange(0, labels@.len() as int) =~= labels@);
    }
    sort_labels(kept)
}

/// The name column of a service row: names longer than `indent` characters
/// cut to `indent - 1` bytes, then padded to `indent` characters.
pub open spec fn service_name_cell(name: Seq<char>, indent: int) -> Seq<char> {
    pad_spec(
        if name.len() > indent { truncate_bytes_spec(name, indent - 1) } else { name },
        indent,
    )
}

/// The PID column of a service row: `-` for no process.
pub open spec fn service_pid_text(pid: i64) -> Seq<char> {
    if pid == 0 { seq!['-'] } else { signed_decimal(pid as int) }
}

/// A name that is cut is cut after at least one byte and between
/// characters.
pub open spec fn service_row_presentable(name: Seq<char>, width: int) -> bool {
    name.len() > width / 2 ==> width / 2 >= 1 && can_truncate(name, width / 2 - 1)
}

/// A row of the service list on a line of `width` columns: the name in the
/// left half, the PID after it.
pub fn service_row(name: &str, pid: i64, width: usize) -> (r: String)
    requires
        service_row_presentable(name@, width as int),
    ensures
        r@ == service_name_cell(name@, (width / 2) as int) + service_pid_text(pid),
{
    let indent = width / 2;
    let pid_str = if pid == 0 {
        proof {
            reveal_strlit("-");
        }
        "-".to_string()
    } else {
        i64_to_string(pid)
    };
    let trunc_name = if name.unicode_len() > indent {
        truncate_bytes(name, indent - 1)
    } else {
        name.to_string()
    };
    let mut row = pad_to_width(trunc_name, indent);
    row.append(pid_str.as_str());
    row
}

} // verus!
