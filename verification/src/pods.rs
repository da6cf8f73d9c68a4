//! Finding the pod that the last attempt of a Job left.
use vstd::prelude::*;
use vstd::string::*;

use crate::objects::{Pod, PodView};
use crate::text::{text_less, text_lt};

verus! {

/// Set since Kubernetes 1.27.
pub const JOB_NAME_LABEL: &'static str = "batch.kubernetes.io/job-name";

/// Deprecated, so consulted only when the current label matches nothing.
pub const LEGACY_JOB_NAME_LABEL: &'static str = "job-name";

// ---------------------------------------------------------------------------------------------
// The newest pod

/// The order of optional stamps: one that is missing comes first.
pub open spec fn stamp_lt(a: Option<i128>, b: Option<i128>) -> bool {
    match (a, b) {
        (None, Some(_)) => true,
        (Some(a), Some(b)) => a < b,
        _ => false,
    }
}

/// The order of optional names: one that is missing comes first.
pub open spec fn name_lt(a: Option<Seq<char>>, b: Option<Seq<char>>) -> bool {
    match (a, b) {
        (None, Some(_)) => true,
        (Some(a), Some(b)) => text_lt(a, b),
        _ => false,
    }
}

/// The order of pods: by the time they were created at, and those of one time by name.
/// Timestamps have second granularity; the name keeps ties stable.
pub open spec fn pod_lt(a: PodView, b: PodView) -> bool {
    let stamp_a = a.metadata.creation_timestamp;
    let stamp_b = b.metadata.creation_timestamp;
    stamp_lt(stamp_a, stamp_b) || (stamp_a == stamp_b && name_lt(a.metadata.name, b.metadata.name))
}

/// The last of the pods that no other pod comes behind.
pub open spec fn newest_of(pods: Seq<PodView>) -> Option<PodView>
    decreases pods.len(),
{
    if pods.len() == 0 {
        None
    } else {
        match newest_of(pods.drop_last()) {
            Some(best) => if pod_lt(pods.last(), best) {
                Some(best)
            } else {
                Some(pods.last())
            },
            None => Some(pods.last()),
        }
    }
}

fn pod_less(a: &Pod, b: &Pod) -> (less: bool)
    ensures
        less == pod_lt(a.deep_view(), b.deep_view()),
{
    match (a.metadata.creation_timestamp, b.metadata.creation_timestamp) {
        (Some(x), Some(y)) => {
            if x != y {
                return x < y;
            }
        },
        (None, Some(_)) => {
            return true;
        },
        (Some(_), None) => {
            return false;
        },
        (None, None) => {},
    }
    match (&a.metadata.name, &b.metadata.name) {
        (Some(x), Some(y)) => text_less(x.as_str(), y.as_str()),
        (None, Some(_)) => true,
        (_, None) => false,
    }
}

/// The pod that was created last. Of pods created at one time it is the one whose name comes
/// last.
pub fn newest(pods: Vec<Pod>) -> (r: Option<Pod>)
    ensures
        r.deep_view() == newest_of(pods.deep_view()),
        r is Some ==> pods@.contains(r->0),
{
    if pods.len() == 0 {
        return None;
    }
    let ghost all = pods.deep_view();
    let mut best: usize = 0;
    let mut i: usize = 1;
    assert(all.take(1).drop_last() =~= Seq::<PodView>::empty());
    assert(newest_of(all.take(1)) == Some(all[0])) by {
        reveal_with_fuel(newest_of, 2);
    }
    while i < pods.len()
        invariant
            all == pods.deep_view(),
            best < i <= pods@.len(),
            newest_of(all.take(i as int)) == Some(all[best as int]),
        decreases pods@.len() - i,
    {
        assert(all.take(i + 1).drop_last() =~= all.take(i as int));
        assert(all.take(i + 1).last() == all[i as int]);
        if !pod_less(&pods[i], &pods[best]) {
            best = i;
        }
        i = i + 1;
    }
    assert(all.take(all.len() as int) =~= all);
    let mut pods = pods;
    let pod = pods.swap_remove(best);
    Some(pod)
}

// ---------------------------------------------------------------------------------------------
// The search

/// By which label the pods of a Job are listed.
#[derive(Debug, Clone, Copy, PartialEq, Eq, Structural)]
pub enum Listing {
    Current,
    Legacy,
}

/// What looking for the newest pod of a Job came to.
#[derive(Debug)]
pub enum PodLookup {
    Found(Pod),
    /// The Job has no pod.
    Missing,
    /// The pods could not be listed.
    Unreadable,
}

/// The view of `PodLookup`.
#[verifier::ext_equal]
pub enum PodLookupView {
    Found(PodView),
    Missing,
    Unreadable,
}

impl DeepView for PodLookup {
    type V = PodLookupView;

    open spec fn deep_view(&self) -> PodLookupView {
        match self {
            PodLookup::Found(pod) => PodLookupView::Found(pod.deep_view()),
            PodLookup::Missing => PodLookupView::Missing,
            PodLookup::Unreadable => PodLookupView::Unreadable,
        }
    }
}

/// What to do next in the search for the newest pod of a Job.
#[derive(Debug)]
pub enum PodSearch {
    /// List the pods by this label.
    List(Listing),
    /// The search is over.
    Done(PodLookup),
}

/// The view of `PodSearch`.
#[verifier::ext_equal]
pub enum PodSearchView {
    List(Listing),
    Done(PodLookupView),
}

impl DeepView for PodSearch {
    type V = PodSearchView;

    open spec fn deep_view(&self) -> PodSearchView {
        match self {
            PodSearch::List(listing) => PodSearchView::List(*listing),
            PodSearch::Done(found) => PodSearchView::Done(found.deep_view()),
        }
    }
}

/// The label that a listing goes by.
pub open spec fn label_of(listing: Listing) -> Seq<char> {
    match listing {
        Listing::Current => JOB_NAME_LABEL@,
        Listing::Legacy => LEGACY_JOB_NAME_LABEL@,
    }
}

/// Where the search for the newest pod of a Job starts.
pub fn first_listing() -> (r: Listing)
    ensures
        r == Listing::Current,
{
    Listing::Current
}

/// The label selector that lists the pods of a Job.
pub fn pod_selector(listing: Listing, job: &str) -> (r: String)
    ensures
        r@ == label_of(listing) + "="@ + job@,
        listing == Listing::Current ==> r@ == "batch.kubernetes.io/job-name="@ + job@,
        listing == Listing::Legacy ==> r@ == "job-name="@ + job@,
{
    proof {
        reveal_strlit("batch.kubernetes.io/job-name");
        reveal_strlit("job-name");
        reveal_strlit("=");
        reveal_strlit("batch.kubernetes.io/job-name=");
        reveal_strlit("job-name=");
        assert(JOB_NAME_LABEL@ + "="@ =~= "batch.kubernetes.io/job-name="@);
        assert(LEGACY_JOB_NAME_LABEL@ + "="@ =~= "job-name="@);
    }
    let mut r = match listing {
        Listing::Current => JOB_NAME_LABEL.to_owned(),
        Listing::Legacy => LEGACY_JOB_NAME_LABEL.to_owned(),
    };
    r.append("=");
    r.append(job);
    r
}

/// What comes after a listing. A listing that failed gave no pods at all.
pub open spec fn after_listing(listing: Listing, listed: Option<Seq<PodView>>) -> PodSearchView {
    match listed {
        None => PodSearchView::Done(PodLookupView::Unreadable),
        Some(pods) => match newest_of(pods) {
            Some(pod) => PodSearchView::Done(PodLookupView::Found(pod)),
            None => match listing {
                Listing::Current => PodSearchView::List(Listing::Legacy),
                Listing::Legacy => PodSearchView::Done(PodLookupView::Missing),
            },
        },
    }
}

/// One step of the search for the newest pod of a Job: what comes after a listing, which gave
/// these pods, or none at all if it failed. A retried Job has a pod per attempt, and the last one
/// is the verdict.
pub fn newest_pod(listing: Listing, listed: Option<Vec<Pod>>) -> (r: PodSearch)
    ensures
        r.deep_view() == after_listing(listing, listed.deep_view()),
{
    match listed {
        None => PodSearch::Done(PodLookup::Unreadable),
        Some(pods) => match newest(pods) {
            Some(pod) => PodSearch::Done(PodLookup::Found(pod)),
            None => match listing {
                Listing::Current => PodSearch::List(Listing::Legacy),
                Listing::Legacy => PodSearch::Done(PodLookup::Missing),
            },
        },
    }
}

// ---------------------------------------------------------------------------------------------
// Laws

/// No pod comes before itself, and what comes before something that does not come behind a third
/// pod comes before that one.
pub proof fn law_pods_are_ordered(a: PodView, b: PodView, c: PodView)
    ensures
        !pod_lt(a, a),
        pod_lt(a, b) ==> !pod_lt(b, a),
        pod_lt(a, b) && pod_lt(b, c) ==> pod_lt(a, c),
        pod_lt(a, b) && !pod_lt(c, b) ==> pod_lt(a, c),
        !pod_lt(a, b) && !pod_lt(b, a) ==> a.metadata.creation_timestamp
            == b.metadata.creation_timestamp && a.metadata.name == b.metadata.name,
{
    broadcast use crate::text::group_text_order;

}

/// The newest pod is one of the pods, and no pod comes behind it. Pods behind it in the list come
/// before it. Only where there is no pod is there no newest one.
pub proof fn law_the_newest_pod_is_the_last_attempt(pods: Seq<PodView>)
    ensures
        newest_of(pods) is None <==> pods.len() == 0,
        newest_of(pods) is Some ==> exists|i: int|
            0 <= i < pods.len() && newest_of(pods) == Some(#[trigger] pods[i]) && (forall|j: int|
                0 <= j < pods.len() ==> !pod_lt(pods[i], #[trigger] pods[j])) && (forall|j: int|
                i < j < pods.len() ==> pod_lt(#[trigger] pods[j], pods[i])),
    decreases pods.len(),
{
    if pods.len() > 0 {
        let init = pods.drop_last();
        let last = pods.len() - 1;
        law_the_newest_pod_is_the_last_attempt(init);
        if newest_of(init) is Some && pod_lt(pods.last(), newest_of(init)->0) {
            let i = choose|i: int|
                0 <= i < init.len() && newest_of(init) == Some(#[trigger] init[i]) && (forall|j: int|
                    0 <= j < init.len() ==> !pod_lt(init[i], #[trigger] init[j])) && (forall|j: int|
                    i < j < init.len() ==> pod_lt(#[trigger] init[j], init[i]));
            assert(newest_of(pods) == Some(pods[i]));
            assert forall|j: int| 0 <= j < pods.len() implies !pod_lt(pods[i], #[trigger] pods[j]) by {
                if j < last {
                    assert(init[j] == pods[j]);
                } else {
                    law_pods_are_ordered(pods[last], pods[i], pods[i]);
                }
            }
            assert forall|j: int| i < j < pods.len() implies pod_lt(#[trigger] pods[j], pods[i]) by {
                if j < last {
                    assert(init[j] == pods[j]);
                }
            }
        } else {
            assert(newest_of(pods) == Some(pods[last]));
            assert forall|j: int| 0 <= j < pods.len() implies !pod_lt(
                pods[last],
                #[trigger] pods[j],
            ) by {
                if j < last {
                    let i = choose|i: int|
                        0 <= i < init.len() && newest_of(init) == Some(#[trigger] init[i]) && (
                        forall|k: int| 0 <= k < init.len() ==> !pod_lt(init[i], #[trigger] init[k]))
                            && (forall|k: int|
                            i < k < init.len() ==> pod_lt(#[trigger] init[k], init[i]));
                    assert(init[j] == pods[j]);
                    law_pods_are_ordered(pods[last], pods[j], init[i]);
                } else {
                    law_pods_are_ordered(pods[last], pods[last], pods[last]);
                }
            }
        }
    }
}

/// What a whole search comes to, given what the two listings give if they are asked for.
pub open spec fn search_result(
    current: Option<Seq<PodView>>,
    legacy: Option<Seq<PodView>>,
) -> PodSearchView {
    match after_listing(Listing::Current, current) {
        PodSearchView::List(listing) => after_listing(listing, legacy),
        done => done,
    }
}

/// The deprecated label is consulted only when the current one matches nothing, and after that
/// the search is over: it found the newest pod of the first listing that has any, or that there is
/// none, or it stopped at a listing that failed.
pub proof fn law_the_search_ends(current: Option<Seq<PodView>>, legacy: Option<Seq<PodView>>)
    ensures
        after_listing(Listing::Current, current) == PodSearchView::List(Listing::Legacy)
            <==> current is Some && current->0.len() == 0,
        after_listing(Listing::Legacy, legacy) is Done,
        search_result(current, legacy) == PodSearchView::Done(
            match (current, legacy) {
                (None, _) => PodLookupView::Unreadable,
                (Some(pods), _) if pods.len() > 0 => PodLookupView::Found(newest_of(pods)->0),
                (Some(_), None) => PodLookupView::Unreadable,
                (Some(_), Some(pods)) if pods.len() > 0 => PodLookupView::Found(
                    newest_of(pods)->0,
                ),
                (Some(_), Some(_)) => PodLookupView::Missing,
            },
        ),
{
    if current is Some {
        law_the_newest_pod_is_the_last_attempt(current->0);
    }
    if legacy is Some {
        law_the_newest_pod_is_the_last_attempt(legacy->0);
    }
}

/// A pod comes before one that was created later, and one that no time is known of before one that
/// a time is known of, whatever they are called. Where the times are the same, or both unknown, the
/// order of the names decides, and a pod without a name comes first.
pub proof fn law_time_orders_pods_and_names_break_ties(a: PodView, b: PodView)
    ensures
        ({
            let x = a.metadata.creation_timestamp;
            let y = b.metadata.creation_timestamp;
            &&& x is Some && y is Some && x->0 < y->0 ==> pod_lt(a, b) && !pod_lt(b, a)
            &&& x is None && y is Some ==> pod_lt(a, b) && !pod_lt(b, a)
        }),
        a.metadata.creation_timestamp == b.metadata.creation_timestamp ==> {
            let x = a.metadata.name;
            let y = b.metadata.name;
            &&& x is Some && y is Some ==> (pod_lt(a, b) <==> text_lt(x->0, y->0))
            &&& x is None ==> (pod_lt(a, b) <==> y is Some)
            &&& x is Some && y is None ==> !pod_lt(a, b)
        },
{
}

/// A pod at the end of the list is the newest exactly if the newest of those before it, if there
/// is one, does not come behind it.
pub proof fn law_a_pod_more_is_the_newest_or_changes_nothing(pods: Seq<PodView>, pod: PodView)
    ensures
        newest_of(seq![]) is None,
        newest_of(pods) is None ==> newest_of(pods.push(pod)) == Some(pod),
        newest_of(pods) is Some && !pod_lt(pod, newest_of(pods)->0) ==> newest_of(pods.push(pod))
            == Some(pod),
        newest_of(pods) is Some && pod_lt(pod, newest_of(pods)->0) ==> newest_of(pods.push(pod))
            == newest_of(pods),
{
    assert(pods.push(pod).drop_last() =~= pods);
}

/// A listing that failed ends the search without an answer, and one that gave pods with the newest
/// of them. One by the current label that gave none leads to the deprecated label, and one by that
/// which gave none to the answer that there is no pod.
pub proof fn law_a_listing_leads_on_only_if_it_is_empty(listing: Listing, pods: Seq<PodView>)
    ensures
        after_listing(listing, None) == PodSearchView::Done(PodLookupView::Unreadable),
        pods.len() > 0 ==> newest_of(pods) is Some && after_listing(listing, Some(pods))
            == PodSearchView::Done(PodLookupView::Found(newest_of(pods)->0)),
        pods.len() == 0 && listing == Listing::Current ==> after_listing(listing, Some(pods))
            == PodSearchView::List(Listing::Legacy),
        pods.len() == 0 && listing == Listing::Legacy ==> after_listing(listing, Some(pods))
            == PodSearchView::Done(PodLookupView::Missing),
{
    law_the_newest_pod_is_the_last_attempt(pods);
}

} // verus!
