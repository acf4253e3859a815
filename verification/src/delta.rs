//! Delta sync: a remote listing is held against the tasks last seen, and
//! only what is new or changed is fetched.

use crate::client::{is_task_document, task_document};
use crate::exchange::{ResourceEntry, ResourceView};
use crate::model::{Task, TaskView};
use vstd::prelude::*;

verus! {

/// The task last seen at `href`. Where several were seen there, the last of
/// them counts.
pub open spec fn cached_for(cached: Seq<TaskView>, href: Seq<char>) -> Option<TaskView>
    decreases cached.len(),
{
    if cached.len() == 0 {
        None
    } else if cached.last().href == href {
        Some(cached.last())
    } else {
        cached_for(cached.drop_last(), href)
    }
}

/// An earlier row of the listing names the same resource as row `i`.
pub open spec fn listed_before(resources: Seq<ResourceView>, i: int) -> bool {
    exists|j: int| 0 <= j < i && (#[trigger] resources[j]).href == resources[i].href
}

/// The resource is as it was last seen: a task was seen there, and the
/// server names a version, not empty, that is the version seen.
pub open spec fn is_unchanged(r: ResourceView, cached: Seq<TaskView>) -> bool {
    match (cached_for(cached, r.href), r.etag) {
        (Some(t), Some(e)) => e.len() > 0 && e == t.etag,
        _ => false,
    }
}

/// Row `i` of the listing keeps the task last seen: the row is a task
/// document, the first for its resource, and unchanged.
pub open spec fn keeps(resources: Seq<ResourceView>, cached: Seq<TaskView>, i: int) -> bool {
    &&& is_task_document(resources[i].href)
    &&& !listed_before(resources, i)
    &&& is_unchanged(resources[i], cached)
}

/// Row `i` of the listing is fetched: it is a task document and does not
/// keep the task last seen.
pub open spec fn fetches(resources: Seq<ResourceView>, cached: Seq<TaskView>, i: int) -> bool {
    is_task_document(resources[i].href) && !keeps(resources, cached, i)
}

/// The tasks kept by the first `n` rows of the listing, in the listing's
/// order.
pub open spec fn kept_of(resources: Seq<ResourceView>, cached: Seq<TaskView>, n: int) -> Seq<
    TaskView,
>
    decreases n,
{
    if n <= 0 {
        Seq::empty()
    } else if keeps(resources, cached, n - 1) {
        kept_of(resources, cached, n - 1).push(cached_for(cached, resources[n - 1].href)->0)
    } else {
        kept_of(resources, cached, n - 1)
    }
}

/// The resources to fetch among the first `n` rows of the listing, in the
/// listing's order.
pub open spec fn fetch_of(resources: Seq<ResourceView>, cached: Seq<TaskView>, n: int) -> Seq<
    Seq<char>,
>
    decreases n,
{
    if n <= 0 {
        Seq::empty()
    } else if fetches(resources, cached, n - 1) {
        fetch_of(resources, cached, n - 1).push(resources[n - 1].href)
    } else {
        fetch_of(resources, cached, n - 1)
    }
}

/// The place of the task last seen at `href`, where one was seen there.
pub fn find_cached(cached: &Vec<Task>, href: &String) -> (r: Option<usize>)
    ensures
        match r {
            Some(k) => k < cached.len() && cached_for(cached.deep_view(), href@) == Some(
                cached[k as int]@,
            ),
            None => cached_for(cached.deep_view(), href@) is None,
        },
{
    let mut n: usize = cached.len();
    assert(cached.deep_view().take(n as int) =~= cached.deep_view());
    while n > 0
        invariant
            n <= cached.len(),
            cached_for(cached.deep_view(), href@) == cached_for(
                cached.deep_view().take(n as int),
                href@,
            ),
        decreases n,
    {
        let ghost prefix = cached.deep_view().take(n as int);
        assert(prefix.last() == cached[n - 1]@);
        assert(prefix.drop_last() =~= cached.deep_view().take(n - 1));
        if cached[n - 1].href == *href {
            return Some(n - 1);
        }
        n -= 1;
    }
    None
}

/// Whether an earlier row of the listing names the same resource as row `i`.
pub fn seen_before(resources: &Vec<ResourceEntry>, i: usize) -> (r: bool)
    requires
        i < resources.len(),
    ensures
        r == listed_before(resources.deep_view(), i as int),
{
    let mut j: usize = 0;
    while j < i
        invariant
            j <= i,
            i < resources.len(),
            forall|k: int| 0 <= k < j ==> resources[k]@.href != resources[i as int]@.href,
        decreases i - j,
    {
        if resources[j].href == resources[i].href {
            assert(resources.deep_view()[j as int].href == resources.deep_view()[i as int].href);
            return true;
        }
        j += 1;
    }
    assert forall|k: int| 0 <= k < i implies (#[trigger] resources.deep_view()[k]).href
        != resources.deep_view()[i as int].href by {
        assert(resources.deep_view()[k] == resources[k]@);
    }
    false
}

/// Whether a listed resource is as it was last seen, and the place of the
/// task seen there.
pub fn unchanged(r: &ResourceEntry, cached: &Vec<Task>) -> (k: Option<usize>)
    ensures
        k is Some == is_unchanged(r@, cached.deep_view()),
        k matches Some(at) ==> at < cached.len() && cached_for(cached.deep_view(), r@.href)
            == Some(cached[at as int]@),
{
    match find_cached(cached, &r.href) {
        None => None,
        Some(at) => match &r.etag {
            None => None,
            Some(e) => {
                if !e.as_str().is_empty() && *e == cached[at].etag {
                    Some(at)
                } else {
                    None
                }
            },
        },
    }
}

/// Holds a listing against the tasks last seen. Gives the tasks to keep and
/// the resources to fetch, each in the listing's order.
///
/// A row counts only where its resource is a task document. Its task is
/// kept where one was seen at that resource with the very version that the
/// server names now, and that version is not empty. Any other row is
/// fetched: a new resource, a changed one, one without a version, one
/// listed a second time. A task seen at a resource that the listing does
/// not name is not kept.
pub fn plan_delta(resources: &Vec<ResourceEntry>, cached: &Vec<Task>) -> (r: (
    Vec<Task>,
    Vec<String>,
))
    ensures
        r.0.deep_view() == kept_of(
            resources.deep_view(),
            cached.deep_view(),
            resources.len() as int,
        ),
        r.1.deep_view() == fetch_of(
            resources.deep_view(),
            cached.deep_view(),
            resources.len() as int,
        ),
{
    let mut kept: Vec<Task> = Vec::new();
    let mut to_fetch: Vec<String> = Vec::new();
    let mut i: usize = 0;
    assert(kept.deep_view() =~= Seq::<TaskView>::empty());
    assert(to_fetch.deep_view() =~= Seq::<Seq<char>>::empty());
    while i < resources.len()
        invariant
            i <= resources.len(),
            kept.deep_view() == kept_of(resources.deep_view(), cached.deep_view(), i as int),
            to_fetch.deep_view() == fetch_of(resources.deep_view(), cached.deep_view(), i as int),
        decreases resources.len() - i,
    {
        let ghost kept_before = kept.deep_view();
        let ghost fetch_before = to_fetch.deep_view();
        assert(resources.deep_view()[i as int] == resources[i as int]@);
        if task_document(resources[i].href.as_str()) {
            let found = if seen_before(resources, i) {
                None
            } else {
                unchanged(&resources[i], cached)
            };
            match found {
                Some(at) => {
                    kept.push(cached[at].clone());
                    assert(kept.deep_view() =~= kept_before.push(cached[at as int]@));
                },
                None => {
                    to_fetch.push(resources[i].href.clone());
                    assert(to_fetch.deep_view() =~= fetch_before.push(resources[i as int]@.href));
                },
            }
        }
        i += 1;
    }
    (kept, to_fetch)
}

/// The task last seen at a resource is one of the tasks last seen, and it
/// was seen at that resource.
pub proof fn lemma_cached_for(cached: Seq<TaskView>, href: Seq<char>)
    ensures
        cached_for(cached, href) matches Some(t) ==> t.href == href && cached.contains(t),
        cached_for(cached, href) is None ==> forall|k: int|
            0 <= k < cached.len() ==> (#[trigger] cached[k]).href != href,
    decreases cached.len(),
{
    if cached.len() > 0 {
        if cached.last().href == href {
            assert(cached[cached.len() - 1] == cached.last());
        } else {
            lemma_cached_for(cached.drop_last(), href);
            if cached_for(cached, href) is Some {
                let t = cached_for(cached, href)->0;
                let k = choose|k: int|
                    0 <= k < cached.drop_last().len() && cached.drop_last()[k] == t;
                assert(cached[k] == t);
            } else {
                assert forall|k: int| 0 <= k < cached.len() implies (#[trigger] cached[k]).href
                    != href by {
                    if k < cached.len() - 1 {
                        assert(cached.drop_last()[k] == cached[k]);
                    }
                }
            }
        }
    }
}

/// Every kept task was seen before, at a resource that the listing names.
pub proof fn lemma_kept_is_listed(resources: Seq<ResourceView>, cached: Seq<TaskView>, n: int)
    requires
        0 <= n <= resources.len(),
    ensures
        forall|k: int|
            0 <= k < kept_of(resources, cached, n).len() ==> cached.contains(
                #[trigger] kept_of(resources, cached, n)[k],
            ) && exists|i: int|
                0 <= i < n && (#[trigger] resources[i]).href == kept_of(resources, cached, n)[k].href,
    decreases n,
{
    if n > 0 {
        lemma_kept_is_listed(resources, cached, n - 1);
        let before = kept_of(resources, cached, n - 1);
        let now = kept_of(resources, cached, n);
        assert forall|k: int| 0 <= k < now.len() implies cached.contains(#[trigger] now[k])
            && exists|i: int| 0 <= i < n && (#[trigger] resources[i]).href == now[k].href by {
            if k < before.len() {
                assert(now[k] == before[k]);
                let i = choose|i: int|
                    0 <= i < n - 1 && (#[trigger] resources[i]).href == before[k].href;
                assert(resources[i].href == now[k].href);
            } else {
                lemma_cached_for(cached, resources[n - 1].href);
                assert(resources[n - 1].href == now[k].href);
            }
        }
    }
}

/// Deletion on the server reaches the result: a task last seen at a
/// resource that the listing does not name is not among the kept tasks.
pub proof fn lemma_deleted_not_kept(
    resources: Seq<ResourceView>,
    cached: Seq<TaskView>,
    t: TaskView,
)
    requires
        forall|i: int| 0 <= i < resources.len() ==> (#[trigger] resources[i]).href != t.href,
    ensures
        !kept_of(resources, cached, resources.len() as int).contains(t),
{
    lemma_kept_is_listed(resources, cached, resources.len() as int);
}

/// The listing shows what was last seen: it names each resource once, each
/// is a task document with a version that is not empty, and the pairs of
/// resource and version are the same on both sides.
pub open spec fn same_versions(resources: Seq<ResourceView>, cached: Seq<TaskView>) -> bool {
    &&& forall|i: int|
        0 <= i < resources.len() ==> is_task_document((#[trigger] resources[i]).href)
            && resources[i].etag is Some && resources[i].etag->0.len() > 0
    &&& forall|i: int, j: int|
        0 <= i < j < resources.len() ==> (#[trigger] resources[i]).href
            != (#[trigger] resources[j]).href
    &&& forall|i: int|
        0 <= i < resources.len() ==> exists|k: int|
            0 <= k < cached.len() && (#[trigger] cached[k]).href == (#[trigger] resources[i]).href
                && Some(cached[k].etag) == resources[i].etag
    &&& forall|k: int|
        0 <= k < cached.len() ==> exists|i: int|
            0 <= i < resources.len() && (#[trigger] resources[i]).href == (
            #[trigger] cached[k]).href && Some(cached[k].etag) == resources[i].etag
}

/// The listing shows what was last seen, and the tasks last seen were seen
/// at different resources.
pub open spec fn mirrors(resources: Seq<ResourceView>, cached: Seq<TaskView>) -> bool {
    &&& same_versions(resources, cached)
    &&& forall|i: int, j: int|
        0 <= i < j < cached.len() ==> (#[trigger] cached[i]).href != (#[trigger] cached[j]).href
}

/// Among tasks seen at different resources, the one seen at a resource is
/// the task last seen there.
pub proof fn lemma_cached_for_unique(cached: Seq<TaskView>, k: int)
    requires
        0 <= k < cached.len(),
        forall|i: int, j: int|
            0 <= i < j < cached.len() ==> (#[trigger] cached[i]).href != (#[trigger] cached[j]).href,
    ensures
        cached_for(cached, cached[k].href) == Some(cached[k]),
    decreases cached.len(),
{
    if k < cached.len() - 1 {
        assert(cached[k].href != cached[cached.len() - 1].href);
        assert(cached.drop_last()[k] == cached[k]);
        assert forall|i: int, j: int| 0 <= i < j < cached.drop_last().len() implies (
        #[trigger] cached.drop_last()[i]).href != (#[trigger] cached.drop_last()[j]).href by {
            assert(cached.drop_last()[i] == cached[i]);
            assert(cached.drop_last()[j] == cached[j]);
        }
        lemma_cached_for_unique(cached.drop_last(), k);
    }
}

/// Where the listing shows what was last seen, the first `n` rows keep a
/// task each and fetch nothing.
proof fn lemma_mirror_prefix(resources: Seq<ResourceView>, cached: Seq<TaskView>, n: int)
    requires
        same_versions(resources, cached),
        0 <= n <= resources.len(),
    ensures
        fetch_of(resources, cached, n).len() == 0,
        kept_of(resources, cached, n).len() == n,
        forall|i: int|
            0 <= i < n ==> cached_for(cached, resources[i].href) == Some(
                #[trigger] kept_of(resources, cached, n)[i],
            ),
    decreases n,
{
    if n > 0 {
        lemma_mirror_prefix(resources, cached, n - 1);
        let r = resources[n - 1];
        let k = choose|k: int|
            0 <= k < cached.len() && (#[trigger] cached[k]).href == r.href && Some(cached[k].etag)
                == r.etag;
        lemma_cached_for(cached, r.href);
        assert(cached_for(cached, r.href) is Some) by {
            if cached_for(cached, r.href) is None {
                assert(cached[k].href != r.href);
            }
        }
        let t = cached_for(cached, r.href)->0;
        let at = choose|at: int| 0 <= at < cached.len() && cached[at] == t;
        let row = choose|row: int|
            0 <= row < resources.len() && (#[trigger] resources[row]).href == (
            #[trigger] cached[at]).href && Some(cached[at].etag) == resources[row].etag;
        assert(row == n - 1) by {
            if row < n - 1 {
                assert(resources[row].href != resources[n - 1].href);
            } else if row > n - 1 {
                assert(resources[n - 1].href != resources[row].href);
            }
        }
        assert(is_unchanged(r, cached));
        assert(!listed_before(resources, n - 1)) by {
            if listed_before(resources, n - 1) {
                let j = choose|j: int|
                    0 <= j < n - 1 && (#[trigger] resources[j]).href == resources[n - 1].href;
                assert(resources[j].href != resources[n - 1].href);
            }
        }
        assert(keeps(resources, cached, n - 1));
    }
}

/// Nothing is fetched where nothing changed: if the listing shows exactly
/// the resources and versions last seen, no resource is to be fetched, and
/// each row of the listing keeps the task last seen at its resource, in the
/// version that the listing names. This holds also where several tasks were
/// seen at one resource.
pub proof fn lemma_no_fetch(resources: Seq<ResourceView>, cached: Seq<TaskView>)
    requires
        same_versions(resources, cached),
    ensures
        fetch_of(resources, cached, resources.len() as int).len() == 0,
        kept_of(resources, cached, resources.len() as int).len() == resources.len(),
        forall|i: int|
            0 <= i < resources.len() ==> {
                let t = #[trigger] kept_of(resources, cached, resources.len() as int)[i];
                &&& cached.contains(t)
                &&& t.href == resources[i].href
                &&& Some(t.etag) == resources[i].etag
                &&& cached_for(cached, resources[i].href) == Some(t)
            },
{
    let n = resources.len() as int;
    let kept = kept_of(resources, cached, n);
    lemma_mirror_prefix(resources, cached, n);
    assert forall|i: int| 0 <= i < n implies {
        let t = #[trigger] kept[i];
        &&& cached.contains(t)
        &&& t.href == resources[i].href
        &&& Some(t.etag) == resources[i].etag
        &&& cached_for(cached, resources[i].href) == Some(t)
    } by {
        let t = kept[i];
        lemma_cached_for(cached, resources[i].href);
        let at = choose|at: int| 0 <= at < cached.len() && cached[at] == t;
        let row = choose|row: int|
            0 <= row < resources.len() && (#[trigger] resources[row]).href == (
            #[trigger] cached[at]).href && Some(cached[at].etag) == resources[row].etag;
        if row < i {
            assert(resources[row].href != resources[i].href);
        } else if row > i {
            assert(resources[i].href != resources[row].href);
        }
    }
}

/// The tasks last seen come back unchanged where nothing changed: if the
/// listing shows exactly the resources and versions last seen, and the
/// tasks were seen at different resources, no resource is to be fetched,
/// and the kept tasks are the tasks last seen, as many as the listing has
/// rows.
pub proof fn lemma_zero_fetch(resources: Seq<ResourceView>, cached: Seq<TaskView>)
    requires
        mirrors(resources, cached),
    ensures
        fetch_of(resources, cached, resources.len() as int).len() == 0,
        kept_of(resources, cached, resources.len() as int).len() == resources.len(),
        kept_of(resources, cached, resources.len() as int).to_set() == cached.to_set(),
{
    let n = resources.len() as int;
    let kept = kept_of(resources, cached, n);
    lemma_mirror_prefix(resources, cached, n);
    lemma_kept_is_listed(resources, cached, n);
    assert forall|t: TaskView| kept.to_set().contains(t) == cached.to_set().contains(t) by {
        if kept.contains(t) {
            let k = choose|k: int| 0 <= k < kept.len() && kept[k] == t;
            assert(cached.contains(kept[k]));
        }
        if cached.contains(t) {
            let k = choose|k: int| 0 <= k < cached.len() && cached[k] == t;
            let i = choose|i: int|
                0 <= i < resources.len() && (#[trigger] resources[i]).href == (
                #[trigger] cached[k]).href && Some(cached[k].etag) == resources[i].etag;
            lemma_cached_for_unique(cached, k);
            assert(kept[i] == t);
        }
    }
    assert(kept.to_set() =~= cached.to_set());
}

} // verus!
