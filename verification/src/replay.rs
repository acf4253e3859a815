//! Replay of the journal: the waiting changes are applied to the server one
//! by one, oldest first, and the first that cannot be resolved stops the
//! replay.

use crate::adapter::{can_be_written, ics_document};
use crate::client::{
    is_not_found, is_precondition_failure, not_found, precondition_failed, resource_href,
    task_href, RustyClient,
};
use crate::clock::now_stamp;
use crate::exchange::{Request, RequestView, Response, ResponseView};
use crate::journal::{Action, ActionView, Journal};
use vstd::prelude::*;

verus! {

/// Where the replay stands with the oldest change.
#[derive(Clone, Copy, Debug, PartialEq, Eq, Structural)]
pub enum ReplayStage {
    /// Nothing was asked yet.
    Start,
    /// The change was sent; its outcome is awaited.
    Attempt,
    /// The server's version was not the expected one; the current version
    /// is awaited.
    Refetch,
    /// The change was sent again with the current version; its outcome is
    /// awaited.
    Retry,
    /// The change is resolved; its removal from the stored journal is
    /// awaited.
    Pop,
    /// The replay is over.
    Finished,
}

/// A replay under way: the changes that still wait, the stage of the oldest
/// one, and the body last sent for it.
#[derive(Debug)]
pub struct Replay {
    pub journal: Journal,
    pub stage: ReplayStage,
    pub body: String,
}

/// What a [`Replay`] holds.
pub ghost struct ReplayView {
    pub queue: Seq<ActionView>,
    pub stage: ReplayStage,
    pub body: Seq<char>,
}

impl DeepView for Replay {
    type V = ReplayView;

    open spec fn deep_view(&self) -> ReplayView {
        ReplayView { queue: self.journal@, stage: self.stage, body: self.body@ }
    }
}

impl View for Replay {
    type V = ReplayView;

    open spec fn view(&self) -> ReplayView {
        self.deep_view()
    }
}

/// The request that applies a change, with a document written at `stamp`.
pub open spec fn head_request(a: ActionView, stamp: Seq<char>) -> RequestView {
    match a {
        ActionView::Create(t) => RequestView::Create {
            href: resource_href(t.calendar_href, t.uid),
            body: ics_document(t, stamp),
        },
        ActionView::Update(t) => RequestView::Update {
            href: t.href,
            body: ics_document(t, stamp),
            etag: t.etag,
        },
        ActionView::Delete(t) => RequestView::Delete { href: t.href, etag: t.etag },
    }
}

/// The body that the request of a change carries; a removal carries none.
pub open spec fn head_body(a: ActionView, stamp: Seq<char>) -> Seq<char> {
    match a {
        ActionView::Delete(_) => Seq::empty(),
        _ => ics_document(a.task(), stamp),
    }
}

/// The change can be sent: it is a removal, or its task can be written as a
/// document.
pub open spec fn is_sendable(a: ActionView, stamp: Seq<char>) -> bool {
    a is Delete || can_be_written(a.task(), stamp)
}

/// Turning to the oldest change: it is sent, or the replay is over where
/// nothing waits. A change that cannot be sent blocks the replay.
pub open spec fn replay_next(queue: Seq<ActionView>, stamp: Seq<char>) -> (
    ReplayView,
    Option<RequestView>,
) {
    if queue.len() == 0 || !is_sendable(queue[0], stamp) {
        (ReplayView { queue, stage: ReplayStage::Finished, body: Seq::empty() }, None)
    } else {
        (
            ReplayView { queue, stage: ReplayStage::Attempt, body: head_body(queue[0], stamp) },
            Some(head_request(queue[0], stamp)),
        )
    }
}

/// The oldest change is resolved: it leaves the queue, and the stored
/// journal is told.
pub open spec fn replay_resolved(st: ReplayView) -> (ReplayView, Option<RequestView>) {
    (
        ReplayView { queue: st.queue.drop_first(), stage: ReplayStage::Pop, body: Seq::empty() },
        Some(RequestView::PopJournal),
    )
}

/// The oldest change is blocked: the replay is over and every change stays.
pub open spec fn replay_blocked(st: ReplayView) -> (ReplayView, Option<RequestView>) {
    (ReplayView { queue: st.queue, stage: ReplayStage::Finished, body: Seq::empty() }, None)
}

/// The current version of the resource asked for: that of the first fetched
/// item, where the fetch gave one with content.
pub open spec fn fresh_etag(response: ResponseView) -> Option<Seq<char>> {
    match response.items() {
        Ok(items) => if items.len() > 0 {
            match items[0].content {
                Some(c) => Some(c.etag),
                None => None,
            }
        } else {
            None
        },
        Err(_) => None,
    }
}

/// The request for the current version of a task's resource.
pub open spec fn refetch_request(a: ActionView) -> RequestView {
    RequestView::FetchMany { calendar_href: a.task().calendar_href, hrefs: seq![a.task().href] }
}

/// What the outcome of the first attempt means for the oldest change.
///
/// A creation is resolved by success and by a failed precondition (the
/// resource exists already). An update is resolved by success and, unless
/// the precondition failed, by a missing resource. A removal is resolved by
/// success and by a missing resource. An update or a removal whose
/// precondition failed asks for the current version. Any other failure
/// blocks.
pub open spec fn after_attempt(st: ReplayView, response: ResponseView) -> (
    ReplayView,
    Option<RequestView>,
) {
    match st.queue[0] {
        ActionView::Create(_) => match response.text() {
            Ok(_) => replay_resolved(st),
            Err(e) => if is_precondition_failure(e) {
                replay_resolved(st)
            } else {
                replay_blocked(st)
            },
        },
        ActionView::Update(_) => match response.text() {
            Ok(_) => replay_resolved(st),
            Err(e) => if is_precondition_failure(e) {
                (
                    ReplayView { stage: ReplayStage::Refetch, ..st },
                    Some(refetch_request(st.queue[0])),
                )
            } else if is_not_found(e) {
                replay_resolved(st)
            } else {
                replay_blocked(st)
            },
        },
        ActionView::Delete(_) => match response.done() {
            Ok(_) => replay_resolved(st),
            Err(e) => if is_not_found(e) {
                replay_resolved(st)
            } else if is_precondition_failure(e) {
                (
                    ReplayView { stage: ReplayStage::Refetch, ..st },
                    Some(refetch_request(st.queue[0])),
                )
            } else {
                replay_blocked(st)
            },
        },
    }
}

/// What the fetched version means for the oldest change: with a current
/// version the change is sent once more, with the body of the first attempt;
/// without one the change is resolved.
pub open spec fn after_refetch(st: ReplayView, response: ResponseView) -> (
    ReplayView,
    Option<RequestView>,
) {
    match (st.queue[0], fresh_etag(response)) {
        (ActionView::Update(t), Some(etag)) => (
            ReplayView { stage: ReplayStage::Retry, ..st },
            Some(RequestView::Update { href: t.href, body: st.body, etag }),
        ),
        (ActionView::Delete(t), Some(etag)) => (
            ReplayView { stage: ReplayStage::Retry, ..st },
            Some(RequestView::Delete { href: t.href, etag }),
        ),
        _ => replay_resolved(st),
    }
}

/// One step of the replay: from where it stands and what the world
/// answered to where it stands next and what it asks. `stamp` is the time
/// written into documents.
///
/// An offline client replays nothing. After the second attempt the change is
/// resolved whatever the outcome. Once the stored journal was told of a
/// removal, the replay turns to the next change.
pub open spec fn replay_step(
    online: bool,
    st: ReplayView,
    response: ResponseView,
    stamp: Seq<char>,
) -> (ReplayView, Option<RequestView>) {
    if st.stage == ReplayStage::Finished {
        (st, None)
    } else if st.stage == ReplayStage::Start {
        if online {
            replay_next(st.queue, stamp)
        } else {
            replay_blocked(st)
        }
    } else if st.stage == ReplayStage::Pop {
        replay_next(st.queue, stamp)
    } else if st.queue.len() == 0 {
        replay_blocked(st)
    } else if st.stage == ReplayStage::Attempt {
        after_attempt(st, response)
    } else if st.stage == ReplayStage::Refetch {
        after_refetch(st, response)
    } else {
        replay_resolved(st)
    }
}

impl Replay {
    /// A replay of `journal` that has not begun.
    pub fn begin(journal: Journal) -> (r: Replay)
        ensures
            r@ == (ReplayView { queue: journal@, stage: ReplayStage::Start, body: Seq::empty() }),
    {
        Replay { journal, stage: ReplayStage::Start, body: String::new() }
    }

    /// Whether the replay is over.
    pub fn is_finished(&self) -> (r: bool)
        ensures
            r == (self@.stage == ReplayStage::Finished),
    {
        match self.stage {
            ReplayStage::Finished => true,
            _ => false,
        }
    }

    fn resolved(self) -> (r: (Replay, Option<Request>))
        requires
            self@.queue.len() > 0,
        ensures
            (r.0@, r.1.deep_view()) == replay_resolved(self@),
    {
        let mut journal = self.journal;
        let _ = journal.pop_front();
        (Replay { journal, stage: ReplayStage::Pop, body: String::new() }, Some(Request::PopJournal))
    }

    fn blocked(self) -> (r: (Replay, Option<Request>))
        ensures
            (r.0@, r.1.deep_view()) == replay_blocked(self@),
    {
        (Replay { journal: self.journal, stage: ReplayStage::Finished, body: String::new() }, None)
    }

    fn refetch(self) -> (r: (Replay, Option<Request>))
        requires
            self@.queue.len() > 0,
        ensures
            r.0@ == (ReplayView { stage: ReplayStage::Refetch, ..self@ }),
            r.1.deep_view() == Some(refetch_request(self@.queue[0])),
    {
        let (calendar_href, href) = match &self.journal.queue[0] {
            Action::Create(t) => (t.calendar_href.clone(), t.href.clone()),
            Action::Update(t) => (t.calendar_href.clone(), t.href.clone()),
            Action::Delete(t) => (t.calendar_href.clone(), t.href.clone()),
        };
        let mut hrefs: Vec<String> = Vec::new();
        hrefs.push(href);
        let request = Request::FetchMany { calendar_href, hrefs };
        assert(hrefs.deep_view() =~= seq![self@.queue[0].task().href]);
        (
            Replay { journal: self.journal, stage: ReplayStage::Refetch, body: self.body },
            Some(request),
        )
    }

    fn next(journal: Journal, stamp: &str) -> (r: (Replay, Option<Request>))
        ensures
            (r.0@, r.1.deep_view()) == replay_next(journal@, stamp@),
    {
        if journal.is_empty() {
            return (Replay { journal, stage: ReplayStage::Finished, body: String::new() }, None);
        }
        let sent = match &journal.queue[0] {
            Action::Create(t) => match t.to_ics_at(stamp) {
                Ok(body) => {
                    let href = task_href(t.calendar_href.as_str(), t.uid.as_str());
                    Some((body.clone(), Request::Create { href, body }))
                },
                Err(_) => None,
            },
            Action::Update(t) => match t.to_ics_at(stamp) {
                Ok(body) => Some(
                    (
                        body.clone(),
                        Request::Update { href: t.href.clone(), body, etag: t.etag.clone() },
                    ),
                ),
                Err(_) => None,
            },
            Action::Delete(t) => Some(
                (String::new(), Request::Delete { href: t.href.clone(), etag: t.etag.clone() }),
            ),
        };
        match sent {
            Some((body, request)) => (
                Replay { journal, stage: ReplayStage::Attempt, body },
                Some(request),
            ),
            None => (Replay { journal, stage: ReplayStage::Finished, body: String::new() }, None),
        }
    }
}

/// The current version that a fetch gave, where it gave one.
pub fn read_fresh_etag(response: Response) -> (r: Option<String>)
    ensures
        r.deep_view() == fresh_etag(response@),
{
    match response.into_items() {
        Ok(items) => {
            if items.len() > 0 {
                assert(items.deep_view()[0] == items[0]@);
                match &items[0].content {
                    Some(c) => Some(c.etag.clone()),
                    None => None,
                }
            } else {
                None
            }
        },
        Err(_) => None,
    }
}

impl RustyClient {
    /// One step of the replay of the journal, with `stamp` as the time
    /// written into documents. See [`replay_step`].
    pub fn sync_journal_at(&self, state: Replay, response: Response, stamp: &str) -> (r: (
        Replay,
        Option<Request>,
    ))
        ensures
            (r.0@, r.1.deep_view()) == replay_step(self@ is Some, state@, response@, stamp@),
            r.0@.queue == state@.queue || (r.0@.queue == state@.queue.drop_first() && r.1.deep_view()
                == Some(RequestView::PopJournal)),
    {
        match state.stage {
            ReplayStage::Finished => (state, None),
            ReplayStage::Start => {
                if self.is_online() {
                    Replay::next(state.journal, stamp)
                } else {
                    state.blocked()
                }
            },
            ReplayStage::Pop => Replay::next(state.journal, stamp),
            ReplayStage::Attempt => {
                if state.journal.is_empty() {
                    return state.blocked();
                }
                match &state.journal.queue[0] {
                    Action::Create(_) => match response.into_text() {
                        Ok(_) => state.resolved(),
                        Err(e) => {
                            if precondition_failed(e.as_str()) {
                                state.resolved()
                            } else {
                                state.blocked()
                            }
                        },
                    },
                    Action::Update(_) => match response.into_text() {
                        Ok(_) => state.resolved(),
                        Err(e) => {
                            if precondition_failed(e.as_str()) {
                                state.refetch()
                            } else if not_found(e.as_str()) {
                                state.resolved()
                            } else {
                                state.blocked()
                            }
                        },
                    },
                    Action::Delete(_) => match response.into_done() {
                        Ok(_) => state.resolved(),
                        Err(e) => {
                            if not_found(e.as_str()) {
                                state.resolved()
                            } else if precondition_failed(e.as_str()) {
                                state.refetch()
                            } else {
                                state.blocked()
                            }
                        },
                    },
                }
            },
            ReplayStage::Refetch => {
                if state.journal.is_empty() {
                    return state.blocked();
                }
                let fresh = read_fresh_etag(response);
                match fresh {
                    None => state.resolved(),
                    Some(etag) => {
                        let request = match &state.journal.queue[0] {
                            Action::Create(_) => {
                                return state.resolved();
                            },
                            Action::Update(t) => Request::Update {
                                href: t.href.clone(),
                                body: state.body.clone(),
                                etag,
                            },
                            Action::Delete(t) => Request::Delete { href: t.href.clone(), etag },
                        };
                        (
                            Replay {
                                journal: state.journal,
                                stage: ReplayStage::Retry,
                                body: state.body,
                            },
                            Some(request),
                        )
                    },
                }
            },
            ReplayStage::Retry => {
                if state.journal.is_empty() {
                    return state.blocked();
                }
                state.resolved()
            },
        }
    }

    /// One step of the replay of the journal, with the current time written
    /// into documents.
    pub fn sync_journal(&self, state: Replay, response: Response) -> (r: (Replay, Option<Request>))
        ensures
            exists|stamp: Seq<char>|
                (r.0@, r.1.deep_view()) == #[trigger] replay_step(
                    self@ is Some,
                    state@,
                    response@,
                    stamp,
                ),
            r.0@.queue == state@.queue || (r.0@.queue == state@.queue.drop_first() && r.1.deep_view()
                == Some(RequestView::PopJournal)),
    {
        let stamp = now_stamp();
        self.sync_journal_at(state, response, stamp.as_str())
    }
}

/// Where a replay stands after a run of steps, one for each response, each
/// with its own time stamp.
pub open spec fn replay_run(
    online: bool,
    st: ReplayView,
    responses: Seq<ResponseView>,
    stamps: Seq<Seq<char>>,
) -> ReplayView
    decreases responses.len(),
{
    if responses.len() == 0 {
        st
    } else {
        replay_run(
            online,
            replay_step(online, st, responses[0], stamps[0]).0,
            responses.drop_first(),
            stamps.drop_first(),
        )
    }
}

/// The outcome of a first attempt blocks the change: it is a failure that
/// speaks neither of a failed precondition nor, for an update or a removal,
/// of a missing resource.
pub open spec fn is_unresolvable(a: ActionView, response: ResponseView) -> bool {
    match a {
        ActionView::Create(_) => response.text() matches Err(e) && !is_precondition_failure(e),
        ActionView::Update(_) => response.text() matches Err(e) && !is_precondition_failure(e)
            && !is_not_found(e),
        ActionView::Delete(_) => response.done() matches Err(e) && !is_precondition_failure(e)
            && !is_not_found(e),
    }
}

/// The outcome of a first attempt is a success.
pub open spec fn is_success(a: ActionView, response: ResponseView) -> bool {
    match a {
        ActionView::Delete(_) => response.done() is Ok,
        _ => response.text() is Ok,
    }
}

/// A step removes nothing, or the oldest change alone; and it removes it
/// only together with the request that tells the stored journal.
pub proof fn lemma_step_removes_head_only(
    online: bool,
    st: ReplayView,
    response: ResponseView,
    stamp: Seq<char>,
)
    ensures
        ({
            let next = replay_step(online, st, response, stamp);
            ||| next.0.queue == st.queue
            ||| (st.queue.len() > 0 && next.0.queue == st.queue.drop_first() && next.1 == Some(
                RequestView::PopJournal,
            ))
        }),
{
}

/// Changes leave the queue from its head only: whatever the world answers,
/// and however long the replay runs, what waits afterwards is what waited
/// before without some number of the oldest changes. No change leaves
/// while an older one waits, and none changes its place.
pub proof fn lemma_replay_removes_from_head(
    online: bool,
    st: ReplayView,
    responses: Seq<ResponseView>,
    stamps: Seq<Seq<char>>,
)
    ensures
        exists|k: int|
            0 <= k <= st.queue.len() && replay_run(online, st, responses, stamps).queue
                == #[trigger] st.queue.skip(k),
    decreases responses.len(),
{
    if responses.len() == 0 {
        assert(st.queue.skip(0) =~= st.queue);
    } else {
        let next = replay_step(online, st, responses[0], stamps[0]).0;
        lemma_step_removes_head_only(online, st, responses[0], stamps[0]);
        lemma_replay_removes_from_head(online, next, responses.drop_first(), stamps.drop_first());
        let k = choose|k: int|
            0 <= k <= next.queue.len() && replay_run(
                online,
                next,
                responses.drop_first(),
                stamps.drop_first(),
            ).queue == #[trigger] next.queue.skip(k);
        if next.queue == st.queue {
            assert(replay_run(online, st, responses, stamps).queue == st.queue.skip(k));
        } else {
            assert(st.queue.drop_first().skip(k) =~= st.queue.skip(k + 1));
            assert(replay_run(online, st, responses, stamps).queue == st.queue.skip(k + 1));
        }
    }
}

/// A blocked change stops the replay and keeps every change in its place:
/// where the oldest change fails with an outcome that does not resolve it,
/// the queue is as before, the replay is over, nothing more is asked, and no
/// further step changes that.
pub proof fn lemma_blocked_head_keeps_queue(
    online: bool,
    st: ReplayView,
    response: ResponseView,
    stamp: Seq<char>,
    later: Seq<ResponseView>,
    stamps: Seq<Seq<char>>,
)
    requires
        st.stage == ReplayStage::Attempt,
        st.queue.len() > 0,
        is_unresolvable(st.queue[0], response),
    ensures
        replay_step(online, st, response, stamp).0.queue == st.queue,
        replay_step(online, st, response, stamp).0.stage == ReplayStage::Finished,
        replay_step(online, st, response, stamp).1 is None,
        replay_run(online, replay_step(online, st, response, stamp).0, later, stamps).queue
            == st.queue,
{
    lemma_finished_stays(online, replay_step(online, st, response, stamp).0, later, stamps);
}

/// A replay that is over stays as it is.
pub proof fn lemma_finished_stays(
    online: bool,
    st: ReplayView,
    responses: Seq<ResponseView>,
    stamps: Seq<Seq<char>>,
)
    requires
        st.stage == ReplayStage::Finished,
    ensures
        replay_run(online, st, responses, stamps) == st,
    decreases responses.len(),
{
    if responses.len() > 0 {
        lemma_finished_stays(online, st, responses.drop_first(), stamps.drop_first());
    }
}

/// A replay resolves the oldest change before it turns to the next: a new
/// replay of a queue of changes that can be sent first sends its oldest
/// change; on success that change alone leaves, and only then is the second
/// one sent.
pub proof fn lemma_resolves_in_order(
    queue: Seq<ActionView>,
    success: ResponseView,
    any: ResponseView,
    stamp: Seq<char>,
)
    requires
        queue.len() > 0,
        is_success(queue[0], success),
        forall|i: int| 0 <= i < queue.len() ==> is_sendable(#[trigger] queue[i], stamp),
    ensures
        ({
            let start = ReplayView { queue, stage: ReplayStage::Start, body: Seq::empty() };
            let sent = replay_step(true, start, any, stamp);
            let resolved = replay_step(true, sent.0, success, stamp);
            let next = replay_step(true, resolved.0, any, stamp);
            &&& sent.1 == Some(head_request(queue[0], stamp))
            &&& sent.0.queue == queue
            &&& resolved.1 == Some(RequestView::PopJournal)
            &&& resolved.0.queue == queue.drop_first()
            &&& next.0.queue == queue.drop_first()
            &&& queue.len() > 1 ==> next.1 == Some(head_request(queue[1], stamp))
            &&& queue.len() == 1 ==> next.1 is None && next.0.stage == ReplayStage::Finished
        }),
{
}

/// An update in conflict is retried once with the server's current version
/// and then leaves the queue, whatever the retry gives: the failed
/// precondition asks for the resource, the version found there goes into a
/// second update with the body of the first, and any outcome of that
/// resolves the change.
pub proof fn lemma_conflict_retry(
    st: ReplayView,
    conflict: ResponseView,
    fetched: ResponseView,
    outcome: ResponseView,
    stamp: Seq<char>,
)
    requires
        st.stage == ReplayStage::Attempt,
        st.queue.len() > 0,
        st.queue[0] is Update,
        conflict.text() matches Err(e) && is_precondition_failure(e),
        fresh_etag(fetched) is Some,
    ensures
        ({
            let task = st.queue[0].task();
            let asked = replay_step(true, st, conflict, stamp);
            let retried = replay_step(true, asked.0, fetched, stamp);
            let resolved = replay_step(true, retried.0, outcome, stamp);
            &&& asked.1 == Some(
                RequestView::FetchMany { calendar_href: task.calendar_href, hrefs: seq![task.href] },
            )
            &&& asked.0.queue == st.queue
            &&& retried.1 == Some(
                RequestView::Update { href: task.href, body: st.body, etag: fresh_etag(fetched)->0 },
            )
            &&& retried.0.queue == st.queue
            &&& resolved.1 == Some(RequestView::PopJournal)
            &&& resolved.0.queue == st.queue.drop_first()
        }),
{
}

/// The replay works on the oldest change alone: whatever it asks of the
/// server, it asks for the change at the head of the queue as it stands
/// after the step.
pub proof fn lemma_requests_concern_head(
    online: bool,
    st: ReplayView,
    response: ResponseView,
    stamp: Seq<char>,
)
    requires
        replay_step(online, st, response, stamp).1 matches Some(request) && request.is_remote(),
    ensures
        ({
            let next = replay_step(online, st, response, stamp);
            let head = next.0.queue[0];
            &&& next.0.queue.len() > 0
            &&& match next.1->0 {
                RequestView::Create { href, .. } => head is Create && href == resource_href(
                    head.task().calendar_href,
                    head.task().uid,
                ),
                RequestView::Update { href, .. } => head is Update && href == head.task().href,
                RequestView::Delete { href, .. } => head is Delete && href == head.task().href,
                RequestView::FetchMany { calendar_href, hrefs } => calendar_href
                    == head.task().calendar_href && hrefs == seq![head.task().href],
                _ => false,
            }
        }),
{
}

} // verus!
