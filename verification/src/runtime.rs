//! The image runtime: what is requested from the worker, what becomes of the
//! results, and what is painted.

use std::sync::mpsc::{Receiver, Sender};

use ratatui_image::picker::Picker;
use ratatui_image::protocol::Protocol;
use vstd::prelude::*;

use crate::cache::{AsciiArt, Cache, CacheState};
use crate::geometry::{checked_centered_rect, is_centered, origin_representable, Rect, Size};
use crate::graphics::{picker_protocol, protocol_size, protocol_type_of, size_of_protocol, ProtocolType};
use crate::key::{CacheKey, ImageAsset, KeyView};
use crate::laws::results_keep_the_cached_keys;
use crate::worker::{
    handed_in, handed_out, receipt_of, BuildMode, BuildRequest, BuildResult, Built, Handover, RequestView, ResultView, Worker,
    WorkerView,
};

verus! {

/// The rendering backend that the runtime settled on.
#[derive(Clone, Copy, Debug, PartialEq, Eq, Structural)]
pub enum Backend {
    /// None: before detection, or if the worker cannot start.
    Disabled,
    /// A terminal graphics protocol (Kitty, iTerm2 or sixel).
    Graphics,
    /// Coloured ASCII art.
    Ascii,
}

/// The build state of an image that the viewer wants to show this frame.
#[derive(Clone, Copy, Debug, PartialEq, Eq, Structural)]
pub enum ImageStatus {
    /// Built and ready to paint with [`ImageRuntime::render`].
    Ready,
    /// Still building on the worker; the caller shows a loading notice.
    Loading,
    /// The build failed, was never requested, or no backend is active; the
    /// caller shows a text notice.
    Unavailable,
}

/// What to paint, and where.
pub enum RenderPlan<'a> {
    /// Nothing: the image has not finished building at this size.
    Nothing,
    /// The encoded image, at exactly `rect`.
    Graphics { protocol: &'a Protocol, rect: Rect },
    /// The text of the ASCII art, at `rect`.
    Ascii { art: &'a AsciiArt, rect: Rect },
    /// The image is built, but the area lies so far out that the corner of the
    /// centered image has no coordinates.
    OutOfRange,
}

/// What the contracts say of an [`ImageRuntime`].
#[verifier::ext_equal]
pub struct RuntimeView {
    pub backend: Backend,
    pub cache: Map<KeyView, CacheState>,
    /// How often the cache has been cleared.
    pub generation: int,
    /// What the runtime has done with its worker, if it has one.
    pub worker: Option<WorkerView>,
    /// For every request handed to the worker, how many results had been folded
    /// in before it.
    pub marks: Seq<nat>,
    /// Every result folded in so far, oldest first.
    pub folded: Seq<ResultView>,
}

/// The state that a finished or failed build leaves in the cache.
pub open spec fn state_of(built: Option<Built>) -> CacheState {
    match built {
        Some(Built::Graphics(protocol)) => CacheState::ReadyGraphics(protocol),
        Some(Built::Ascii(art)) => CacheState::ReadyAscii(art),
        None => CacheState::Failed,
    }
}

impl RuntimeView {
    pub open spec fn enabled(self) -> bool {
        !(self.backend is Disabled)
    }

    /// An image under `key` would be requested from the worker.
    pub open spec fn wants(self, key: KeyView) -> bool {
        self.enabled() && self.worker is Some && !self.cache.contains_key(key)
    }

    pub open spec fn request(self, key: KeyView) -> RequestView {
        RequestView { generation: self.generation, key }
    }

    /// A runtime that has done nothing yet.
    pub open spec fn fresh(backend: Backend, worker: Option<WorkerView>) -> RuntimeView {
        RuntimeView {
            backend,
            cache: Map::empty(),
            generation: 0,
            worker,
            marks: Seq::empty(),
            folded: Seq::empty(),
        }
    }

    /// Every request handed to the worker's channel so far, oldest first.
    pub open spec fn sent(self) -> Seq<Handover> {
        match self.worker {
            Some(worker) => worker.sent,
            None => Seq::empty(),
        }
    }

    /// After a request for `key` was handed to the channel.
    pub open spec fn after_attempt(self, key: KeyView, accepted: bool) -> RuntimeView {
        RuntimeView {
            worker: Some(self.worker->0.after_send(self.request(key), accepted)),
            marks: self.marks.push(self.folded.len()),
            cache: if accepted {
                self.cache.insert(key, CacheState::Loading)
            } else {
                self.cache
            },
            ..self
        }
    }

    /// After an image under `key` was asked for; `accepted` is the answer of the
    /// channel, if it comes to asking it.
    pub open spec fn after_start(self, key: KeyView, accepted: bool) -> RuntimeView {
        if self.wants(key) {
            self.after_attempt(key, accepted)
        } else {
            self
        }
    }

    /// After the images under `keys` were asked for, in order.
    pub open spec fn after_starts(self, keys: Seq<KeyView>, accepted: Seq<bool>) -> RuntimeView
        decreases keys.len(),
    {
        if keys.len() == 0 {
            self
        } else {
            self.after_starts(keys.drop_last(), accepted).after_start(
                keys.last(),
                accepted[keys.len() - 1],
            )
        }
    }

    /// `result` is of the current generation and of a key that is cached.
    pub open spec fn applies(self, result: ResultView) -> bool {
        result.generation == self.generation && self.cache.contains_key(result.key)
    }

    /// After `result` was folded in. A result that does not apply is dropped.
    pub open spec fn after_result(self, result: ResultView) -> RuntimeView {
        RuntimeView {
            folded: self.folded.push(result),
            cache: if self.applies(result) {
                self.cache.insert(result.key, state_of(result.built))
            } else {
                self.cache
            },
            ..self
        }
    }

    /// After `results` were folded in, in order.
    pub open spec fn after_results(self, results: Seq<ResultView>) -> RuntimeView
        decreases results.len(),
    {
        if results.len() == 0 {
            self
        } else {
            self.after_results(results.drop_last()).after_result(results.last())
        }
    }

    /// After a look into the channel of results that gave `receipt`.
    pub open spec fn after_receive(self, receipt: Option<ResultView>) -> RuntimeView {
        RuntimeView {
            worker: match self.worker {
                Some(worker) => Some(worker.after_receive(receipt)),
                None => None,
            },
            ..self
        }
    }

    /// After `results` were taken off the channel of results, and no others, and
    /// folded in, in order; `dry` if the channel was then found to be empty.
    pub open spec fn after_poll(self, results: Seq<ResultView>, dry: bool) -> RuntimeView {
        let taken = Seq::new(results.len(), |i: int| Some(results[i]));
        let after = self.after_results(results);
        RuntimeView {
            worker: match self.worker {
                Some(worker) => Some(
                    WorkerView {
                        receipts: worker.receipts + (if dry {
                            taken.push(None)
                        } else {
                            taken
                        }),
                        ..worker
                    },
                ),
                None => None,
            },
            ..after
        }
    }

    pub open spec fn any_applies(self, results: Seq<ResultView>) -> bool {
        exists|i: int| 0 <= i < results.len() && self.applies(#[trigger] results[i])
    }

    /// After every build was dropped.
    pub open spec fn after_clear(self) -> RuntimeView {
        RuntimeView { cache: Map::empty(), generation: self.generation + 1, ..self }
    }

    /// What the viewer is told of the image under `key`.
    pub open spec fn status(self, key: KeyView) -> ImageStatus {
        if !self.enabled() || !self.cache.contains_key(key) {
            ImageStatus::Unavailable
        } else {
            match self.cache[key] {
                CacheState::Loading => ImageStatus::Loading,
                CacheState::ReadyGraphics(_) => ImageStatus::Ready,
                CacheState::ReadyAscii(_) => ImageStatus::Ready,
                CacheState::Failed => ImageStatus::Unavailable,
            }
        }
    }

    /// A build for `key` has been requested in the current generation, and the
    /// channel took the request.
    pub open spec fn requested(self, key: KeyView) -> bool {
        exists|i: int| self.request_at(key, i)
    }

    /// The request at `i` is such a request.
    pub open spec fn request_at(self, key: KeyView, i: int) -> bool {
        &&& 0 <= i < self.sent().len()
        &&& self.sent()[i].accepted
        &&& self.sent()[i].request == self.request(key)
    }

    /// No result folded in since the request at `i`, one for `key`, answers it.
    pub open spec fn unanswered(self, key: KeyView, i: int) -> bool {
        forall|j: int|
            self.marks[i] <= j < self.folded.len() ==> !(#[trigger] self.folded[j]).answers(
                self.request(key),
            )
    }

    /// A build for `key` has been requested in the current generation, and has
    /// not been answered since.
    pub open spec fn outstanding(self, key: KeyView) -> bool {
        exists|i: int| #[trigger] self.request_at(key, i) && self.unanswered(key, i)
    }

    /// Every request of the current generation that the channel took has been
    /// answered, and an answer folded in, since it was sent.
    pub open spec fn all_answered(self) -> bool {
        forall|i: int|
            0 <= i < self.sent().len() && (#[trigger] self.sent()[i]).accepted
                && self.sent()[i].request.generation == self.generation ==> exists|j: int|
                self.marks[i] <= j < self.folded.len() && (#[trigger] self.folded[j]).answers(
                    self.sent()[i].request,
                )
    }

    /// The result at `i` is one of the current generation for `key`, and left it
    /// in the state it has.
    pub open spec fn result_at(self, key: KeyView, i: int) -> bool {
        &&& 0 <= i < self.folded.len()
        &&& self.folded[i].answers(self.request(key))
        &&& self.cache[key] == state_of(self.folded[i].built)
    }

    /// What holds of a runtime at all times.
    pub open spec fn inv(self) -> bool {
        &&& self.generation >= 0
        &&& self.enabled() ==> self.worker is Some
        &&& self.idle_while_disabled()
        &&& self.marks_are_in_the_past()
        &&& self.requests_are_not_ahead()
        &&& self.cached_iff_requested()
        &&& self.requested_once()
        &&& self.loading_iff_outstanding()
        &&& self.states_come_from_results()
    }

    /// Nothing is cached without a backend.
    pub open spec fn idle_while_disabled(self) -> bool {
        !self.enabled() ==> self.cache == Map::<KeyView, CacheState>::empty()
    }

    pub open spec fn marks_are_in_the_past(self) -> bool {
        &&& self.marks.len() == self.sent().len()
        &&& forall|i: int|
            0 <= i < self.marks.len() ==> #[trigger] self.marks[i] <= self.folded.len()
    }

    /// No request is of a generation still to come.
    pub open spec fn requests_are_not_ahead(self) -> bool {
        forall|i: int|
            0 <= i < self.sent().len() ==> (#[trigger] self.sent()[i]).request.generation
                <= self.generation
    }

    /// What is cached is what has been requested since the last clear.
    pub open spec fn cached_iff_requested(self) -> bool {
        forall|key: KeyView| #[trigger] self.cache.contains_key(key) <==> self.requested(key)
    }

    /// No build is requested a second time once the channel took the request,
    /// until the next clear.
    pub open spec fn requested_once(self) -> bool {
        forall|i: int, j: int|
            0 <= i < j < self.sent().len() && (#[trigger] self.sent()[i]).accepted ==> (
            #[trigger] self.sent()[j]).request != self.sent()[i].request
    }

    /// What is loading is what has been requested and not been answered.
    pub open spec fn loading_iff_outstanding(self) -> bool {
        forall|key: KeyView| #[trigger]
            self.cache.contains_key(key) ==> (self.cache[key] is Loading <==> self.outstanding(key))
    }

    /// A build that is no longer loading was reported by the worker, in the
    /// current generation and for that very key.
    pub open spec fn states_come_from_results(self) -> bool {
        forall|key: KeyView| #[trigger]
            self.cache.contains_key(key) && !(self.cache[key] is Loading) ==> exists|i: int|
                self.result_at(key, i)
    }
}

proof fn lemma_attempt_inv(view: RuntimeView, key: KeyView, accepted: bool)
    requires
        view.inv(),
        view.wants(key),
    ensures
        view.after_attempt(key, accepted).inv(),
{
    let after = view.after_attempt(key, accepted);
    let n = view.sent().len() as int;
    assert(after.sent() == view.sent().push(Handover { request: view.request(key), accepted }));
    assert forall|k: KeyView, i: int| i < n implies #[trigger] after.request_at(k, i)
        == view.request_at(k, i) by {}
    assert forall|k: KeyView| #[trigger] after.cache.contains_key(k) <==> after.requested(k) by {
        if after.cache.contains_key(k) {
            if view.cache.contains_key(k) {
                assert(view.requested(k));
                let i = choose|i: int| view.request_at(k, i);
                assert(after.request_at(k, i));
            } else {
                assert(after.request_at(k, n));
            }
        }
        if after.requested(k) {
            let i = choose|i: int| after.request_at(k, i);
            if i < n {
                assert(view.request_at(k, i));
                assert(view.requested(k));
                assert(view.cache.contains_key(k));
            }
        }
    }
    assert forall|i: int, j: int|
        0 <= i < j < after.sent().len() && (#[trigger] after.sent()[i]).accepted implies (
    #[trigger] after.sent()[j]).request != after.sent()[i].request by {
        assert(after.sent()[i] == view.sent()[i]);
        if j < n {
            assert(after.sent()[j] == view.sent()[j]);
        } else if after.sent()[j].request == after.sent()[i].request {
            assert(view.request_at(key, i));
            assert(view.requested(key));
        }
    }
    assert forall|k: KeyView| #[trigger] after.cache.contains_key(k) implies (after.cache[k]
        is Loading <==> after.outstanding(k)) by {
        if view.cache.contains_key(k) {
            assert(k != key);
            if view.outstanding(k) {
                let i = choose|i: int| #[trigger] view.request_at(k, i) && view.unanswered(k, i);
                assert(after.request_at(k, i) && after.unanswered(k, i));
            }
            if after.outstanding(k) {
                let i = choose|i: int| #[trigger] after.request_at(k, i) && after.unanswered(k, i);
                assert(i < n);
                assert(after.marks[i] == view.marks[i]);
                assert forall|j: int| view.marks[i] <= j < view.folded.len() implies !(
                #[trigger] view.folded[j]).answers(view.request(k)) by {
                    assert(!after.folded[j].answers(after.request(k)));
                }
                assert(view.request_at(k, i) && view.unanswered(k, i));
            }
        } else {
            assert(after.request_at(k, n) && after.unanswered(k, n));
        }
    }
    assert forall|k: KeyView| #[trigger]
        after.cache.contains_key(k) && !(after.cache[k] is Loading) implies exists|i: int|
        after.result_at(k, i) by {
        assert(view.cache.contains_key(k));
        let i = choose|i: int| view.result_at(k, i);
        assert(after.result_at(k, i));
    }
}

proof fn lemma_result_inv(view: RuntimeView, result: ResultView)
    requires
        view.inv(),
    ensures
        view.after_result(result).inv(),
{
    let after = view.after_result(result);
    let n = view.folded.len() as int;
    assert(after.sent() == view.sent());
    assert forall|k: KeyView, i: int| #[trigger] after.request_at(k, i) == view.request_at(k, i) by {}
    assert forall|k: KeyView| #[trigger] after.cache.contains_key(k) <==> after.requested(k) by {
        assert(after.cache.contains_key(k) == view.cache.contains_key(k));
        if view.requested(k) {
            let i = choose|i: int| view.request_at(k, i);
            assert(after.request_at(k, i));
        }
        if after.requested(k) {
            let i = choose|i: int| after.request_at(k, i);
            assert(view.request_at(k, i));
        }
    }
    assert forall|k: KeyView| #[trigger] after.cache.contains_key(k) implies (after.cache[k]
        is Loading <==> after.outstanding(k)) by {
        assert(view.cache.contains_key(k));
        if view.applies(result) && k == result.key {
            if after.outstanding(k) {
                let i = choose|i: int| #[trigger] after.request_at(k, i) && after.unanswered(k, i);
                assert(view.marks[i] <= n);
                assert(after.folded[n].answers(after.request(k)));
            }
        } else {
            if view.outstanding(k) {
                let i = choose|i: int| #[trigger] view.request_at(k, i) && view.unanswered(k, i);
                assert forall|j: int| after.marks[i] <= j < after.folded.len() implies !(
                #[trigger] after.folded[j]).answers(after.request(k)) by {
                    if j < n {
                        assert(after.folded[j] == view.folded[j]);
                    }
                }
                assert(after.request_at(k, i) && after.unanswered(k, i));
            }
            if after.outstanding(k) {
                let i = choose|i: int| #[trigger] after.request_at(k, i) && after.unanswered(k, i);
                assert forall|j: int| view.marks[i] <= j < view.folded.len() implies !(
                #[trigger] view.folded[j]).answers(view.request(k)) by {
                    assert(after.folded[j] == view.folded[j]);
                }
                assert(view.request_at(k, i) && view.unanswered(k, i));
            }
        }
    }
    assert forall|k: KeyView| #[trigger]
        after.cache.contains_key(k) && !(after.cache[k] is Loading) implies exists|i: int|
        after.result_at(k, i) by {
        assert(view.cache.contains_key(k));
        if view.applies(result) && k == result.key {
            assert(after.folded[n] == result);
            assert(after.result_at(k, n));
        } else {
            let i = choose|i: int| view.result_at(k, i);
            assert(after.folded[i] == view.folded[i]);
            assert(after.result_at(k, i));
        }
    }
}

proof fn lemma_receive_inv(view: RuntimeView, receipt: Option<ResultView>)
    requires
        view.inv(),
    ensures
        view.after_receive(receipt).inv(),
{
    let after = view.after_receive(receipt);
    assert(after.sent() == view.sent());
    assert forall|k: KeyView, i: int| #[trigger] after.request_at(k, i) == view.request_at(k, i) by {}
    assert forall|k: KeyView| #[trigger] after.cache.contains_key(k) <==> after.requested(k) by {
        assert(view.cache.contains_key(k) <==> view.requested(k));
        if view.requested(k) {
            let i = choose|i: int| view.request_at(k, i);
            assert(after.request_at(k, i));
        }
        if after.requested(k) {
            let i = choose|i: int| after.request_at(k, i);
            assert(view.request_at(k, i));
        }
    }
    assert forall|k: KeyView| #[trigger] after.cache.contains_key(k) implies (after.cache[k]
        is Loading <==> after.outstanding(k)) by {
        assert(view.cache.contains_key(k));
        if view.outstanding(k) {
            let i = choose|i: int| #[trigger] view.request_at(k, i) && view.unanswered(k, i);
            assert(after.request_at(k, i) && after.unanswered(k, i));
        }
        if after.outstanding(k) {
            let i = choose|i: int| #[trigger] after.request_at(k, i) && after.unanswered(k, i);
            assert forall|j: int| view.marks[i] <= j < view.folded.len() implies !(
            #[trigger] view.folded[j]).answers(view.request(k)) by {
                assert(!after.folded[j].answers(after.request(k)));
            }
            assert(view.request_at(k, i) && view.unanswered(k, i));
        }
    }
    assert forall|k: KeyView| #[trigger]
        after.cache.contains_key(k) && !(after.cache[k] is Loading) implies exists|i: int|
        after.result_at(k, i) by {
        assert(view.cache.contains_key(k));
        let i = choose|i: int| view.result_at(k, i);
        assert(after.result_at(k, i));
    }
}

/// Taking one more result off the channel and folding it in is one more step of
/// a poll.
proof fn lemma_poll_step(view: RuntimeView, results: Seq<ResultView>, result: ResultView)
    ensures
        view.after_poll(results, false).after_receive(Some(result)).after_result(result)
            == view.after_poll(results.push(result), false),
        view.after_poll(results, false).after_receive(None) == view.after_poll(results, true),
{
    let more = results.push(result);
    assert(more.drop_last() == results);
    results_keep_the_cached_keys(view, results);
    let taken = Seq::new(results.len(), |i: int| Some(results[i]));
    let taken_more = Seq::new(more.len(), |i: int| Some(more[i]));
    assert(taken_more =~= taken.push(Some(result)));
    if view.worker is Some {
        let receipts = view.worker->0.receipts;
        assert((receipts + taken).push(Some(result)) =~= receipts + taken_more);
        assert((receipts + taken).push(None) =~= receipts + taken.push(None));
    }
}

proof fn lemma_clear_inv(view: RuntimeView)
    requires
        view.inv(),
    ensures
        view.after_clear().inv(),
{
    let after = view.after_clear();
    assert forall|k: KeyView| !after.requested(k) by {
        if after.requested(k) {
            let i = choose|i: int| after.request_at(k, i);
            assert(view.sent()[i].request.generation <= view.generation);
        }
    }
}

/// Which backend to use with a terminal of which nothing is known (`None`) or
/// that has `protocol`: half-blocks are no graphics protocol.
pub open spec fn backend_for(protocol: Option<ProtocolType>) -> Backend {
    match protocol {
        Some(ProtocolType::Kitty) => Backend::Graphics,
        Some(ProtocolType::Sixel) => Backend::Graphics,
        Some(ProtocolType::Iterm2) => Backend::Graphics,
        Some(ProtocolType::Halfblocks) => Backend::Ascii,
        None => Backend::Ascii,
    }
}

/// The protocol of a picker that may be missing.
pub open spec fn detected_protocol(picker: Option<Picker>) -> Option<ProtocolType> {
    match picker {
        Some(picker) => Some(picker_protocol(picker)),
        None => None,
    }
}

/// Whether a terminal that has `protocol` is used through it.
pub fn is_graphics(protocol: ProtocolType) -> (r: bool)
    ensures
        r == (backend_for(Some(protocol)) is Graphics),
{
    matches!(protocol, ProtocolType::Kitty | ProtocolType::Sixel | ProtocolType::Iterm2)
}

/// `r` is the backend for what the terminal query detected, and the mode in which
/// the worker builds for it.
pub open spec fn is_choice(r: (Backend, BuildMode), picker: Option<Picker>) -> bool {
    &&& r.0 == backend_for(detected_protocol(picker))
    &&& r.1.backend() == r.0
    &&& r.0 is Graphics ==> picker is Some && r.1 == BuildMode::Graphics(picker->Some_0)
    &&& !(r.0 is Graphics) ==> r.1 == BuildMode::Ascii
}

/// The backend for what the terminal query detected, and the mode in which the
/// worker builds for it.
pub fn choose_backend(picker: Option<Picker>) -> (r: (Backend, BuildMode))
    ensures
        is_choice(r, picker),
{
    match picker {
        Some(picker) => {
            if is_graphics(protocol_type_of(&picker)) {
                (Backend::Graphics, BuildMode::Graphics(picker))
            } else {
                (Backend::Ascii, BuildMode::Ascii)
            }
        },
        None => (Backend::Ascii, BuildMode::Ascii),
    }
}

/// The images of the viewer: their cache, and the worker that fills it.
///
/// The cache is warmed when the viewer opens and cleared when the entry closes,
/// so that navigating in the viewer is instant.
pub struct ImageRuntime {
    backend: Backend,
    cache: Cache,
    /// Bumped on clear, so that builds still in flight are dropped when they
    /// arrive.
    generation: u64,
    worker: Option<Worker>,
    marks: Ghost<Seq<nat>>,
    folded: Ghost<Seq<ResultView>>,
}

/// What a worker that may be missing has done so far.
pub open spec fn worker_view(worker: Option<Worker>) -> Option<WorkerView> {
    match worker {
        Some(worker) => Some(worker@),
        None => None,
    }
}

impl View for ImageRuntime {
    type V = RuntimeView;

    closed spec fn view(&self) -> RuntimeView {
        RuntimeView {
            backend: self.backend,
            cache: self.cache@,
            generation: self.generation as int,
            worker: worker_view(self.worker),
            marks: self.marks@,
            folded: self.folded@,
        }
    }
}

impl Default for ImageRuntime {
    /// A runtime without a backend, which caches and paints nothing.
    fn default() -> (runtime: ImageRuntime)
        ensures
            runtime.wf(),
            runtime@ == RuntimeView::fresh(Backend::Disabled, None),
            runtime.request_channel() is None,
            runtime.result_channel() is None,
    {
        ImageRuntime {
            backend: Backend::Disabled,
            cache: Cache::new(),
            generation: 0,
            worker: None,
            marks: Ghost(Seq::empty()),
            folded: Ghost(Seq::empty()),
        }
    }
}

impl ImageRuntime {
    /// The runtime is as its functions leave it.
    pub open spec fn wf(&self) -> bool {
        self.parts_wf() && self@.inv()
    }

    pub closed spec fn parts_wf(&self) -> bool {
        self.cache.wf() && (self.worker matches Some(worker) ==> worker.wf())
    }

    /// The end of the channel through which requests go to the worker.
    pub closed spec fn request_channel(&self) -> Option<Sender<BuildRequest>> {
        match self.worker {
            Some(worker) => Some(worker.request_channel()),
            None => None,
        }
    }

    /// The end of the channel through which results come from the worker.
    pub closed spec fn result_channel(&self) -> Option<Receiver<BuildResult>> {
        match self.worker {
            Some(worker) => Some(worker.result_channel()),
            None => None,
        }
    }

    /// What went into the channel of requests since `before` is what the views
    /// tell, and nothing was taken from the channel of results.
    pub open spec fn has_only_sent(&self, before: &ImageRuntime) -> bool {
        &&& self.result_channel() == before.result_channel()
        &&& self.request_channel() is Some <==> before.request_channel() is Some
        &&& before.request_channel() matches Some(sender) ==> handed_in(
            self.request_channel()->0,
        ) == handed_in(sender) + self@.worker->0.sent.skip(before@.worker->0.sent.len() as int)
    }

    /// What was taken from the channel of results since `before` is what the views
    /// tell, and nothing went into the channel of requests.
    pub open spec fn has_only_received(&self, before: &ImageRuntime) -> bool {
        &&& self.request_channel() == before.request_channel()
        &&& self.result_channel() is Some <==> before.result_channel() is Some
        &&& before.result_channel() matches Some(receiver) ==> handed_out(
            self.result_channel()->0,
        ) == handed_out(receiver) + self@.worker->0.receipts.skip(
            before@.worker->0.receipts.len() as int,
        )
    }

    /// A runtime with a worker has both channels, one without has neither.
    pub proof fn lemma_channels_are_the_workers(&self)
        ensures
            self.request_channel() is Some <==> self@.worker is Some,
            self.result_channel() is Some <==> self@.worker is Some,
    {
    }

    /// A runtime for the backend that was detected, with an empty cache and with
    /// the worker's channels as they are. Without a worker, because it could not
    /// start, no backend is active.
    pub fn new(backend: Backend, worker: Option<Worker>) -> (runtime: ImageRuntime)
        ensures
            runtime.wf(),
            runtime@ == (match worker {
                Some(_) => RuntimeView::fresh(backend, Some(WorkerView::fresh())),
                None => RuntimeView::fresh(Backend::Disabled, None),
            }),
            worker matches Some(worker) ==> {
                &&& runtime.request_channel() == Some(worker.request_channel())
                &&& runtime.result_channel() == Some(worker.result_channel())
            },
            worker is None ==> runtime.request_channel() is None && runtime.result_channel() is None,
    {
        match worker {
            Some(worker) => ImageRuntime {
                backend,
                cache: Cache::new(),
                generation: 0,
                worker: Some(worker.renewed()),
                marks: Ghost(Seq::empty()),
                folded: Ghost(Seq::empty()),
            },
            None => ImageRuntime::default(),
        }
    }

    /// Whether real images can be rendered, rather than a text notice.
    pub fn enabled(&self) -> (r: bool)
        ensures
            r == self@.enabled(),
    {
        !matches!(self.backend, Backend::Disabled)
    }

    /// Whether the active backend is a terminal graphics protocol. It paints with
    /// skipped cells, so the caller has to clear the screen when an overlay over
    /// an image closes; ASCII art consists of ordinary cells and needs none of
    /// that.
    pub fn uses_graphics(&self) -> (r: bool)
        ensures
            r == (self@.backend is Graphics),
    {
        matches!(self.backend, Backend::Graphics)
    }

    /// How often the cache has been cleared.
    pub fn generation(&self) -> (r: u64)
        ensures
            r == self@.generation,
    {
        self.generation
    }

    /// Fold one finished or failed build into the cache. Returns whether that
    /// changed anything. A result from a superseded generation is dropped, and
    /// so is one for a key that is not cached.
    pub fn fold_result(&mut self, result: BuildResult) -> (changed: bool)
        requires
            old(self).wf(),
        ensures
            final(self).wf(),
            final(self)@ == old(self)@.after_result(result@),
            changed == old(self)@.applies(result@),
            final(self).request_channel() == old(self).request_channel(),
            final(self).result_channel() == old(self).result_channel(),
    {
        proof {
            lemma_result_inv(self@, result@);
        }
        self.folded = Ghost(self.folded@.push(result@));
        if result.generation != self.generation || !self.cache.contains_key(&result.key) {
            return false;
        }
        let state = match result.built {
            Some(Built::Graphics(protocol)) => CacheState::ReadyGraphics(protocol),
            Some(Built::Ascii(art)) => CacheState::ReadyAscii(art),
            None => CacheState::Failed,
        };
        self.cache.insert(result.key, state);
        true
    }

    /// Fold finished builds into the cache, until none is waiting. Returns whether
    /// anything changed, so that the caller can redraw. (No more than `u64::MAX`
    /// builds are folded in at a time.)
    pub fn poll_results(&mut self) -> (changed: bool)
        requires
            old(self).wf(),
        ensures
            final(self).wf(),
            ({
                let arrived = final(self)@.folded.skip(old(self)@.folded.len() as int);
                &&& final(self)@ == old(self)@.after_poll(arrived, arrived.len() < u64::MAX)
                &&& changed == old(self)@.any_applies(arrived)
                &&& old(self)@.worker is None ==> arrived.len() == 0
            }),
            final(self).has_only_received(old(self)),
    {
        let mut changed = false;
        let mut left: u64 = u64::MAX;
        let ghost before = self@;
        let ghost mut arrived: Seq<ResultView> = Seq::empty();
        proof {
            lemma_empty_poll(before);
            lemma_nothing_received(*self);
        }
        while left > 0
            invariant_except_break
                self@ == before.after_poll(arrived, false),
            invariant
                self.wf(),
                before == old(self)@,
                changed == before.any_applies(arrived),
                arrived.len() + left == u64::MAX,
                before.worker is None ==> arrived.len() == 0,
                self.has_only_received(old(self)),
            ensures
                self@ == before.after_poll(arrived, left > 0),
            decreases left,
        {
            let ghost step = *self;
            let next = self.receive();
            proof {
                results_keep_the_cached_keys(before, arrived);
                lemma_receiving_on(*old(self), step, *self);
            }
            match next {
                Some(result) => {
                    let ghost view = result@;
                    let applied = self.fold_result(result);
                    proof {
                        lemma_poll_step(before, arrived, view);
                        results_keep_the_cached_keys(before, arrived);
                        lemma_any_applies_push(before, arrived, view);
                        arrived = arrived.push(view);
                    }
                    changed = changed || applied;
                },
                None => {
                    proof {
                        lemma_poll_step(before, arrived, arbitrary());
                    }
                    break;
                },
            }
            left = left - 1;
        }
        proof {
            results_keep_the_cached_keys(before, arrived);
            assert((before.folded + arrived).skip(before.folded.len() as int) == arrived);
        }
        changed
    }

    /// The next result that is waiting, if any.
    fn receive(&mut self) -> (r: Option<BuildResult>)
        requires
            old(self).wf(),
        ensures
            final(self).wf(),
            final(self)@ == old(self)@.after_receive(receipt_of(r)),
            old(self)@.worker is None ==> r is None,
            final(self).has_only_received(old(self)),
    {
        let ghost before = self@;
        let r = match &mut self.worker {
            Some(worker) => worker.try_recv(),
            None => None,
        };
        proof {
            lemma_receive_inv(before, receipt_of(r));
            if before.worker is Some {
                let receipts = before.worker->0.receipts;
                let receipt = receipt_of(r);
                assert(receipts.push(receipt).skip(receipts.len() as int) =~= seq![receipt]);
                assert(handed_out(old(self).result_channel()->0).push(receipt) =~= handed_out(
                    old(self).result_channel()->0,
                ) + seq![receipt]);
            }
        }
        r
    }

    /// Whether any image is still building, so that the caller can poll more
    /// eagerly.
    pub fn has_pending(&self) -> (r: bool)
        requires
            self.wf(),
        ensures
            r <==> exists|key: KeyView| #[trigger]
                self@.cache.contains_key(key) && self@.cache[key] is Loading,
    {
        self.cache.any_loading()
    }

    /// Drop every cached build, and bump the generation so that builds in flight
    /// are ignored when they return.
    pub fn clear(&mut self)
        requires
            old(self).wf(),
            old(self)@.generation < u64::MAX,
        ensures
            final(self).wf(),
            final(self)@ == old(self)@.after_clear(),
            final(self).request_channel() == old(self).request_channel(),
            final(self).result_channel() == old(self).result_channel(),
    {
        proof {
            lemma_clear_inv(self@);
        }
        self.cache.clear();
        self.generation = self.generation + 1;
    }

    /// The key under which the build of `asset` at `area` is cached.
    pub fn key(&self, asset: &ImageAsset, area: Size) -> (key: CacheKey)
        ensures
            key@ == asset.key_at(area),
    {
        CacheKey::new(asset, area)
    }

    /// The request to hand to the worker so that `asset` gets built at `area`.
    /// `None` if there is no backend or no worker, or if that build is cached
    /// already, in whatever state.
    pub fn start_request(&self, asset: &ImageAsset, area: Size) -> (r: Option<BuildRequest>)
        requires
            self.wf(),
        ensures
            r is Some <==> self@.wants(asset.key_at(area)),
            r matches Some(request) ==> request@ == self@.request(asset.key_at(area)),
    {
        if !self.enabled() {
            return None;
        }
        let key = self.key(asset, area);
        if self.cache.contains_key(&key) {
            return None;
        }
        match &self.worker {
            Some(_) => Some(BuildRequest { generation: self.generation, key }),
            None => None,
        }
    }

    /// Have `asset` built at `area`, unless that build is cached already: hand
    /// one request to the worker. The build is loading from now on if the channel
    /// took the request.
    pub fn start(&mut self, asset: &ImageAsset, area: Size)
        requires
            old(self).wf(),
        ensures
            final(self).wf(),
            old(self)@.wants(asset.key_at(area)) ==> final(self)@ == old(self)@.after_attempt(
                asset.key_at(area),
                final(self)@.sent().last().accepted,
            ),
            !old(self)@.wants(asset.key_at(area)) ==> final(self)@ == old(self)@,
            final(self).has_only_sent(old(self)),
    {
        let ghost before = self@;
        match self.start_request(asset, area) {
            Some(request) => {
                let key = request.key.clone();
                let accepted = match &mut self.worker {
                    Some(worker) => worker.send(request),
                    None => false,
                };
                proof {
                    lemma_attempt_inv(before, key@, accepted);
                }
                self.marks = Ghost(self.marks@.push(self.folded@.len()));
                self.cache.note_request(key, accepted);
                proof {
                    let sent = before.sent();
                    let handover = self@.sent().last();
                    assert(sent.push(handover).skip(sent.len() as int) =~= seq![handover]);
                    assert(handed_in(old(self).request_channel()->0).push(handover) =~= handed_in(
                        old(self).request_channel()->0,
                    ) + seq![handover]);
                }
            },
            None => {
                proof {
                    lemma_nothing_sent(*self);
                }
            },
        }
    }

    /// Kick off background builds for every image in `assets` at `size`, so that
    /// the viewer finds them ready. Run when the viewer opens, and on resize.
    pub fn warm(&mut self, assets: &[ImageAsset], size: Size)
        requires
            old(self).wf(),
        ensures
            final(self).wf(),
            exists|accepted: Seq<bool>|
                accepted.len() == assets@.len() && final(self)@ == #[trigger] old(
                    self,
                )@.after_starts(asset_keys(assets@, size), accepted),
            final(self).has_only_sent(old(self)),
    {
        let ghost before = self@;
        let ghost mut answers: Seq<bool> = Seq::empty();
        let ghost keys = asset_keys(assets@, size);
        let mut i: usize = 0;
        assert(keys.take(0) == Seq::<KeyView>::empty());
        proof {
            lemma_nothing_sent(*self);
        }
        while i < assets.len()
            invariant
                self.wf(),
                self.has_only_sent(old(self)),
                self@.worker is Some <==> before.worker is Some,
                before.sent().len() <= self@.sent().len(),
                before == old(self)@,
                keys == asset_keys(assets@, size),
                i <= assets@.len(),
                answers.len() == i,
                self@ == before.after_starts(keys.take(i as int), answers),
            decreases assets@.len() - i,
        {
            let ghost step = *self;
            self.start(&assets[i], size);
            proof {
                lemma_sending_on(*old(self), step, *self);
                let more = answers.push(self@.sent().last().accepted);
                assert(keys.take(i + 1).drop_last() == keys.take(i as int));
                lemma_after_starts_agree(before, keys.take(i as int), answers, more);
                answers = more;
            }
            i = i + 1;
        }
        assert(keys.take(i as int) == keys);
    }

    /// Report the build state of `asset` at `area`.
    pub fn status(&self, asset: &ImageAsset, area: Size) -> (r: ImageStatus)
        requires
            self.wf(),
        ensures
            r == self@.status(asset.key_at(area)),
    {
        if !self.enabled() {
            return ImageStatus::Unavailable;
        }
        let key = self.key(asset, area);
        match self.cache.get(&key) {
            Some(state) => match state {
                CacheState::ReadyGraphics(_) => ImageStatus::Ready,
                CacheState::ReadyAscii(_) => ImageStatus::Ready,
                CacheState::Loading => ImageStatus::Loading,
                CacheState::Failed => ImageStatus::Unavailable,
            },
            None => ImageStatus::Unavailable,
        }
    }

    /// What to paint of `asset` within `area`: the image, centered, if it has
    /// finished building at the size of `area`.
    ///
    /// Fitting an image with its proportions kept may leave it smaller than the
    /// area. The image widget draws at the top left of the rectangle it is given
    /// and skips an image that is larger, so the rectangle has to be exact.
    pub fn render(&self, area: Rect, asset: &ImageAsset) -> (plan: RenderPlan<'_>)
        requires
            self.wf(),
        ensures
            is_plan(
                plan,
                self@,
                area,
                asset.key_at(Size { width: area.width, height: area.height }),
            ),
    {
        let key = self.key(asset, Size { width: area.width, height: area.height });
        match self.cache.get(&key) {
            Some(CacheState::ReadyGraphics(protocol)) => {
                match checked_centered_rect(area, size_of_protocol(protocol)) {
                    Some(rect) => RenderPlan::Graphics { protocol, rect },
                    None => RenderPlan::OutOfRange,
                }
            },
            Some(CacheState::ReadyAscii(art)) => {
                match checked_centered_rect(area, Size { width: art.cols, height: art.rows }) {
                    Some(rect) => RenderPlan::Ascii { art, rect },
                    None => RenderPlan::OutOfRange,
                }
            },
            _ => RenderPlan::Nothing,
        }
    }
}

/// The keys of `assets` at `size`, in order.
pub open spec fn asset_keys(assets: Seq<ImageAsset>, size: Size) -> Seq<KeyView> {
    Seq::new(assets.len(), |i: int| assets[i].key_at(size))
}

/// The size of the ASCII art in cells.
pub open spec fn art_size(art: AsciiArt) -> Size {
    Size { width: art.cols, height: art.rows }
}

/// The size in cells of a finished image.
pub open spec fn content_size(state: CacheState) -> Size
    recommends
        state is ReadyGraphics || state is ReadyAscii,
{
    match state {
        CacheState::ReadyGraphics(built) => protocol_size(built),
        CacheState::ReadyAscii(built) => art_size(built),
        _ => arbitrary(),
    }
}

/// `plan` is what to paint within `area` of the image under `key`.
pub open spec fn is_plan(plan: RenderPlan<'_>, view: RuntimeView, area: Rect, key: KeyView) -> bool {
    if !view.cache.contains_key(key) {
        plan is Nothing
    } else {
        match view.cache[key] {
            CacheState::ReadyGraphics(built) => if origin_representable(area, protocol_size(built)) {
                &&& plan matches RenderPlan::Graphics { protocol, rect }
                &&& *protocol == built
                &&& is_centered(rect, area, protocol_size(built))
            } else {
                plan is OutOfRange
            },
            CacheState::ReadyAscii(built) => if origin_representable(area, art_size(built)) {
                &&& plan matches RenderPlan::Ascii { art, rect }
                &&& *art == built
                &&& is_centered(rect, area, art_size(built))
            } else {
                plan is OutOfRange
            },
            CacheState::Loading => plan is Nothing,
            CacheState::Failed => plan is Nothing,
        }
    }
}

proof fn lemma_nothing_sent(runtime: ImageRuntime)
    ensures
        runtime.has_only_sent(&runtime),
{
    if runtime.request_channel() is Some {
        let history = handed_in(runtime.request_channel()->0);
        let sent = runtime@.worker->0.sent;
        assert(history + sent.skip(sent.len() as int) =~= history);
    }
}

proof fn lemma_nothing_received(runtime: ImageRuntime)
    ensures
        runtime.has_only_received(&runtime),
{
    if runtime.result_channel() is Some {
        let history = handed_out(runtime.result_channel()->0);
        let receipts = runtime@.worker->0.receipts;
        assert(history + receipts.skip(receipts.len() as int) =~= history);
    }
}

/// Two stretches of sending are one.
proof fn lemma_sending_on(first: ImageRuntime, second: ImageRuntime, third: ImageRuntime)
    requires
        second.has_only_sent(&first),
        third.has_only_sent(&second),
        second@.worker is Some <==> first@.worker is Some,
        third@.worker is Some <==> second@.worker is Some,
        first@.sent().len() <= second@.sent().len(),
        second@.sent().is_prefix_of(third@.sent()),
    ensures
        third.has_only_sent(&first),
{
    first.lemma_channels_are_the_workers();
    let (a, b, c) = (first@.sent(), second@.sent(), third@.sent());
    let n = a.len() as int;
    assert(b.skip(n) + c.skip(b.len() as int) =~= c.skip(n));
    if first.request_channel() is Some {
        let history = handed_in(first.request_channel()->0);
        assert(history + b.skip(n) + c.skip(b.len() as int) =~= history + c.skip(n));
    }
}

/// Two stretches of receiving are one.
proof fn lemma_receiving_on(first: ImageRuntime, second: ImageRuntime, third: ImageRuntime)
    requires
        second.has_only_received(&first),
        third.has_only_received(&second),
        second@.worker is Some <==> first@.worker is Some,
        third@.worker is Some <==> second@.worker is Some,
        first@.worker is Some ==> {
            &&& first@.worker->0.receipts.len() <= second@.worker->0.receipts.len()
            &&& second@.worker->0.receipts.is_prefix_of(third@.worker->0.receipts)
        },
    ensures
        third.has_only_received(&first),
{
    first.lemma_channels_are_the_workers();
    if first@.worker is Some {
        let a = first@.worker->0.receipts;
        let b = second@.worker->0.receipts;
        let c = third@.worker->0.receipts;
        let n = a.len() as int;
        let history = handed_out(first.result_channel()->0);
        assert(history + b.skip(n) + c.skip(b.len() as int) =~= history + c.skip(n));
    }
}

proof fn lemma_empty_poll(view: RuntimeView)
    ensures
        view.after_poll(Seq::empty(), false) == view,
{
    let none = Seq::<ResultView>::empty();
    let taken = Seq::new(none.len(), |i: int| Some(none[i]));
    if view.worker is Some {
        assert(view.worker->0.receipts + taken =~= view.worker->0.receipts);
    }
}

proof fn lemma_any_applies_push(view: RuntimeView, results: Seq<ResultView>, result: ResultView)
    ensures
        view.any_applies(results.push(result)) == (view.any_applies(results) || view.applies(
            result,
        )),
{
    let more = results.push(result);
    if view.any_applies(results) {
        let i = choose|i: int| 0 <= i < results.len() && view.applies(#[trigger] results[i]);
        assert(view.applies(more[i]));
    }
    if view.applies(result) {
        assert(view.applies(more[results.len() as int]));
    }
    if view.any_applies(more) {
        let i = choose|i: int| 0 <= i < more.len() && view.applies(#[trigger] more[i]);
        if i < results.len() {
            assert(view.applies(results[i]));
        }
    }
}

proof fn lemma_after_starts_agree(
    view: RuntimeView,
    keys: Seq<KeyView>,
    accepted: Seq<bool>,
    other: Seq<bool>,
)
    requires
        keys.len() <= accepted.len(),
        keys.len() <= other.len(),
        forall|i: int| 0 <= i < keys.len() ==> accepted[i] == other[i],
    ensures
        view.after_starts(keys, accepted) == view.after_starts(keys, other),
    decreases keys.len(),
{
    if keys.len() > 0 {
        lemma_after_starts_agree(view, keys.drop_last(), accepted, other);
    }
}

} // verus!
