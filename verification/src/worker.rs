//! The runtime's end of the channels to the background worker, and what travels
//! over them.

use std::sync::mpsc::{Receiver, Sender};

use image::DynamicImage;
use ratatui_image::picker::Picker;
use ratatui_image::protocol::Protocol;
use vstd::prelude::*;

use crate::cache::AsciiArt;
use crate::graphics::{build_protocol, is_protocol_build};
use crate::key::{CacheKey, KeyView};
use crate::runtime::Backend;

verus! {

/// `std::sync::mpsc::Sender`: the sending end of a channel.
#[verifier::external_type_specification]
#[verifier::external_body]
#[verifier::reject_recursive_types(T)]
pub struct ExSender<T>(Sender<T>);

/// `std::sync::mpsc::Receiver`: the receiving end of a channel.
#[verifier::external_type_specification]
#[verifier::external_body]
#[verifier::reject_recursive_types(T)]
pub struct ExReceiver<T>(Receiver<T>);

/// How the worker turns a decoded image into something paintable.
pub enum BuildMode {
    Graphics(Picker),
    Ascii,
}

/// A finished build, tagged by backend.
pub enum Built {
    Graphics(Protocol),
    Ascii(AsciiArt),
}

/// The graphics build in `built`.
pub open spec fn graphics_of(built: Option<Built>) -> Option<Protocol> {
    match built {
        Some(Built::Graphics(protocol)) => Some(protocol),
        _ => None,
    }
}

/// `built` is a build for `backend`, or none at all.
pub open spec fn is_build_for(backend: Backend, built: Option<Built>) -> bool {
    match built {
        Some(Built::Graphics(_)) => backend is Graphics,
        Some(Built::Ascii(_)) => backend is Ascii,
        None => true,
    }
}

impl BuildMode {
    /// The backend that this mode builds for.
    pub open spec fn backend(self) -> Backend {
        match self {
            BuildMode::Graphics(_) => Backend::Graphics,
            BuildMode::Ascii => Backend::Ascii,
        }
    }

    /// `built` is what this mode makes of `key`: with a graphics protocol, from the
    /// decoded image; else from the drawn ASCII art. Either is `None` if preparing
    /// it failed.
    pub open spec fn builds(
        self,
        key: CacheKey,
        decoded: Option<DynamicImage>,
        drawn: Option<AsciiArt>,
        built: Option<Built>,
    ) -> bool {
        &&& is_build_for(self.backend(), built)
        &&& match self {
            BuildMode::Graphics(picker) => is_protocol_build(
                graphics_of(built),
                picker,
                decoded,
                key,
            ),
            BuildMode::Ascii => match drawn {
                Some(art) => built == Some(Built::Ascii(art)),
                None => built is None,
            },
        }
    }

    /// `result` answers a request with what this mode builds for it.
    pub open spec fn reports(self, result: ResultView) -> bool {
        exists|key: CacheKey, decoded: Option<DynamicImage>, drawn: Option<AsciiArt>|
            key@ == result.key && #[trigger] self.builds(key, decoded, drawn, result.built)
    }

    /// What the worker builds for `key` in this mode.
    pub fn build(
        &self,
        key: &CacheKey,
        decoded: Option<DynamicImage>,
        drawn: Option<AsciiArt>,
    ) -> (built: Option<Built>)
        ensures
            self.builds(*key, decoded, drawn, built),
    {
        match self {
            BuildMode::Graphics(picker) => match build_protocol(picker, decoded, key) {
                Some(protocol) => Some(Built::Graphics(protocol)),
                None => None,
            },
            BuildMode::Ascii => match drawn {
                Some(art) => Some(Built::Ascii(art)),
                None => None,
            },
        }
    }
}

/// A decode and encode job for the worker.
pub struct BuildRequest {
    /// The runtime's generation when it made the request.
    pub generation: u64,
    pub key: CacheKey,
}

/// A finished or failed build on its way back from the worker.
pub struct BuildResult {
    /// The generation of the request.
    pub generation: u64,
    pub key: CacheKey,
    /// `None` if the build failed.
    pub built: Option<Built>,
}

/// Which build a [`BuildRequest`] asks for.
pub struct RequestView {
    pub generation: int,
    pub key: KeyView,
}

/// Which build a [`BuildResult`] answers, and with what.
pub struct ResultView {
    pub generation: int,
    pub key: KeyView,
    pub built: Option<Built>,
}

impl View for BuildRequest {
    type V = RequestView;

    open spec fn view(&self) -> RequestView {
        RequestView { generation: self.generation as int, key: self.key@ }
    }
}

impl View for BuildResult {
    type V = ResultView;

    open spec fn view(&self) -> ResultView {
        ResultView { generation: self.generation as int, key: self.key@, built: self.built }
    }
}

impl ResultView {
    /// This is an answer to `request`.
    pub open spec fn answers(self, request: RequestView) -> bool {
        self.generation == request.generation && self.key == request.key
    }
}

impl BuildRequest {
    /// The worker's answer to this request. `built` is `None` if the build
    /// failed, or if it panicked.
    pub fn answer(self, built: Option<Built>) -> (result: BuildResult)
        ensures
            result.generation == self.generation,
            result.key == self.key,
            result.built == built,
            result@.answers(self@),
    {
        BuildResult { generation: self.generation, key: self.key, built }
    }
}

/// A request that was handed to a channel, and whether the channel took it.
pub struct Handover {
    pub request: RequestView,
    pub accepted: bool,
}

/// What a [`Worker`] has done so far.
#[verifier::ext_equal]
pub struct WorkerView {
    /// Every request handed to the channel, oldest first.
    pub sent: Seq<Handover>,
    /// What each look into the channel of results gave, oldest first; `None`
    /// where nothing was waiting.
    pub receipts: Seq<Option<ResultView>>,
}

impl WorkerView {
    /// Nothing done so far.
    pub open spec fn fresh() -> WorkerView {
        WorkerView { sent: Seq::empty(), receipts: Seq::empty() }
    }

    /// After `request` was handed to the channel.
    pub open spec fn after_send(self, request: RequestView, accepted: bool) -> WorkerView {
        WorkerView { sent: self.sent.push(Handover { request, accepted }), ..self }
    }

    /// After a look into the channel of results that gave `receipt`.
    pub open spec fn after_receive(self, receipt: Option<ResultView>) -> WorkerView {
        WorkerView { receipts: self.receipts.push(receipt), ..self }
    }
}

/// What a look into the channel of results gave.
pub open spec fn receipt_of(result: Option<BuildResult>) -> Option<ResultView> {
    match result {
        Some(result) => Some(result@),
        None => None,
    }
}

/// Every request handed in through `sender` so far, oldest first. This is what a
/// sending end is to the contracts: its history.
pub uninterp spec fn handed_in(sender: Sender<BuildRequest>) -> Seq<Handover>;

/// What each attempt to receive through `receiver` has given so far, oldest
/// first. This is what a receiving end is to the contracts: its history.
pub uninterp spec fn handed_out(receiver: Receiver<BuildResult>) -> Seq<Option<ResultView>>;

/// Calls `Sender::send`: one request is handed in. Whether the channel takes it
/// depends on whether the worker still holds the other end, and is left open.
/// The end is borrowed mutably, so that nobody can send through a shared
/// reference.
#[verifier::external_body]
fn send_request(sender: &mut Sender<BuildRequest>, request: BuildRequest) -> (accepted: bool)
    ensures
        handed_in(*final(sender)) == handed_in(*old(sender)).push(
            (Handover { request: request@, accepted }),
        ),
{
    sender.send(request).is_ok()
}

/// Calls `Receiver::try_recv`: one attempt to receive, which takes the result
/// that it returns, or nothing if the channel was empty or closed. Whether a
/// result is waiting, and which, depends on how far the worker has come, and is
/// left open. The end is borrowed mutably, so that nobody can receive through a
/// shared reference.
#[verifier::external_body]
fn try_receive(receiver: &mut Receiver<BuildResult>) -> (r: Option<BuildResult>)
    ensures
        handed_out(*final(receiver)) == handed_out(*old(receiver)).push(receipt_of(r)),
{
    receiver.try_recv().ok()
}

/// The runtime's handle to the worker. The worker exits once it is dropped.
pub struct Worker {
    requests: Sender<BuildRequest>,
    results: Receiver<BuildResult>,
    /// How much of the ends' histories is older than this handle.
    sent_before: Ghost<nat>,
    received_before: Ghost<nat>,
}

impl View for Worker {
    type V = WorkerView;

    closed spec fn view(&self) -> WorkerView {
        WorkerView {
            sent: handed_in(self.requests).skip(self.sent_before@ as int),
            receipts: handed_out(self.results).skip(self.received_before@ as int),
        }
    }
}

impl Worker {
    pub closed spec fn wf(&self) -> bool {
        &&& self.sent_before@ <= handed_in(self.requests).len()
        &&& self.received_before@ <= handed_out(self.results).len()
    }

    pub closed spec fn request_channel(&self) -> Sender<BuildRequest> {
        self.requests
    }

    pub closed spec fn result_channel(&self) -> Receiver<BuildResult> {
        self.results
    }

    /// A handle over the channels whose other ends the worker holds.
    pub fn new(requests: Sender<BuildRequest>, results: Receiver<BuildResult>) -> (worker: Worker)
        ensures
            worker.wf(),
            worker@ == WorkerView::fresh(),
            worker.request_channel() == requests,
            worker.result_channel() == results,
    {
        let ghost sent = handed_in(requests);
        let ghost received = handed_out(results);
        Worker {
            requests,
            results,
            sent_before: Ghost(sent.len()),
            received_before: Ghost(received.len()),
        }
    }

    /// A handle over the same channels that counts from now on.
    pub fn renewed(self) -> (worker: Worker)
        ensures
            worker.wf(),
            worker@ == WorkerView::fresh(),
            worker.request_channel() == self.request_channel(),
            worker.result_channel() == self.result_channel(),
    {
        Worker::new(self.requests, self.results)
    }

    /// Hand `request` to the worker. `false` if the worker is gone.
    pub fn send(&mut self, request: BuildRequest) -> (accepted: bool)
        requires
            old(self).wf(),
        ensures
            final(self).wf(),
            final(self)@ == old(self)@.after_send(request@, accepted),
            handed_in(final(self).request_channel()) == handed_in(
                old(self).request_channel(),
            ).push((Handover { request: request@, accepted })),
            final(self).result_channel() == old(self).result_channel(),
    {
        let ghost before = self@;
        let ghost view = request@;
        let accepted = send_request(&mut self.requests, request);
        assert(self@.sent =~= before.after_send(view, accepted).sent);
        accepted
    }

    /// The next result that is waiting, if any.
    pub fn try_recv(&mut self) -> (r: Option<BuildResult>)
        requires
            old(self).wf(),
        ensures
            final(self).wf(),
            final(self)@ == old(self)@.after_receive(receipt_of(r)),
            handed_out(final(self).result_channel()) == handed_out(
                old(self).result_channel(),
            ).push(receipt_of(r)),
            final(self).request_channel() == old(self).request_channel(),
    {
        let ghost before = self@;
        let r = try_receive(&mut self.results);
        assert(self@.receipts =~= before.after_receive(receipt_of(r)).receipts);
        r
    }
}

} // verus!
