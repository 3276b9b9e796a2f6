//! What holds of the runtime as a whole, whatever the order in which requests
//! are made and results arrive.

use image::DynamicImage;
use ratatui_image::picker::Picker;
use vstd::prelude::*;

use crate::cache::{AsciiArt, CacheState};
use crate::geometry::{inner_length, origin_representable, Rect, Size};
use crate::graphics::{build_bounds, preferred_protocol, protocol_size, ProtocolType};
use crate::key::{CacheKey, ImageAsset, KeyView};
use crate::runtime::{
    backend_for, content_size, is_choice, is_plan, state_of, Backend, RenderPlan, RuntimeView,
};
use crate::worker::{
    is_build_for, BuildMode, BuildRequest, BuildResult, Handover, ResultView, WorkerView,
};

verus! {

/// Warming the cache and viewing go by the same key: an image requested at the
/// viewer's size for `area` is the one that is looked up and painted in a
/// rectangle of that size, and it is built at exactly that size.
pub proof fn viewer_finds_what_was_warmed(asset: ImageAsset, area: Rect, size: Size, shown: Rect)
    requires
        size.width == inner_length(area.width as int),
        size.height == inner_length(area.height as int),
        shown.width == size.width,
        shown.height == size.height,
    ensures
        asset.key_at(Size { width: shown.width, height: shown.height }) == asset.key_at(size),
        asset.key_at(size).width == size.width,
        asset.key_at(size).height == size.height,
{
}

/// An image that is asked for loads until the worker reports back; then it is
/// ready if the worker built it, and unavailable if the build failed.
pub proof fn an_image_becomes_what_the_worker_reports(
    view: RuntimeView,
    key: KeyView,
    result: ResultView,
)
    requires
        view.wants(key),
        result.answers(view.request(key)),
    ensures
        view.after_start(key, true).status(key) is Loading,
        view.after_start(key, true).applies(result),
        result.built is Some ==> view.after_start(key, true).after_result(result).status(key) is Ready,
        result.built is None ==> view.after_start(key, true).after_result(result).status(
            key,
        ) is Unavailable,
{
}

/// A result of another generation changes nothing that is cached.
pub proof fn results_of_other_generations_are_dropped(view: RuntimeView, result: ResultView)
    requires
        result.generation != view.generation,
    ensures
        !view.applies(result),
        view.after_result(result).cache == view.cache,
{
}

/// A build that was requested before a clear is ignored whenever it returns
/// after it: the answer to a request of `view` changes nothing in any state of a
/// later generation.
pub proof fn builds_in_flight_at_a_clear_are_ignored(
    view: RuntimeView,
    i: int,
    later: RuntimeView,
    result: ResultView,
)
    requires
        view.inv(),
        0 <= i < view.sent().len(),
        later.generation >= view.after_clear().generation,
        result.answers(view.sent()[i].request),
    ensures
        !later.applies(result),
        later.after_result(result).cache == later.cache,
{
}

/// A clear forgets every image: nothing is ready or loading, and each image is
/// requested anew when it is asked for.
pub proof fn clear_forgets_everything(view: RuntimeView, key: KeyView)
    ensures
        view.after_clear().status(key) is Unavailable,
        view.enabled() && view.worker is Some ==> view.after_clear().wants(key),
{
}

/// Folding results in never brings in an image that was not asked for, and never
/// loses one that was. Nothing but the cached states and the record of results
/// moves.
pub proof fn results_keep_the_cached_keys(view: RuntimeView, results: Seq<ResultView>)
    ensures
        view.after_results(results).cache.dom() == view.cache.dom(),
        view.after_results(results).generation == view.generation,
        view.after_results(results).backend == view.backend,
        view.after_results(results).worker == view.worker,
        view.after_results(results).marks == view.marks,
        view.after_results(results).folded == view.folded + results,
    decreases results.len(),
{
    if results.len() > 0 {
        results_keep_the_cached_keys(view, results.drop_last());
        assert(results.drop_last().push(results.last()) == results);
        let before = view.after_results(results.drop_last());
        assert(before.after_result(results.last()).cache.dom() =~= before.cache.dom());
    }
}

/// Polling folds in exactly what it takes off the channel: the cache is what the
/// taken results make of it, in their order, and nothing is sent.
pub proof fn polling_folds_what_it_takes(view: RuntimeView, results: Seq<ResultView>, dry: bool)
    ensures
        view.after_poll(results, dry).cache == view.after_results(results).cache,
        view.after_poll(results, dry).folded == view.folded + results,
        view.after_poll(results, dry).sent() == view.sent(),
        view.worker matches Some(worker) ==> {
            let receipts = view.after_poll(results, dry).worker->0.receipts;
            &&& receipts.len() == worker.receipts.len() + results.len() + (if dry {
                1int
            } else {
                0
            })
            &&& forall|i: int|
                0 <= i < results.len() ==> receipts[worker.receipts.len() + i] == Some(
                    #[trigger] results[i],
                )
        },
{
    results_keep_the_cached_keys(view, results);
}

/// Of several results for one image, the last decides.
pub proof fn the_last_result_decides(view: RuntimeView, results: Seq<ResultView>, i: int)
    requires
        0 <= i < results.len(),
        view.applies(results[i]),
        forall|j: int| i < j < results.len() ==> !(#[trigger] view.applies(results[j])
            && results[j].key == results[i].key),
    ensures
        view.after_results(results).cache[results[i].key] == state_of(results[i].built),
    decreases results.len(),
{
    let rest = results.drop_last();
    results_keep_the_cached_keys(view, rest);
    if i < results.len() - 1 {
        assert forall|j: int| i < j < rest.len() implies !(#[trigger] view.applies(rest[j])
            && rest[j].key == rest[i].key) by {
            assert(rest[j] == results[j]);
        }
        the_last_result_decides(view, rest, i);
        assert(!(view.applies(results[results.len() - 1]) && results[results.len() - 1].key
            == results[i].key));
    }
}

/// An image that no result is about keeps its state.
pub proof fn other_images_keep_their_state(
    view: RuntimeView,
    results: Seq<ResultView>,
    key: KeyView,
)
    requires
        view.cache.contains_key(key),
        forall|j: int| 0 <= j < results.len() ==> !(#[trigger] view.applies(results[j])
            && results[j].key == key),
    ensures
        view.after_results(results).cache[key] == view.cache[key],
    decreases results.len(),
{
    if results.len() > 0 {
        let rest = results.drop_last();
        results_keep_the_cached_keys(view, rest);
        assert forall|j: int| 0 <= j < rest.len() implies !(#[trigger] view.applies(rest[j])
            && rest[j].key == key) by {
            assert(rest[j] == results[j]);
        }
        other_images_keep_their_state(view, rest, key);
        assert(!(view.applies(results[results.len() - 1]) && results[results.len() - 1].key
            == key));
    }
}

/// A finished build is not lost to later results: the image stays finished,
/// ready or failed, until the next clear.
pub proof fn results_never_unfinish_a_build(
    view: RuntimeView,
    results: Seq<ResultView>,
    key: KeyView,
)
    requires
        view.cache.contains_key(key),
        !(view.cache[key] is Loading),
    ensures
        view.after_results(results).cache.contains_key(key),
        !(view.after_results(results).cache[key] is Loading),
    decreases results.len(),
{
    if results.len() > 0 {
        results_never_unfinish_a_build(view, results.drop_last(), key);
    }
}

/// Asking for images leaves every image that is cached as it is, and neither the
/// generation nor the backend moves.
pub proof fn asking_keeps_cached_images(
    view: RuntimeView,
    keys: Seq<KeyView>,
    accepted: Seq<bool>,
    key: KeyView,
)
    ensures
        view.cache.contains_key(key) ==> {
            &&& view.after_starts(keys, accepted).cache.contains_key(key)
            &&& view.after_starts(keys, accepted).cache[key] == view.cache[key]
        },
        view.after_starts(keys, accepted).generation == view.generation,
        view.after_starts(keys, accepted).backend == view.backend,
        view.after_starts(keys, accepted).worker is Some == view.worker is Some,
        view.after_starts(keys, accepted).folded == view.folded,
    decreases keys.len(),
{
    if keys.len() > 0 {
        asking_keeps_cached_images(view, keys.drop_last(), accepted, key);
    }
}

/// Without a backend or without a worker, asking for images does nothing.
pub proof fn asking_in_vain_does_nothing(
    view: RuntimeView,
    keys: Seq<KeyView>,
    accepted: Seq<bool>,
)
    requires
        !view.enabled() || view.worker is None,
    ensures
        view.after_starts(keys, accepted) == view,
    decreases keys.len(),
{
    if keys.len() > 0 {
        asking_in_vain_does_nothing(view, keys.drop_last(), accepted);
    }
}

/// While the worker takes requests, warming leaves every image that was asked
/// for in the cache; those that were not there are loading.
pub proof fn warming_caches_every_image(
    view: RuntimeView,
    keys: Seq<KeyView>,
    accepted: Seq<bool>,
    i: int,
)
    requires
        view.enabled(),
        view.worker is Some,
        keys.len() <= accepted.len(),
        forall|j: int| 0 <= j < keys.len() ==> #[trigger] accepted[j],
        0 <= i < keys.len(),
    ensures
        view.after_starts(keys, accepted).cache.contains_key(keys[i]),
        !view.cache.contains_key(keys[i]) ==> view.after_starts(keys, accepted).cache[keys[i]]
            is Loading,
    decreases keys.len(),
{
    let rest = keys.drop_last();
    asking_keeps_cached_images(view, rest, accepted, keys[i]);
    if i < rest.len() {
        assert(rest[i] == keys[i]);
        warming_caches_every_image(view, rest, accepted, i);
    } else if !view.cache.contains_key(keys[i]) && view.after_starts(
        rest,
        accepted,
    ).cache.contains_key(keys[i]) {
        only_asked_images_are_added(view, rest, accepted, keys[i]);
    }
}

/// Asking for images brings in no others, and whatever it brings in is loading.
pub proof fn only_asked_images_are_added(
    view: RuntimeView,
    keys: Seq<KeyView>,
    accepted: Seq<bool>,
    key: KeyView,
)
    requires
        !view.cache.contains_key(key),
        view.after_starts(keys, accepted).cache.contains_key(key),
    ensures
        keys.contains(key),
        view.after_starts(keys, accepted).cache[key] is Loading,
    decreases keys.len(),
{
    if keys.len() > 0 {
        let rest = keys.drop_last();
        if view.after_starts(rest, accepted).cache.contains_key(key) {
            only_asked_images_are_added(view, rest, accepted, key);
            let j = choose|j: int| 0 <= j < rest.len() && rest[j] == key;
            assert(keys[j] == key);
        } else {
            assert(keys[keys.len() - 1] == key);
        }
    }
}

/// The keys that are not cached yet, each once, in the order in which they first
/// occur.
pub open spec fn new_keys(cache: Map<KeyView, CacheState>, keys: Seq<KeyView>) -> Seq<KeyView>
    decreases keys.len(),
{
    if keys.len() == 0 {
        Seq::empty()
    } else {
        let earlier = new_keys(cache, keys.drop_last());
        if cache.contains_key(keys.last()) || earlier.contains(keys.last()) {
            earlier
        } else {
            earlier.push(keys.last())
        }
    }
}

/// [`new_keys`] are those of the keys that are not cached, and none occurs twice.
pub proof fn new_keys_are_distinct_and_complete(
    cache: Map<KeyView, CacheState>,
    keys: Seq<KeyView>,
)
    ensures
        new_keys(cache, keys).no_duplicates(),
        forall|key: KeyView| #[trigger]
            new_keys(cache, keys).contains(key) <==> keys.contains(key) && !cache.contains_key(key),
    decreases keys.len(),
{
    if keys.len() > 0 {
        let rest = keys.drop_last();
        let last = keys.last();
        let earlier = new_keys(cache, rest);
        let all = new_keys(cache, keys);
        new_keys_are_distinct_and_complete(cache, rest);
        assert forall|key: KeyView| keys.contains(key) == (rest.contains(key) || key == last) by {
            if rest.contains(key) {
                let j = choose|j: int| 0 <= j < rest.len() && rest[j] == key;
                assert(keys[j] == key);
            }
            if keys.contains(key) && key != last {
                let j = choose|j: int| 0 <= j < keys.len() && keys[j] == key;
                assert(rest[j] == key);
            }
            assert(keys[keys.len() - 1] == last);
        }
        if !cache.contains_key(last) && !earlier.contains(last) {
            assert forall|key: KeyView| #[trigger] all.contains(key) == (earlier.contains(key) || key
                == last) by {
                if earlier.contains(key) {
                    let j = choose|j: int| 0 <= j < earlier.len() && earlier[j] == key;
                    assert(all[j] == key);
                }
                assert(all[earlier.len() as int] == last);
                if all.contains(key) && key != last {
                    let j = choose|j: int| 0 <= j < all.len() && all[j] == key;
                    assert(earlier[j] == key);
                }
            }
        }
    }
}

/// Accepted requests of `view` for `keys`.
pub open spec fn accepted_requests(view: RuntimeView, keys: Seq<KeyView>) -> Seq<Handover> {
    Seq::new(keys.len(), |i: int| Handover { request: view.request(keys[i]), accepted: true })
}

/// While the worker takes requests, warming sends it one request for every image
/// that is not cached yet, in the order in which they first occur and in the
/// current generation, and no other request.
pub proof fn warming_requests_each_new_image_once(
    view: RuntimeView,
    keys: Seq<KeyView>,
    accepted: Seq<bool>,
)
    requires
        view.enabled(),
        view.worker is Some,
        keys.len() <= accepted.len(),
        forall|j: int| 0 <= j < keys.len() ==> #[trigger] accepted[j],
    ensures
        view.after_starts(keys, accepted).sent() == view.sent() + accepted_requests(
            view,
            new_keys(view.cache, keys),
        ),
        forall|key: KeyView| #[trigger]
            view.after_starts(keys, accepted).cache.contains_key(key) <==> view.cache.contains_key(
                key,
            ) || new_keys(view.cache, keys).contains(key),
    decreases keys.len(),
{
    let after = view.after_starts(keys, accepted);
    if keys.len() == 0 {
        assert(after.sent() =~= view.sent() + accepted_requests(view, new_keys(view.cache, keys)));
    } else {
        let rest = keys.drop_last();
        let last = keys.last();
        let before = view.after_starts(rest, accepted);
        let earlier = new_keys(view.cache, rest);
        warming_requests_each_new_image_once(view, rest, accepted);
        asking_keeps_cached_images(view, rest, accepted, last);
        if before.cache.contains_key(last) {
            assert(after == before);
        } else {
            assert(accepted[keys.len() - 1]);
            let more = earlier.push(last);
            assert(accepted_requests(view, more) =~= accepted_requests(view, earlier).push(
                Handover { request: view.request(last), accepted: true },
            ));
            assert(after.sent() =~= view.sent() + accepted_requests(view, more));
            assert forall|key: KeyView| #[trigger] after.cache.contains_key(key) implies
                view.cache.contains_key(key) || more.contains(key) by {
                if key == last {
                    assert(more[earlier.len() as int] == last);
                } else {
                    assert(before.cache.contains_key(key));
                    if earlier.contains(key) {
                        let j = choose|j: int| 0 <= j < earlier.len() && earlier[j] == key;
                        assert(more[j] == key);
                    }
                }
            }
            assert forall|key: KeyView| view.cache.contains_key(key) || more.contains(key)
                implies #[trigger] after.cache.contains_key(key) by {
                if !view.cache.contains_key(key) && key != last {
                    let j = choose|j: int| 0 <= j < more.len() && more[j] == key;
                    assert(earlier[j] == key);
                    assert(earlier.contains(key));
                }
                assert(before.cache.contains_key(key) || key == last);
            }
        }
    }
}

/// A request that the worker did not take leaves the image as it was: it is not
/// reported as loading, and the next time it is asked for it is requested again.
pub proof fn a_refused_request_can_be_repeated(view: RuntimeView, key: KeyView)
    requires
        view.wants(key),
    ensures
        view.after_start(key, false).cache == view.cache,
        view.after_start(key, false).status(key) is Unavailable,
        view.after_start(key, false).wants(key),
{
}

/// Asking for images that are all cached hands nothing to the worker.
pub proof fn asking_for_cached_images_does_nothing(
    view: RuntimeView,
    keys: Seq<KeyView>,
    accepted: Seq<bool>,
)
    requires
        forall|j: int| 0 <= j < keys.len() ==> view.cache.contains_key(#[trigger] keys[j]),
    ensures
        view.after_starts(keys, accepted) == view,
    decreases keys.len(),
{
    if keys.len() > 0 {
        let rest = keys.drop_last();
        assert forall|j: int| 0 <= j < rest.len() implies view.cache.contains_key(
            #[trigger] rest[j],
        ) by {
            assert(rest[j] == keys[j]);
        }
        asking_for_cached_images_does_nothing(view, rest, accepted);
        assert(view.cache.contains_key(keys[keys.len() - 1]));
    }
}

/// While the worker takes requests, warming twice is warming once: the second
/// time sends nothing and changes nothing, whatever was polled in between.
pub proof fn warming_twice_is_warming_once(
    view: RuntimeView,
    keys: Seq<KeyView>,
    accepted: Seq<bool>,
    results: Seq<ResultView>,
    dry: bool,
    again: Seq<bool>,
)
    requires
        view.enabled(),
        view.worker is Some,
        keys.len() <= accepted.len(),
        forall|j: int| 0 <= j < keys.len() ==> #[trigger] accepted[j],
    ensures
        view.after_starts(keys, accepted).after_starts(keys, again) == view.after_starts(
            keys,
            accepted,
        ),
        view.after_starts(keys, accepted).after_poll(results, dry).after_starts(keys, again)
            == view.after_starts(keys, accepted).after_poll(results, dry),
{
    let warmed = view.after_starts(keys, accepted);
    results_keep_the_cached_keys(warmed, results);
    assert forall|j: int| 0 <= j < keys.len() implies warmed.cache.contains_key(#[trigger] keys[j])
        && warmed.after_poll(results, dry).cache.contains_key(keys[j]) by {
        warming_caches_every_image(view, keys, accepted, j);
        assert(warmed.cache.dom().contains(keys[j]));
    }
    asking_for_cached_images_does_nothing(warmed, keys, again);
    asking_for_cached_images_does_nothing(warmed.after_poll(results, dry), keys, again);
}

/// After a clear, warming requests every image anew, once, in the new generation.
pub proof fn a_clear_makes_every_image_new(
    view: RuntimeView,
    keys: Seq<KeyView>,
    accepted: Seq<bool>,
)
    requires
        view.enabled(),
        view.worker is Some,
        keys.len() <= accepted.len(),
        forall|j: int| 0 <= j < keys.len() ==> #[trigger] accepted[j],
    ensures
        view.after_clear().after_starts(keys, accepted).sent() == view.sent() + accepted_requests(
            view.after_clear(),
            new_keys(Map::empty(), keys),
        ),
        view.after_clear().generation == view.generation + 1,
{
    warming_requests_each_new_image_once(view.after_clear(), keys, accepted);
}

/// No build is requested again once the worker took the request, until the next
/// clear.
pub proof fn no_build_is_requested_twice(view: RuntimeView, i: int, j: int)
    requires
        view.inv(),
        0 <= i < j < view.sent().len(),
        view.sent()[i].accepted,
        view.sent()[i].request.generation == view.sent()[j].request.generation,
    ensures
        view.sent()[i].request.key != view.sent()[j].request.key,
{
    assert(view.sent()[j].request != view.sent()[i].request);
}

/// An image that is shown, or reported as failed, is one that the worker
/// reported for this very image since the last clear.
pub proof fn finished_builds_were_reported(view: RuntimeView, key: KeyView) -> (i: int)
    requires
        view.inv(),
        view.cache.contains_key(key),
        !(view.cache[key] is Loading),
    ensures
        0 <= i < view.folded.len(),
        view.folded[i].generation == view.generation,
        view.folded[i].key == key,
        view.cache[key] == state_of(view.folded[i].built),
{
    let i = choose|i: int| view.result_at(key, i);
    assert(view.result_at(key, i));
    i
}

/// An image is reported as loading exactly while its request is outstanding: it
/// was requested, the worker took the request, and no answer has been folded in
/// since.
pub proof fn loading_means_outstanding(view: RuntimeView, key: KeyView)
    requires
        view.inv(),
    ensures
        view.status(key) is Loading <==> view.outstanding(key),
{
    if view.outstanding(key) {
        let i = choose|i: int| #[trigger] view.request_at(key, i) && view.unanswered(key, i);
        assert(view.requested(key));
        assert(view.cache.contains_key(key));
    }
}

/// Once every request that the worker took since the last clear has been
/// answered, and the answers are folded in, nothing is pending.
pub proof fn nothing_is_pending_once_every_answer_is_in(view: RuntimeView)
    requires
        view.inv(),
        view.all_answered(),
    ensures
        !(exists|key: KeyView| #[trigger]
            view.cache.contains_key(key) && view.cache[key] is Loading),
{
    assert forall|key: KeyView| #[trigger] view.cache.contains_key(key) implies !(
    view.cache[key] is Loading) by {
        if view.outstanding(key) {
            let i = choose|i: int| #[trigger] view.request_at(key, i) && view.unanswered(key, i);
            assert(view.sent()[i].accepted);
        }
    }
}

/// The cache holds only builds of the runtime's own backend, if the results
/// folded in are such builds.
pub proof fn the_cache_holds_builds_of_its_backend(view: RuntimeView, key: KeyView)
    requires
        view.inv(),
        forall|i: int|
            0 <= i < view.folded.len() ==> is_build_for(
                view.backend,
                (#[trigger] view.folded[i]).built,
            ),
        view.cache.contains_key(key),
    ensures
        view.cache[key] is ReadyGraphics ==> view.backend is Graphics,
        view.cache[key] is ReadyAscii ==> view.backend is Ascii,
{
    if !(view.cache[key] is Loading) {
        let i = finished_builds_were_reported(view, key);
        assert(is_build_for(view.backend, view.folded[i].built));
    }
}

/// Something that the viewer does with the runtime and that may change it.
pub enum Step {
    /// An image is asked for; the flag is the channel's answer, if it is asked.
    Start(KeyView, bool),
    /// Several images are asked for.
    Warm(Seq<KeyView>, Seq<bool>),
    /// These results are polled; the flag tells whether the channel was then found
    /// to be empty.
    Poll(Seq<ResultView>, bool),
    Clear,
}

/// The runtime after `step`.
pub open spec fn after_step(view: RuntimeView, step: Step) -> RuntimeView {
    match step {
        Step::Start(key, accepted) => view.after_start(key, accepted),
        Step::Warm(keys, accepted) => view.after_starts(keys, accepted),
        Step::Poll(results, dry) => view.after_poll(results, dry),
        Step::Clear => view.after_clear(),
    }
}

/// The runtime after `steps`, in order.
pub open spec fn after_steps(view: RuntimeView, steps: Seq<Step>) -> RuntimeView
    decreases steps.len(),
{
    if steps.len() == 0 {
        view
    } else {
        after_step(after_steps(view, steps.drop_last()), steps.last())
    }
}

/// Every result that is polled in `step` is one that `mode` reports.
pub open spec fn polls_reports_of(step: Step, mode: BuildMode) -> bool {
    match step {
        Step::Poll(results, _) => forall|i: int|
            0 <= i < results.len() ==> mode.reports(#[trigger] results[i]),
        _ => true,
    }
}

/// Nothing is cached without a backend; with graphics there is no ASCII art in the
/// cache, and without there are no graphics.
pub open spec fn keeps_to_its_backend(view: RuntimeView) -> bool {
    &&& !view.enabled() ==> view.cache == Map::<KeyView, CacheState>::empty()
    &&& view.backend is Graphics ==> forall|key: KeyView| #[trigger]
        view.cache.contains_key(key) ==> !(view.cache[key] is ReadyAscii)
    &&& !(view.backend is Graphics) ==> forall|key: KeyView| #[trigger]
        view.cache.contains_key(key) ==> !(view.cache[key] is ReadyGraphics)
}

/// The backend that the runtime settled on stays, and with it whether images can
/// be rendered and whether graphics are used, whatever is done with the runtime.
/// Graphics are used only where images can be rendered.
pub proof fn the_backend_stays(view: RuntimeView, steps: Seq<Step>)
    ensures
        after_steps(view, steps).backend == view.backend,
        after_steps(view, steps).enabled() == view.enabled(),
        after_steps(view, steps).backend is Graphics ==> after_steps(view, steps).enabled(),
    decreases steps.len(),
{
    if steps.len() > 0 {
        the_backend_stays(view, steps.drop_last());
        let before = after_steps(view, steps.drop_last());
        match steps.last() {
            Step::Warm(keys, accepted) => asking_keeps_cached_images(
                before,
                keys,
                accepted,
                arbitrary(),
            ),
            Step::Poll(results, _) => results_keep_the_cached_keys(before, results),
            _ => {},
        }
    }
}

/// A runtime that was set up for what was detected, with a worker that builds in
/// the mode chosen along with the backend, never caches a build of the other
/// backend, whatever is done with it and whatever the worker makes of the images.
pub proof fn a_detected_runtime_keeps_to_its_backend(
    picker: Option<Picker>,
    chosen: (Backend, BuildMode),
    steps: Seq<Step>,
)
    requires
        is_choice(chosen, picker),
        forall|i: int| 0 <= i < steps.len() ==> polls_reports_of(#[trigger] steps[i], chosen.1),
    ensures
        ({
            let view = after_steps(
                RuntimeView::fresh(chosen.0, Some(WorkerView::fresh())),
                steps,
            );
            &&& view.backend == chosen.0
            &&& view.enabled()
            &&& keeps_to_its_backend(view)
        }),
    decreases steps.len(),
{
    let fresh = RuntimeView::fresh(chosen.0, Some(WorkerView::fresh()));
    the_backend_stays(fresh, steps);
    if steps.len() > 0 {
        let rest = steps.drop_last();
        assert forall|i: int| 0 <= i < rest.len() implies polls_reports_of(
            #[trigger] rest[i],
            chosen.1,
        ) by {
            assert(rest[i] == steps[i]);
        }
        a_detected_runtime_keeps_to_its_backend(picker, chosen, rest);
        assert(polls_reports_of(steps[steps.len() - 1], chosen.1));
        lemma_step_keeps_to_the_backend(after_steps(fresh, rest), steps.last(), chosen.1);
    }
}

/// What the worker answers to a request is a report of its mode, whether the build
/// went through, failed, or panicked.
pub proof fn every_answer_is_a_report(
    mode: BuildMode,
    request: BuildRequest,
    decoded: Option<DynamicImage>,
    drawn: Option<AsciiArt>,
    result: BuildResult,
)
    requires
        result.key == request.key,
        result.built is None || mode.builds(request.key, decoded, drawn, result.built),
    ensures
        mode.reports(result@),
{
    if result.built is None {
        assert(mode.builds(request.key, None, None, None));
    }
}

/// A runtime without a worker never caches anything, and never has a backend.
pub proof fn a_runtime_without_a_worker_stays_empty(steps: Seq<Step>)
    ensures
        ({
            let view = after_steps(RuntimeView::fresh(Backend::Disabled, None), steps);
            &&& !view.enabled()
            &&& view.worker is None
            &&& view.cache == Map::<KeyView, CacheState>::empty()
        }),
    decreases steps.len(),
{
    if steps.len() > 0 {
        let rest = steps.drop_last();
        a_runtime_without_a_worker_stays_empty(rest);
        let before = after_steps(RuntimeView::fresh(Backend::Disabled, None), rest);
        match steps.last() {
            Step::Warm(keys, accepted) => asking_in_vain_does_nothing(before, keys, accepted),
            Step::Poll(results, _) => {
                results_keep_the_cached_keys(before, results);
                assert(before.after_results(results).cache =~= before.cache);
            },
            _ => {},
        }
    }
}

proof fn lemma_step_keeps_to_the_backend(view: RuntimeView, step: Step, mode: BuildMode)
    requires
        keeps_to_its_backend(view),
        view.enabled(),
        mode.backend() == view.backend,
        polls_reports_of(step, mode),
    ensures
        keeps_to_its_backend(after_step(view, step)),
{
    match step {
        Step::Warm(keys, accepted) => {
            let after = view.after_starts(keys, accepted);
            assert forall|key: KeyView| #[trigger] after.cache.contains_key(key) implies
                after.cache[key] == view.cache[key] && view.cache.contains_key(key)
                || after.cache[key] is Loading by {
                asking_keeps_cached_images(view, keys, accepted, key);
                if !view.cache.contains_key(key) {
                    only_asked_images_are_added(view, keys, accepted, key);
                }
            }
            asking_keeps_cached_images(view, keys, accepted, arbitrary());
        },
        Step::Poll(results, _) => {
            assert forall|i: int| 0 <= i < results.len() implies is_build_for(
                view.backend,
                (#[trigger] results[i]).built,
            ) by {
                assert(mode.reports(results[i]));
            }
            lemma_results_keep_to_the_backend(view, results);
        },
        _ => {},
    }
}

proof fn lemma_results_keep_to_the_backend(view: RuntimeView, results: Seq<ResultView>)
    requires
        keeps_to_its_backend(view),
        view.enabled(),
        forall|i: int|
            0 <= i < results.len() ==> is_build_for(view.backend, (#[trigger] results[i]).built),
    ensures
        keeps_to_its_backend(view.after_results(results)),
        view.after_results(results).backend == view.backend,
    decreases results.len(),
{
    if results.len() > 0 {
        let rest = results.drop_last();
        assert forall|i: int| 0 <= i < rest.len() implies is_build_for(
            view.backend,
            (#[trigger] rest[i]).built,
        ) by {
            assert(rest[i] == results[i]);
        }
        lemma_results_keep_to_the_backend(view, rest);
        assert(is_build_for(view.backend, results[results.len() - 1].built));
    }
}

/// Whether a build is pending is what the viewer is told: some image is cached
/// as loading exactly when the status of some image is that it loads.
pub proof fn pending_means_that_some_image_loads(view: RuntimeView)
    requires
        view.inv(),
    ensures
        (exists|key: KeyView| #[trigger] view.cache.contains_key(key) && view.cache[key] is Loading)
            <==> (exists|key: KeyView| (#[trigger] view.status(key)) is Loading),
{
    if exists|key: KeyView| #[trigger] view.cache.contains_key(key) && view.cache[key] is Loading {
        let key = choose|key: KeyView| #[trigger]
            view.cache.contains_key(key) && view.cache[key] is Loading;
        assert(view.status(key) is Loading);
    }
    if exists|key: KeyView| (#[trigger] view.status(key)) is Loading {
        let key = choose|key: KeyView| (#[trigger] view.status(key)) is Loading;
        assert(view.cache.contains_key(key));
    }
}

/// An image is painted exactly when its status is that it is ready and the
/// corner of the centered image has coordinates; in an area whose cells all have
/// coordinates, exactly when it is ready.
pub proof fn an_image_is_painted_exactly_when_ready(
    view: RuntimeView,
    plan: RenderPlan<'_>,
    area: Rect,
    key: KeyView,
)
    requires
        view.inv(),
        is_plan(plan, view, area, key),
    ensures
        plan is Graphics || plan is Ascii <==> view.status(key) is Ready && origin_representable(
            area,
            content_size(view.cache[key]),
        ),
        area.x + area.width <= u16::MAX && area.y + area.height <= u16::MAX ==> (plan is Graphics
            || plan is Ascii <==> view.status(key) is Ready),
{
}

/// An encoded image that fits the cells it was built for is painted whole in an
/// area of that size, so that the image widget does not skip it.
pub proof fn an_encoded_image_is_painted_whole(
    view: RuntimeView,
    plan: RenderPlan<'_>,
    area: Rect,
    key: CacheKey,
)
    requires
        is_plan(plan, view, area, key@),
        build_bounds(key) == (Size { width: area.width, height: area.height }),
        view.cache.contains_key(key@),
        view.cache[key@] matches CacheState::ReadyGraphics(built) && protocol_size(built).width
            <= build_bounds(key).width && protocol_size(built).height <= build_bounds(key).height,
    ensures
        plan matches RenderPlan::Graphics { protocol, rect } ==> {
            &&& rect.width == protocol_size(*protocol).width
            &&& rect.height == protocol_size(*protocol).height
        },
        area.x + area.width <= u16::MAX && area.y + area.height <= u16::MAX ==> plan is Graphics,
{
}

/// Detection always settles on a backend, and the preference for iTerm2's own
/// protocol does not change which.
pub proof fn detection_always_enables_a_backend(
    protocol: Option<ProtocolType>,
    host_is_iterm2: bool,
)
    ensures
        !(backend_for(protocol) is Disabled),
        protocol matches Some(p) ==> backend_for(Some(preferred_protocol(p, host_is_iterm2)))
            == backend_for(protocol),
{
}

} // verus!
