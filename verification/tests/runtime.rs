use std::path::PathBuf;
use std::sync::mpsc::{channel, Receiver, Sender};

use image::DynamicImage;
use notema_image::cache::{AsciiArt, Cache, CacheState};
use notema_image::geometry::{Rect, Size};
use notema_image::graphics::build_protocol;
use notema_image::key::{CacheKey, ImageAsset};
use notema_image::runtime::{choose_backend, Backend, ImageRuntime, ImageStatus, RenderPlan};
use notema_image::worker::{BuildRequest, BuildResult, Built, Worker};
use ratatui::text::Text;
use ratatui_image::picker::{Picker, ProtocolType};

const SIZE: Size = Size { width: 20, height: 10 };
const AREA: Rect = Rect { x: 3, y: 4, width: 20, height: 10 };

struct Ends {
    requests: Receiver<BuildRequest>,
    results: Sender<BuildResult>,
}

fn runtime(backend: Backend) -> (ImageRuntime, Ends) {
    let (request_tx, request_rx) = channel();
    let (result_tx, result_rx) = channel();
    let runtime = ImageRuntime::new(backend, Some(Worker::new(request_tx, result_rx)));
    (runtime, Ends { requests: request_rx, results: result_tx })
}

fn asset(file: &str) -> ImageAsset {
    ImageAsset {
        entry_path: PathBuf::from("2024/entry.md"),
        file_name: file.to_string(),
    }
}

fn art(cols: u16, rows: u16) -> Option<Built> {
    Some(Built::Ascii(AsciiArt { cols, rows, text: Text::raw("art") }))
}

/// An encoded image of 10 by 5 cells.
fn encoded() -> Option<Built> {
    let key = CacheKey::new(&asset("a"), SIZE);
    let image = DynamicImage::new_rgb8(100, 100);
    build_protocol(&Picker::halfblocks(), Some(image), &key).map(Built::Graphics)
}

fn status(runtime: &ImageRuntime, file: &str) -> ImageStatus {
    runtime.status(&asset(file), SIZE)
}

#[test]
fn default_runtime_shows_nothing() {
    let mut runtime = ImageRuntime::default();
    assert!(!runtime.enabled());
    assert!(!runtime.uses_graphics());
    runtime.warm(&[asset("a")], SIZE);
    assert!(!runtime.has_pending());
    assert!(!runtime.poll_results());
    assert_eq!(status(&runtime, "a"), ImageStatus::Unavailable);
    assert!(runtime.start_request(&asset("a"), SIZE).is_none());
    assert!(matches!(runtime.render(AREA, &asset("a")), RenderPlan::Nothing));
}

#[test]
fn backends_are_reported() {
    let (graphics, _ends) = runtime(Backend::Graphics);
    assert!(graphics.enabled() && graphics.uses_graphics());
    let (ascii, _ends) = runtime(Backend::Ascii);
    assert!(ascii.enabled() && !ascii.uses_graphics());
    let (disabled, _ends) = runtime(Backend::Disabled);
    assert!(!disabled.enabled() && !disabled.uses_graphics());
}

#[test]
fn a_disabled_runtime_requests_nothing() {
    let (mut runtime, ends) = runtime(Backend::Disabled);
    runtime.warm(&[asset("a")], SIZE);
    assert!(ends.requests.try_recv().is_err());
    assert!(!runtime.has_pending());
}

#[test]
fn warming_requests_each_image_once_in_order() {
    let (mut runtime, ends) = runtime(Backend::Ascii);
    runtime.warm(&[asset("a"), asset("b"), asset("a")], SIZE);
    runtime.warm(&[asset("b")], SIZE);
    let requests: Vec<BuildRequest> = ends.requests.try_iter().collect();
    assert_eq!(requests.len(), 2);
    assert_eq!(requests[0].key.file_name, "a");
    assert_eq!(requests[1].key.file_name, "b");
    for request in &requests {
        assert_eq!(request.generation, 0);
        assert_eq!(request.key.entry_path, PathBuf::from("2024/entry.md"));
        assert_eq!((request.key.width, request.key.height), (20, 10));
    }
    assert!(runtime.has_pending());
    assert_eq!(status(&runtime, "a"), ImageStatus::Loading);
    assert_eq!(status(&runtime, "b"), ImageStatus::Loading);
    assert_eq!(status(&runtime, "c"), ImageStatus::Unavailable);
}

#[test]
fn each_size_is_an_image_of_its_own() {
    let (mut runtime, ends) = runtime(Backend::Ascii);
    let resized = Size { width: 21, height: 10 };
    runtime.warm(&[asset("a")], SIZE);
    assert_eq!(runtime.status(&asset("a"), resized), ImageStatus::Unavailable);
    runtime.warm(&[asset("a")], resized);
    assert_eq!(ends.requests.try_iter().count(), 2);
    assert_eq!(runtime.status(&asset("a"), resized), ImageStatus::Loading);
}

#[test]
fn a_worker_that_is_gone_leaves_no_image_loading() {
    let (mut runtime, ends) = runtime(Backend::Ascii);
    drop(ends);
    runtime.warm(&[asset("a")], SIZE);
    assert!(!runtime.has_pending());
    assert_eq!(status(&runtime, "a"), ImageStatus::Unavailable);
    assert!(runtime.start_request(&asset("a"), SIZE).is_some());
    assert!(!runtime.poll_results());
}

#[test]
fn starting_follows_the_answer_of_the_channel() {
    let key = CacheKey::new(&asset("a"), SIZE);
    let mut cache = Cache::new();
    cache.note_request(key.clone(), false);
    assert!(!cache.contains_key(&key));
    cache.note_request(key.clone(), true);
    assert!(matches!(cache.get(&key), Some(CacheState::Loading)));
}

#[test]
fn starting_twice_sends_one_request() {
    let (mut runtime, ends) = runtime(Backend::Ascii);
    for _ in 0..3 {
        runtime.clear();
    }
    let image = ImageAsset {
        entry_path: PathBuf::from("e.md"),
        file_name: "a.png".to_string(),
    };
    let area = Size { width: 0, height: 9 };
    runtime.start(&image, area);
    runtime.start(&image, area);
    let request = ends.requests.try_recv().unwrap();
    assert_eq!(request.generation, 3);
    assert_eq!(request.key.entry_path, PathBuf::from("e.md"));
    assert_eq!(request.key.file_name, "a.png");
    assert_eq!((request.key.width, request.key.height), (1, 9));
    assert!(ends.requests.try_recv().is_err());
    assert_eq!(runtime.status(&image, area), ImageStatus::Loading);
    assert!(runtime.start_request(&image, area).is_none());
}

#[test]
fn without_a_worker_no_backend_is_active() {
    let mut runtime = ImageRuntime::new(Backend::Graphics, None);
    assert!(!runtime.enabled());
    assert!(!runtime.uses_graphics());
    runtime.warm(&[asset("a")], SIZE);
    assert_eq!(status(&runtime, "a"), ImageStatus::Unavailable);
    assert!(!runtime.poll_results());
}

#[test]
fn results_that_wait_at_the_start_are_kept() {
    let (request_tx, _request_rx) = channel();
    let (result_tx, result_rx) = channel();
    let key = CacheKey::new(&asset("a"), SIZE);
    result_tx.send(BuildResult { generation: 0, key, built: art(2, 2) }).unwrap();
    let worker = Worker::new(request_tx, result_rx);
    let mut runtime = ImageRuntime::new(Backend::Ascii, Some(worker));
    runtime.start(&asset("a"), SIZE);
    assert!(runtime.poll_results());
    assert_eq!(status(&runtime, "a"), ImageStatus::Ready);
}

#[test]
fn a_runtime_caches_builds_of_its_own_backend() {
    let mut kitty = Picker::halfblocks();
    kitty.set_protocol_type(ProtocolType::Kitty);
    for picker in [Some(kitty), Some(Picker::halfblocks()), None] {
        let (backend, mode) = choose_backend(picker);
        let (mut runtime, ends) = runtime(backend);
        for _ in 0..2 {
            runtime.warm(&[asset("a"), asset("b")], SIZE);
            for request in ends.requests.try_iter() {
                let decoded = Some(DynamicImage::new_rgb8(100, 100));
                let drawn = Some(AsciiArt { cols: 4, rows: 2, text: Text::raw("art") });
                let built = mode.build(&request.key, decoded, drawn);
                ends.results.send(request.answer(built)).unwrap();
            }
            assert!(runtime.poll_results());
            assert_eq!(runtime.uses_graphics(), backend == Backend::Graphics);
            assert!(runtime.enabled());
            for file in ["a", "b"] {
                match runtime.render(AREA, &asset(file)) {
                    RenderPlan::Graphics { .. } => assert!(runtime.uses_graphics()),
                    RenderPlan::Ascii { .. } => assert!(!runtime.uses_graphics()),
                    _ => panic!("the image is ready"),
                }
            }
            runtime.clear();
        }
    }
}

#[test]
fn asking_and_painting_leave_the_channels_alone() {
    let (mut runtime, ends) = runtime(Backend::Ascii);
    runtime.warm(&[asset("a")], SIZE);
    let request = ends.requests.try_recv().unwrap();
    ends.results.send(request.answer(art(4, 3))).unwrap();
    assert_eq!(status(&runtime, "a"), ImageStatus::Loading);
    assert_eq!(status(&runtime, "b"), ImageStatus::Unavailable);
    assert!(matches!(runtime.render(AREA, &asset("a")), RenderPlan::Nothing));
    assert!(ends.requests.try_recv().is_err());
    assert!(runtime.poll_results());
    assert_eq!(status(&runtime, "a"), ImageStatus::Ready);
}

#[test]
fn nothing_is_pending_once_every_answer_is_in() {
    let (mut runtime, ends) = runtime(Backend::Ascii);
    runtime.warm(&[asset("a"), asset("b")], SIZE);
    let requests: Vec<BuildRequest> = ends.requests.try_iter().collect();
    for request in requests {
        assert!(runtime.has_pending());
        ends.results.send(request.answer(None)).unwrap();
        assert!(runtime.poll_results());
    }
    assert!(!runtime.has_pending());
}

#[test]
fn a_clear_makes_every_image_new() {
    let (mut runtime, ends) = runtime(Backend::Ascii);
    runtime.warm(&[asset("a"), asset("b"), asset("a")], SIZE);
    assert_eq!(ends.requests.try_iter().count(), 2);
    runtime.clear();
    runtime.warm(&[asset("b"), asset("a"), asset("b")], SIZE);
    let requests: Vec<BuildRequest> = ends.requests.try_iter().collect();
    assert_eq!(requests.len(), 2);
    assert_eq!((requests[0].generation, requests[0].key.file_name.as_str()), (1, "b"));
    assert_eq!((requests[1].generation, requests[1].key.file_name.as_str()), (1, "a"));
}

#[test]
fn warming_again_after_polling_sends_nothing() {
    let (mut runtime, ends) = runtime(Backend::Ascii);
    runtime.warm(&[asset("a"), asset("b")], SIZE);
    let request = ends.requests.try_recv().unwrap();
    assert_eq!(ends.requests.try_iter().count(), 1);
    ends.results.send(request.answer(art(4, 3))).unwrap();
    assert!(runtime.poll_results());
    runtime.warm(&[asset("a"), asset("b")], SIZE);
    assert!(ends.requests.try_recv().is_err());
    assert_eq!(status(&runtime, "a"), ImageStatus::Ready);
    assert_eq!(status(&runtime, "b"), ImageStatus::Loading);
}

#[test]
fn answers_echo_their_request() {
    let key = CacheKey::new(&asset("a"), SIZE);
    let request = BuildRequest { generation: 7, key: key.clone() };
    let result = request.answer(None);
    assert_eq!(result.generation, 7);
    assert!(result.key.same_as(&key));
    assert!(result.built.is_none());
}

#[test]
fn results_are_folded_into_the_cache() {
    let (mut runtime, ends) = runtime(Backend::Graphics);
    runtime.warm(&[asset("a"), asset("b"), asset("c")], SIZE);
    let mut built = vec![None, art(4, 3), encoded()];
    for request in ends.requests.try_iter() {
        ends.results.send(request.answer(built.pop().unwrap())).unwrap();
    }
    assert!(runtime.has_pending());
    assert!(runtime.poll_results());
    assert!(!runtime.has_pending());
    assert!(!runtime.poll_results());
    assert_eq!(status(&runtime, "a"), ImageStatus::Ready);
    assert_eq!(status(&runtime, "b"), ImageStatus::Ready);
    assert_eq!(status(&runtime, "c"), ImageStatus::Unavailable);
    assert!(matches!(runtime.render(AREA, &asset("a")), RenderPlan::Graphics { .. }));
    assert!(matches!(runtime.render(AREA, &asset("b")), RenderPlan::Ascii { .. }));
    assert!(matches!(runtime.render(AREA, &asset("c")), RenderPlan::Nothing));
}

#[test]
fn results_for_unknown_images_are_dropped() {
    let (mut runtime, ends) = runtime(Backend::Ascii);
    let key = CacheKey::new(&asset("a"), SIZE);
    ends.results.send(BuildResult { generation: 0, key, built: art(4, 3) }).unwrap();
    assert!(!runtime.poll_results());
    assert_eq!(status(&runtime, "a"), ImageStatus::Unavailable);
}

#[test]
fn builds_in_flight_at_a_clear_are_dropped() {
    let (mut runtime, ends) = runtime(Backend::Ascii);
    runtime.warm(&[asset("a")], SIZE);
    let stale = ends.requests.try_recv().unwrap();
    runtime.clear();
    assert!(!runtime.has_pending());
    runtime.warm(&[asset("a")], SIZE);
    let fresh = ends.requests.try_recv().unwrap();
    assert_eq!((stale.generation, fresh.generation), (0, 1));
    assert_eq!(runtime.generation(), 1);

    ends.results.send(stale.answer(art(4, 3))).unwrap();
    assert!(!runtime.poll_results());
    assert_eq!(status(&runtime, "a"), ImageStatus::Loading);

    ends.results.send(fresh.answer(art(4, 3))).unwrap();
    assert!(runtime.poll_results());
    assert_eq!(status(&runtime, "a"), ImageStatus::Ready);
}

#[test]
fn results_of_a_coming_generation_are_dropped() {
    let (mut runtime, _ends) = runtime(Backend::Ascii);
    runtime.warm(&[asset("a")], SIZE);
    let key = CacheKey::new(&asset("a"), SIZE);
    assert!(!runtime.fold_result(BuildResult { generation: 1, key, built: art(4, 3) }));
    assert_eq!(status(&runtime, "a"), ImageStatus::Loading);
}

#[test]
fn clear_forgets_every_build() {
    let (mut runtime, ends) = runtime(Backend::Ascii);
    runtime.warm(&[asset("a")], SIZE);
    let request = ends.requests.try_recv().unwrap();
    assert!(runtime.fold_result(request.answer(art(4, 3))));
    assert_eq!(status(&runtime, "a"), ImageStatus::Ready);
    runtime.clear();
    assert_eq!(status(&runtime, "a"), ImageStatus::Unavailable);
    assert!(matches!(runtime.render(AREA, &asset("a")), RenderPlan::Nothing));
    assert!(runtime.start_request(&asset("a"), SIZE).is_some());
}

#[test]
fn the_last_of_several_results_decides() {
    let (mut runtime, ends) = runtime(Backend::Ascii);
    runtime.warm(&[asset("a"), asset("b")], SIZE);
    let key = CacheKey::new(&asset("a"), SIZE);
    for built in [art(4, 3), None, art(5, 2)] {
        ends.results
            .send(BuildResult { generation: 0, key: key.clone(), built })
            .unwrap();
    }
    assert!(runtime.poll_results());
    match runtime.render(AREA, &asset("a")) {
        RenderPlan::Ascii { art, .. } => assert_eq!((art.cols, art.rows), (5, 2)),
        _ => panic!("the last result is painted"),
    }
    assert_eq!(status(&runtime, "b"), ImageStatus::Loading);
}

#[test]
fn finished_builds_are_not_requested_again() {
    let (mut runtime, ends) = runtime(Backend::Ascii);
    runtime.warm(&[asset("a"), asset("b")], SIZE);
    let requests: Vec<BuildRequest> = ends.requests.try_iter().collect();
    for request in requests {
        let built = if request.key.file_name == "a" { art(4, 3) } else { None };
        assert!(runtime.fold_result(request.answer(built)));
    }
    runtime.warm(&[asset("a"), asset("b")], SIZE);
    assert!(ends.requests.try_recv().is_err());
    assert_eq!(status(&runtime, "a"), ImageStatus::Ready);
    assert_eq!(status(&runtime, "b"), ImageStatus::Unavailable);
}

#[test]
fn encoded_images_are_painted_whole_and_centered() {
    let (mut runtime, ends) = runtime(Backend::Graphics);
    runtime.warm(&[asset("a")], SIZE);
    let request = ends.requests.try_recv().unwrap();
    assert!(runtime.fold_result(request.answer(encoded())));
    match runtime.render(AREA, &asset("a")) {
        RenderPlan::Graphics { protocol, rect } => {
            assert_eq!(rect, Rect { x: 8, y: 6, width: 10, height: 5 });
            assert_eq!((protocol.size().width, protocol.size().height), (10, 5));
        }
        _ => panic!("the encoded image is painted"),
    }
}

#[test]
fn ascii_art_is_centered() {
    let (mut runtime, ends) = runtime(Backend::Ascii);
    runtime.warm(&[asset("a")], SIZE);
    let request = ends.requests.try_recv().unwrap();
    assert!(runtime.fold_result(request.answer(art(7, 10))));
    match runtime.render(AREA, &asset("a")) {
        RenderPlan::Ascii { rect, .. } => {
            assert_eq!(rect, Rect { x: 9, y: 4, width: 7, height: 10 })
        }
        _ => panic!("the art is painted"),
    }
}

#[test]
fn images_are_painted_at_their_own_size_only() {
    let (mut runtime, ends) = runtime(Backend::Ascii);
    runtime.warm(&[asset("a")], SIZE);
    let request = ends.requests.try_recv().unwrap();
    assert!(runtime.fold_result(request.answer(art(7, 10))));
    let smaller = Rect { width: 19, ..AREA };
    assert!(matches!(runtime.render(smaller, &asset("a")), RenderPlan::Nothing));
}

#[test]
fn an_area_out_of_range_is_reported() {
    let (mut runtime, ends) = runtime(Backend::Ascii);
    runtime.warm(&[asset("a")], SIZE);
    let request = ends.requests.try_recv().unwrap();
    assert!(runtime.fold_result(request.answer(art(2, 10))));
    let far = Rect { x: 65530, ..AREA };
    assert!(matches!(runtime.render(far, &asset("a")), RenderPlan::OutOfRange));
    let near = Rect { x: 65526, ..AREA };
    assert!(matches!(runtime.render(near, &asset("a")), RenderPlan::Ascii { .. }));
}

#[test]
fn worker_handle_sends_and_receives() {
    let (request_tx, request_rx) = channel();
    let (result_tx, result_rx) = channel();
    let mut worker = Worker::new(request_tx, result_rx);
    assert!(worker.try_recv().is_none());
    let key = CacheKey::new(&asset("a"), SIZE);
    assert!(worker.send(BuildRequest { generation: 3, key }));
    let request: BuildRequest = request_rx.recv().unwrap();
    assert_eq!(request.generation, 3);
    result_tx.send(request.answer(None)).unwrap();
    assert_eq!(worker.try_recv().unwrap().generation, 3);
    let mut worker = worker.renewed();
    assert!(worker.try_recv().is_none());
    drop(request_rx);
    let key = CacheKey::new(&asset("a"), SIZE);
    assert!(!worker.send(BuildRequest { generation: 3, key }));
}
