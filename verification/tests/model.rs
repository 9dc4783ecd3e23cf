use diktovani::error::AppError;
use diktovani::model::{partial_file_name, FetchOutcome, FetchStep, ModelFetch, ModelManager};
use diktovani::paths::same_path;
use diktovani::progress::{
    download_detail_text, emit_download_progress, format_download_progress, format_eta, ChunkStep,
    ModelDownload,
};

const SECOND: u128 = 1_000_000_000;

#[test]
fn a_model_is_loaded_once() {
    let mut manager = ModelManager::new(0);
    assert!(!manager.is_loaded());
    assert!(manager.prepare_load("/a"));
    assert!(manager.get_or_load_whisper("/a", Ok(()), 1).unwrap());
    assert!(manager.is_loaded());
    assert!(!manager.prepare_load("/a"));
    assert!(!manager.get_or_load_whisper("/a", Err("unused"), 2).unwrap());
}

#[test]
fn a_model_that_is_ready_is_in_memory() {
    let mut manager = ModelManager::new(0);
    assert_eq!(manager.preload_whisper("/a", Ok(()), 0).unwrap(), "Model ready.");
    assert!(manager.is_loaded());
    let error = manager.preload_whisper("/b", Err("gone"), 0).unwrap_err();
    assert_eq!(error.text(), "Failed to load Whisper model: gone");
    assert!(!manager.is_loaded());
}

#[test]
fn another_model_takes_its_place() {
    let mut manager = ModelManager::new(0);
    manager.get_or_load_whisper("/a", Ok(()), 0).unwrap();
    assert!(manager.prepare_load("/b"));
    assert!(!manager.is_loaded());
    let error = manager.get_or_load_whisper("/b", Err("bad file"), 0).unwrap_err();
    assert_eq!(error.text(), "Failed to load Whisper model: bad file");
    assert!(!manager.is_loaded());
    assert_eq!(manager.preload_whisper("/b", Ok(()), 0).unwrap(), "Model ready.");
    assert!(!manager.prepare_load("/b"));
}

#[test]
fn paths_are_compared_part_by_part() {
    let texts = [
        "", ".", "./", "/", "//", "/a/b", "/a//b", "/a/./b/", "/a/b/.", "a/b", "./a/b", "a/./b",
        "a", "/a", "..", "../a", "/..", "/./a", ".a", "a.", "./.", "a/..", "/A/b",
    ];
    for a in texts {
        for b in texts {
            let same = std::path::Path::new(a) == std::path::Path::new(b);
            assert_eq!(same_path(a, b), same, "{a} {b}");
        }
    }
    let mut manager = ModelManager::new(0);
    manager.get_or_load_whisper("/a/b", Ok(()), 0).unwrap();
    assert!(!manager.prepare_load("/a//b"));
    assert!(manager.is_loaded());
    assert!(manager.prepare_load("/a/c"));
}

#[test]
fn an_idle_model_is_dropped() {
    let mut manager = ModelManager::new(0);
    manager.get_or_load_whisper("/a", Ok(()), 10 * SECOND).unwrap();
    assert!(!manager.unload_if_idle(310 * SECOND));
    assert!(!manager.unload_if_idle(0));
    assert!(manager.is_loaded());
    assert!(manager.unload_if_idle(310 * SECOND + 1));
    assert!(!manager.is_loaded());
    assert!(!manager.unload_if_idle(900 * SECOND));
}

fn go(fetch: ModelFetch, outcome: FetchOutcome) -> (ModelFetch, Option<String>) {
    match fetch.ensure_model_available(outcome) {
        Ok(next) => next,
        Err(e) => panic!("{}", e.text()),
    }
}

fn downloading() -> (ModelFetch, Option<String>) {
    let (fetch, status) = go(ModelFetch::new(), FetchOutcome::Failed("missing".to_string()));
    assert_eq!(fetch.step(), FetchStep::CreateDirectory);
    assert!(status.is_none());
    let (fetch, _) = go(fetch, FetchOutcome::Done);
    assert_eq!(fetch.step(), FetchStep::RemoveStalePartial);
    go(fetch, FetchOutcome::Done)
}

#[test]
fn a_cached_model_is_used() {
    let (fetch, status) = go(ModelFetch::new(), FetchOutcome::Size(5));
    assert_eq!(fetch.step(), FetchStep::Ready);
    assert!(status.is_none());
    let (fetch, _) = go(ModelFetch::new(), FetchOutcome::Size(0));
    assert_eq!(fetch.step(), FetchStep::CreateDirectory);
}

#[test]
fn a_finished_download_is_kept() {
    let (fetch, status) = downloading();
    assert_eq!(fetch.step(), FetchStep::Download);
    assert_eq!(status.unwrap(), "Downloading model: 0% · ETA --");
    let (fetch, status) = go(fetch, FetchOutcome::Done);
    assert_eq!(fetch.step(), FetchStep::Rename);
    assert!(status.is_none());
    let (fetch, status) = go(fetch, FetchOutcome::Done);
    assert_eq!(fetch.step(), FetchStep::Ready);
    assert_eq!(status.unwrap(), "Model download complete.");
    assert_eq!(partial_file_name(), "ggml-large-v3-turbo.bin.partial");
}

#[test]
fn a_broken_download_is_dropped() {
    let (fetch, _) = downloading();
    let broken = AppError::Message("gone".to_string());
    let (fetch, status) = go(fetch, FetchOutcome::Broken(broken));
    assert_eq!(fetch.step(), FetchStep::DropPartial);
    assert!(status.is_none());
    match fetch.ensure_model_available(FetchOutcome::Failed("ignored".to_string())) {
        Ok(_) => panic!("an error was expected"),
        Err(e) => assert_eq!(e.text(), "gone"),
    }
}

#[test]
fn the_file_system_may_refuse() {
    let (fetch, _) = go(ModelFetch::new(), FetchOutcome::Size(0));
    let failed = || FetchOutcome::Failed("no".to_string());
    match fetch.ensure_model_available(failed()) {
        Ok(_) => panic!("an error was expected"),
        Err(e) => assert_eq!(e.text(), "IO error: no"),
    }
    let (fetch, _) = downloading();
    let (fetch, _) = go(fetch, FetchOutcome::Done);
    match fetch.ensure_model_available(failed()) {
        Ok(_) => panic!("an error was expected"),
        Err(e) => assert_eq!(e.text(), "IO error: no"),
    }
}

#[test]
fn remaining_times_are_shown() {
    assert_eq!(format_eta(0), "0s");
    assert_eq!(format_eta(59), "59s");
    assert_eq!(format_eta(60), "1:00");
    assert_eq!(format_eta(90), "1:30");
    assert_eq!(format_eta(3725), "62:05");
}

#[test]
fn download_status_texts() {
    assert_eq!(
        format_download_progress(50, Some(100), 50, 61, "0.0"),
        "Downloading model: 50% · ETA 1:01"
    );
    assert_eq!(
        format_download_progress(0, Some(100), 0, 0, "0.0"),
        "Downloading model: 0% · ETA --"
    );
    assert_eq!(format_download_progress(5, None, 0, 0, "12.3"), "Downloading model: 12.3 MB");
    assert_eq!(format_download_progress(5, Some(0), 0, 0, "0.1"), "Downloading model: 0.1 MB");
}

#[test]
fn download_details() {
    let known = emit_download_progress(45, Some(100), 45, 90, 0);
    assert_eq!((known.percent, known.eta), (Some(45), Some(90)));
    assert_eq!(download_detail_text(&known), "45 % · zbývá 1:30");
    let early = emit_download_progress(0, Some(100), 0, 7, 0);
    assert_eq!((early.percent, early.eta), (Some(0), None));
    assert_eq!(download_detail_text(&early), "0 %");
    let unknown = emit_download_progress(125_829_120, None, 3, 7, 120);
    assert_eq!((unknown.percent, unknown.eta), (None, None));
    assert_eq!(unknown.downloaded_bytes, 125_829_120);
    assert_eq!(download_detail_text(&unknown), "120 MB staženo");
}

#[test]
fn downloads_are_counted() {
    let mut download = ModelDownload::start(Ok(Some("1000"))).unwrap();
    assert_eq!(download.total_bytes, Some(1000));
    assert_eq!(download.chunk(400, 249_999_999), ChunkStep::Write);
    assert_eq!(download.chunk(300, 250_000_000), ChunkStep::WriteAndReport);
    assert_eq!(download.chunk(0, 900_000_000), ChunkStep::Finish);
    assert_eq!(download.downloaded, 700);
    assert_eq!(ModelDownload::start(Ok(Some("many"))).unwrap().total_bytes, None);
    assert_eq!(ModelDownload::start(Ok(None)).unwrap().total_bytes, None);
    assert_eq!(
        ModelDownload::start(Err("offline")).unwrap_err().text(),
        "Model download request failed: offline"
    );
}
