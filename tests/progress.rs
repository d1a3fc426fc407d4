use edgequake_pdf2md::progress::{ConversionProgressCallback, NoopProgressCallback};
use std::sync::atomic::{AtomicUsize, Ordering};
use std::sync::{Arc, Mutex};

struct TrackingCallback {
    starts: Arc<AtomicUsize>,
    completes: Arc<AtomicUsize>,
    errors: Arc<AtomicUsize>,
    started_total: Arc<AtomicUsize>,
    completed_total: Arc<AtomicUsize>,
}

impl ConversionProgressCallback for TrackingCallback {
    fn on_conversion_start(&self, total_pages: usize) {
        self.started_total.store(total_pages, Ordering::SeqCst);
    }

    fn on_page_start(&self, _page_num: usize, _total_pages: usize) {
        self.starts.fetch_add(1, Ordering::SeqCst);
    }

    fn on_page_complete(&self, _page_num: usize, _total_pages: usize, _markdown_len: usize) {
        self.completes.fetch_add(1, Ordering::SeqCst);
    }

    fn on_page_error(&self, _page_num: usize, _total_pages: usize, _error: String) {
        self.errors.fetch_add(1, Ordering::SeqCst);
    }

    fn on_conversion_complete(&self, _total_pages: usize, success_count: usize) {
        self.completed_total.store(success_count, Ordering::SeqCst);
    }
}

#[test]
fn noop_callback_does_not_panic() {
    let cb = NoopProgressCallback;
    cb.on_conversion_start(5);
    cb.on_page_start(1, 5);
    cb.on_page_complete(1, 5, 42);
    cb.on_page_error(2, 5, "some error".to_string());
    cb.on_conversion_complete(5, 4);
}

#[test]
fn tracking_callback_receives_events() {
    let tracker = TrackingCallback {
        starts: Arc::new(AtomicUsize::new(0)),
        completes: Arc::new(AtomicUsize::new(0)),
        errors: Arc::new(AtomicUsize::new(0)),
        started_total: Arc::new(AtomicUsize::new(0)),
        completed_total: Arc::new(AtomicUsize::new(0)),
    };

    tracker.on_conversion_start(3);
    assert_eq!(tracker.started_total.load(Ordering::SeqCst), 3);

    tracker.on_page_start(1, 3);
    tracker.on_page_complete(1, 3, 100);
    tracker.on_page_start(2, 3);
    tracker.on_page_complete(2, 3, 200);
    tracker.on_page_start(3, 3);
    tracker.on_page_error(3, 3, "VLM timeout".to_string());

    assert_eq!(tracker.starts.load(Ordering::SeqCst), 3);
    assert_eq!(tracker.completes.load(Ordering::SeqCst), 2);
    assert_eq!(tracker.errors.load(Ordering::SeqCst), 1);

    tracker.on_conversion_complete(3, 2);
    assert_eq!(tracker.completed_total.load(Ordering::SeqCst), 2);
}

#[test]
fn arc_dyn_callback_works() {
    let cb: Arc<dyn ConversionProgressCallback> = Arc::new(NoopProgressCallback);
    cb.on_conversion_start(10);
    cb.on_page_start(1, 10);
    cb.on_page_complete(1, 10, 512);
}

#[test]
fn on_page_error_receives_owned_string() {
    struct ErrorCapture {
        captured: Arc<Mutex<Option<String>>>,
    }

    impl ConversionProgressCallback for ErrorCapture {
        fn on_page_error(&self, _p: usize, _t: usize, error: String) {
            *self.captured.lock().unwrap() = Some(error);
        }
    }

    let capture = ErrorCapture {
        captured: Arc::new(Mutex::new(None)),
    };

    let long_error = "x".repeat(200);
    capture.on_page_error(3, 10, long_error.clone());

    let got = capture.captured.lock().unwrap().clone().unwrap();
    assert_eq!(got, long_error, "Full error string should be forwarded");
}

#[test]
fn test_noop_callback_is_send_sync() {
    fn assert_send_sync<T: Send + Sync>() {}
    assert_send_sync::<NoopProgressCallback>();

    let cb: Arc<dyn ConversionProgressCallback> = Arc::new(NoopProgressCallback);
    cb.on_page_error(1, 1, "an error".to_string());
}

#[test]
fn on_page_error_is_send_when_used_in_spawn() {
    struct StringCollector {
        errors: Arc<Mutex<Vec<String>>>,
    }

    impl ConversionProgressCallback for StringCollector {
        fn on_page_error(&self, _page_num: usize, _total_pages: usize, error: String) {
            self.errors.lock().unwrap().push(error);
        }
    }

    let collector = Arc::new(StringCollector {
        errors: Arc::new(Mutex::new(Vec::new())),
    });
    let cb: Arc<dyn ConversionProgressCallback> =
        Arc::clone(&collector) as Arc<dyn ConversionProgressCallback>;

    let rt = tokio::runtime::Runtime::new().unwrap();
    rt.block_on(async move {
        tokio::spawn(async move {
            cb.on_page_error(1, 5, "error from spawn".to_string());
        })
        .await
        .unwrap();
    });

    let errors = collector.errors.lock().unwrap();
    assert_eq!(errors.len(), 1);
    assert_eq!(errors[0], "error from spawn");
}

#[test]
fn test_callback_send_in_tokio_spawn() {
    struct ErrorLogger {
        log: Arc<Mutex<Vec<String>>>,
    }

    impl ConversionProgressCallback for ErrorLogger {
        fn on_page_error(&self, _page: usize, _total: usize, error: String) {
            self.log.lock().unwrap().push(error);
        }
    }

    let logger = Arc::new(ErrorLogger {
        log: Arc::new(Mutex::new(vec![])),
    });
    let log_ref = Arc::clone(&logger.log);
    let cb: Arc<dyn ConversionProgressCallback> =
        Arc::clone(&logger) as Arc<dyn ConversionProgressCallback>;

    let rt = tokio::runtime::Runtime::new().unwrap();
    rt.block_on(async move {
        tokio::spawn(async move {
            cb.on_page_error(2, 5, "timeout after 3 retries".to_string());
        })
        .await
        .expect("spawn must succeed");
    });

    let captured = log_ref.lock().unwrap().clone();
    assert_eq!(captured, vec!["timeout after 3 retries"]);
}
