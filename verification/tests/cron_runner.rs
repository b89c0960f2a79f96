use crawl_session::cron::Cron;
use crawl_session::website::Website;
use spider::tokio::runtime::Builder;
use std::sync::atomic::AtomicBool;
use std::sync::atomic::Ordering;
use std::sync::Arc;

struct Raised(Arc<AtomicBool>);

impl Drop for Raised {
    fn drop(&mut self) {
        self.0.store(true, Ordering::SeqCst);
    }
}

#[test]
fn a_runner_without_listener() {
    let mut cron = Cron::new(None);
    assert!(!cron.listening());
    assert!(!cron.stopped());
    cron.stop();
    assert!(cron.stopped());
    assert!(!cron.listening());
}

#[test]
fn a_runner_stops_for_good() {
    let mut cron = Cron::new(None);
    cron.stop();
    assert!(cron.stopped());
    cron.stop();
    cron.stop();
    assert!(cron.stopped());
}

#[test]
fn stopping_a_runner_stops_its_listener() {
    let runtime = Builder::new_current_thread().build().unwrap();
    let flag = Arc::new(AtomicBool::new(false));
    let raised = Raised(flag.clone());
    let handle = runtime.spawn(async move {
        let _raised = raised;
        std::future::pending::<()>().await;
    });
    let website = Website::new("https://example.com".to_string(), None);
    let mut cron = website.run_cron(Some(handle));
    assert!(cron.listening());
    assert!(!cron.stopped());
    runtime.block_on(async { spider::tokio::task::yield_now().await });
    assert!(!flag.load(Ordering::SeqCst));
    cron.stop();
    runtime.block_on(async {
        for _ in 0..4 {
            spider::tokio::task::yield_now().await;
        }
    });
    assert!(flag.load(Ordering::SeqCst));
    assert!(cron.listening());
    assert!(cron.stopped());
}

#[test]
fn a_session_starts_a_runner_that_runs() {
    let website = Website::new("https://example.com".to_string(), None);
    let cron = website.run_cron(None);
    assert!(!cron.stopped());
    assert!(!cron.listening());
}
