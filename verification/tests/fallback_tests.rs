use std::sync::atomic::{AtomicUsize, Ordering};
use std::sync::Arc;

use uac2::error::{Result, Uac2Error};
use uac2::fallback_handler::{first_usable, FallbackAudioOutput, FallbackHandler};

struct Output {
    name: &'static str,
    available: bool,
    works: bool,
    activations: Arc<AtomicUsize>,
}

impl FallbackAudioOutput for Output {
    fn activate(&self) -> Result<()> {
        self.activations.fetch_add(1, Ordering::SeqCst);
        if self.works {
            Ok(())
        } else {
            Err(Uac2Error::DeviceBusy(self.name.to_string()))
        }
    }

    fn is_available(&self) -> bool {
        self.available
    }

    fn name(&self) -> &str {
        self.name
    }
}

fn output(name: &'static str, available: bool, works: bool, count: &Arc<AtomicUsize>) -> Box<Output> {
    Box::new(Output { name, available, works, activations: Arc::clone(count) })
}

#[test]
fn no_outputs_is_refused() {
    let mut h = FallbackHandler::new();
    match h.activate_fallback() {
        Err(Uac2Error::NotSupported(m)) => assert_eq!(m, "No fallback audio output available"),
        _ => panic!("nothing to fall back to"),
    }
    assert!(!h.has_active_fallback());
    assert!(h.active_fallback_name().is_none());
}

#[test]
fn first_working_output_is_activated() {
    let count = Arc::new(AtomicUsize::new(0));
    let mut h = FallbackHandler::default();
    h.register_fallback(output("hdmi", false, true, &count));
    h.register_fallback(output("jack", true, false, &count));
    h.register_fallback(output("speaker", true, true, &count));
    h.register_fallback(output("bluetooth", true, true, &count));
    h.activate_fallback().unwrap();
    assert!(h.has_active_fallback());
    assert_eq!(h.active_fallback_name(), Some("speaker"));
    // The unavailable output is not activated, the failing one is tried once.
    assert_eq!(count.load(Ordering::SeqCst), 2);
    h.deactivate_fallback();
    assert!(!h.has_active_fallback());
    assert_eq!(h.active_fallback_name(), None);
}

#[test]
fn failure_keeps_active_output() {
    let count = Arc::new(AtomicUsize::new(0));
    let mut h = FallbackHandler::new();
    h.register_fallback(output("speaker", true, true, &count));
    h.activate_fallback().unwrap();
    let mut broken = FallbackHandler::new();
    broken.register_fallback(output("jack", true, false, &count));
    assert!(broken.activate_fallback().is_err());
    assert!(!broken.has_active_fallback());
    assert_eq!(h.active_fallback_name(), Some("speaker"));
}

#[test]
fn first_usable_choice() {
    assert_eq!(first_usable(&vec![]), None);
    assert_eq!(first_usable(&vec![(false, false), (true, false)]), None);
    assert_eq!(first_usable(&vec![(false, false), (true, false), (true, true)]), Some(2));
    assert_eq!(first_usable(&vec![(true, true), (true, true)]), Some(0));
}

#[test]
fn all_outputs_failing_is_refused_and_keeps_active() {
    let count = Arc::new(AtomicUsize::new(0));
    let mut h = FallbackHandler::new();
    h.register_fallback(output("speaker", true, true, &count));
    h.activate_fallback().unwrap();
    assert_eq!(h.active_fallback_name(), Some("speaker"));
    let mut g = FallbackHandler::new();
    g.register_fallback(output("a", false, true, &count));
    g.register_fallback(output("b", true, false, &count));
    match g.activate_fallback() {
        Err(Uac2Error::NotSupported(m)) => assert_eq!(m, "No fallback audio output available"),
        _ => panic!("no output works"),
    }
    assert!(!g.has_active_fallback());
}
