use std::sync::{Arc, Mutex};

use cucumber::event::{Cucumber, Event};
use cucumber::observer::{NullObserver, ObservationContext, ObserverRegistry, TestObserver};

struct Counting(Arc<Mutex<usize>>);

impl TestObserver<()> for Counting {
    fn on_event(&mut self, _event: &Event<Cucumber<()>>, _context: &ObservationContext) {
        *self.0.lock().unwrap() += 1;
    }
}

fn context() -> ObservationContext {
    ObservationContext {
        scenario_id: Some(1),
        feature_name: "F".to_string(),
        rule_name: None,
        scenario_name: "S".to_string(),
        retry_info: None,
        tags: vec![],
        timestamp: std::time::Instant::now(),
    }
}

#[test]
fn registry_notifies_only_once_enabled() {
    let count = Arc::new(Mutex::new(0));
    let mut registry: ObserverRegistry<()> = ObserverRegistry::new();
    registry.notify(&Event::new(Cucumber::Started), &context());
    assert_eq!(*count.lock().unwrap(), 0);

    registry.register(Box::new(Counting(Arc::clone(&count))));
    registry.register(Box::new(NullObserver));
    registry.register(Box::new(Counting(Arc::clone(&count))));
    registry.notify(&Event::new(Cucumber::Finished), &context());
    assert_eq!(*count.lock().unwrap(), 2);
}
