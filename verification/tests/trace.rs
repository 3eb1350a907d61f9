use std::cell::RefCell;
use std::rc::Rc;
use tau_runtime_core::trace::{NoopTraceSubscriber, TraceStream, TraceSubscriber};

#[derive(Clone)]
struct Collect(Rc<RefCell<Vec<String>>>);

impl TraceSubscriber<String> for Collect {
    fn emit(&self, event: String) {
        self.0.borrow_mut().push(event);
    }
}

#[test]
fn emit_delivers_to_all_subscribers() {
    let a = Collect(Rc::new(RefCell::new(vec![])));
    let b = Collect(Rc::new(RefCell::new(vec![])));
    let mut stream = TraceStream::new();
    stream.add_subscriber(a.clone());
    stream.add_subscriber(b.clone());
    stream.emit(&"e1".to_string());
    assert_eq!(a.0.borrow().len(), 1);
    assert_eq!(b.0.borrow().len(), 1);
    assert_eq!(a.0.borrow()[0], "e1");
    assert_eq!(b.0.borrow()[0], "e1");
}

#[test]
fn noop_subscriber_does_not_panic() {
    let mut stream = TraceStream::new();
    stream.add_subscriber(NoopTraceSubscriber);
    stream.emit(&"e1".to_string());
    assert_eq!(stream.subscriber_count(), 1);
}

#[test]
fn emit_with_no_subscribers_is_noop() {
    let stream: TraceStream<NoopTraceSubscriber> = TraceStream::new();
    stream.emit(&"e1".to_string());
    assert_eq!(stream.subscriber_count(), 0);
}
