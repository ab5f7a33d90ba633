use std::cell::Cell;
use std::rc::Rc;
use task_scheduler::event::{Event, EventHandler, EventType};

#[test]
fn event_keeps_type_payload_and_timestamp() {
    let e = Event::with_timestamp(EventType::Custom("print".to_string()), "hello".to_string(), 42);
    assert_eq!(e.event_type(), &EventType::Custom("print".to_string()));
    assert_eq!(e.payload(), "hello");
    assert_eq!(e.timestamp(), 42);
}

#[test]
fn event_new_is_stamped_with_the_clock() {
    let e = Event::new(EventType::Manual, "now".to_string());
    assert_eq!(e.event_type(), &EventType::Manual);
    assert_eq!(e.payload(), "now");
    // Any time after 2020-01-01 counts as a real clock reading.
    assert!(e.timestamp() > 1_577_836_800);
}

#[test]
fn event_types_compare_by_variant_and_name() {
    assert!(EventType::Scheduled == EventType::Scheduled);
    assert!(EventType::Manual == EventType::Manual);
    assert!(EventType::Scheduled != EventType::Manual);
    assert!(EventType::Custom("a".to_string()) == EventType::Custom("a".to_string()));
    assert!(EventType::Custom("a".to_string()) != EventType::Custom("b".to_string()));
    assert!(EventType::Custom("a".to_string()) != EventType::Manual);
    assert!(EventType::Custom("a".to_string()).same_as(&EventType::Custom("a".to_string())));
}

#[test]
fn emit_calls_every_handler_in_order() {
    let seen: Rc<std::cell::RefCell<Vec<String>>> = Rc::new(std::cell::RefCell::new(Vec::new()));
    let mut handler: EventHandler<Box<dyn Fn(&Event)>> = EventHandler::new();
    let s1 = seen.clone();
    handler.subscribe(Box::new(move |e: &Event| s1.borrow_mut().push(format!("first:{}", e.payload()))));
    let s2 = seen.clone();
    handler.subscribe(Box::new(move |e: &Event| s2.borrow_mut().push(format!("second:{}", e.payload()))));
    handler.emit(&Event::with_timestamp(EventType::Manual, "x".to_string(), 1));
    handler.emit(&Event::with_timestamp(EventType::Manual, "y".to_string(), 2));
    assert_eq!(
        *seen.borrow(),
        vec!["first:x".to_string(), "second:x".to_string(), "first:y".to_string(), "second:y".to_string()]
    );
}

#[test]
fn emit_without_handlers_does_nothing() {
    let count = Rc::new(Cell::new(0));
    let mut subscribed: EventHandler<Box<dyn Fn(&Event)>> = EventHandler::new();
    let c = count.clone();
    subscribed.subscribe(Box::new(move |_e: &Event| c.set(c.get() + 1)));
    let empty: EventHandler<Box<dyn Fn(&Event)>> = EventHandler::new();
    empty.emit(&Event::with_timestamp(EventType::Scheduled, String::new(), 0));
    assert_eq!(count.get(), 0);
    subscribed.emit(&Event::with_timestamp(EventType::Scheduled, String::new(), 0));
    assert_eq!(count.get(), 1);
}

#[test]
fn seconds_since_epoch_of_a_reading() {
    assert_eq!(task_scheduler::event::seconds_since_epoch(None), 0);
    assert_eq!(task_scheduler::event::seconds_since_epoch(Some(std::time::Duration::from_millis(5_900))), 5);
}
