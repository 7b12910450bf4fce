use lambda_handler::events::{
    AwsEvent, DispatchError, Event, QueueEvent, Request, Shape, StorageEvent, TopicEvent,
};
use serde_json::Value;

fn two_queue_records() -> Value {
    serde_json::from_str(
        "{\"Records\":[{\"eventSourceARN\":\"arn:first\"},{\"eventSourceARN\":\"arn:second\"},{}]}",
    )
    .unwrap()
}

#[test]
fn queue_event_lists_the_source_of_each_record() {
    let event = QueueEvent::from_request(&two_queue_records()).unwrap();
    assert_eq!(
        event.source_arns,
        vec![Some("arn:first".to_string()), Some("arn:second".to_string()), None]
    );
}

#[test]
fn routing_key_is_that_of_the_first_record() {
    let event = QueueEvent::from_request(&two_queue_records()).unwrap();
    assert_eq!(event.event_name(), Ok("arn:first".to_string()));
    let storage = StorageEvent { event_names: vec![None, Some("ObjectCreated:Put".to_string())] };
    assert_eq!(storage.event_name(), Err(DispatchError::MissingRoutingKey));
    let topic = TopicEvent { topic_arns: vec!["arn:a".to_string(), "arn:b".to_string()] };
    assert_eq!(topic.event_name(), Ok("arn:a".to_string()));
    assert_eq!(TopicEvent { topic_arns: vec![] }.event_name(), Err(DispatchError::MissingRoutingKey));
    assert_eq!(QueueEvent { source_arns: vec![] }.event_name(), Err(DispatchError::MissingRoutingKey));
}

#[test]
fn event_of_any_shape_gives_its_tag_and_key() {
    let storage = Event::Storage(StorageEvent { event_names: vec![Some("ObjectCreated:Put".to_string())] });
    let topic = Event::Topic(TopicEvent { topic_arns: vec!["arn:t".to_string()] });
    let queue = Event::Queue(QueueEvent { source_arns: vec![Some("arn:q".to_string())] });
    assert_eq!(storage.shape(), Shape::Storage);
    assert_eq!(topic.shape(), Shape::Topic);
    assert_eq!(queue.shape(), Shape::Queue);
    assert_eq!(storage.event_name(), Ok("ObjectCreated:Put".to_string()));
    assert_eq!(topic.event_name(), Ok("arn:t".to_string()));
    assert_eq!(queue.event_name(), Ok("arn:q".to_string()));
    assert_eq!(StorageEvent::shape(), Shape::Storage);
    assert_eq!(TopicEvent::shape(), Shape::Topic);
    assert_eq!(QueueEvent::shape(), Shape::Queue);
}

#[test]
fn from_event_keeps_the_context() {
    let typed = QueueEvent::from_event(Request { payload: two_queue_records(), context: 17u32 }).unwrap();
    assert_eq!(typed.context, 17);
    assert_eq!(typed.payload.source_arns.len(), 3);
    let refused = TopicEvent::from_event(Request { payload: two_queue_records(), context: 17u32 });
    assert!(refused.is_err());
}

#[test]
fn from_request_of_a_given_shape_agrees_with_the_shape() {
    let payload = two_queue_records();
    assert!(Event::from_request(Shape::Storage, &payload).is_err());
    assert!(Event::from_request(Shape::Topic, &payload).is_err());
    let event = Event::from_request(Shape::Queue, &payload).unwrap();
    assert_eq!(event.shape(), Shape::Queue);
    assert_eq!(Event::recognize(&payload), Some(event));
}

#[test]
fn wrong_field_type_is_a_mismatch() {
    let payload: Value = serde_json::from_str("{\"Records\":[{\"eventSourceARN\":5}]}").unwrap();
    assert!(QueueEvent::from_request(&payload).is_err());
    assert_eq!(Event::recognize(&payload), None);
}

#[test]
fn each_failure_has_its_sentence() {
    assert_eq!(DispatchError::UnrecognizedShape.describe(), "Unable to get event type or name!");
    assert_eq!(DispatchError::MissingRoutingKey.describe(), "No event name!");
    assert_eq!(DispatchError::NoHandlerRegistered.describe(), "I don't have a handler for this event!");
    assert_eq!(DispatchError::EventConversionFailed.describe(), "Failed to process event!");
}
