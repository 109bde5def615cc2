use crows::rpc::{reply_to, Delivery, Listeners, Message};

#[test]
fn replies_reach_their_listener_once() {
    let mut listeners: Listeners<&str> = Listeners::new();
    listeners.register(1, "first");
    listeners.register(2, "second");
    assert!(matches!(listeners.route(None), Delivery::Request));
    assert!(matches!(listeners.route(Some(2)), Delivery::Reply("second")));
    assert!(matches!(listeners.route(Some(2)), Delivery::Unregistered));
    assert!(matches!(listeners.route(Some(1)), Delivery::Reply("first")));
    assert!(matches!(listeners.route(Some(3)), Delivery::Unregistered));
}

#[test]
fn registering_again_replaces_the_listener() {
    let mut listeners: Listeners<u8> = Listeners::new();
    listeners.register(7, 1);
    listeners.register(7, 2);
    assert!(matches!(listeners.route(Some(7)), Delivery::Reply(2)));
    assert!(matches!(listeners.route(Some(7)), Delivery::Unregistered));
}

#[test]
fn reply_points_at_request() {
    let request = Message { id: uuid::Uuid::new_v4(), reply_to: None, message: "{}".to_string(), message_type: "Ping".to_string() };
    let id = uuid::Uuid::new_v4();
    let reply = reply_to(&request, id, "\"OK\"".to_string(), "Ping".to_string());
    assert_eq!(reply.reply_to, Some(request.id));
    assert_eq!(reply.id, id);
    assert_eq!(reply.message, "\"OK\"");
}
