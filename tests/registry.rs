use chat::channels::Channels;
use chat::error::ServerError;
use chat::server::Server;

#[test]
fn new_registry_is_empty() {
    let channels = Channels::new();
    assert!(!channels.contains("a"));
    assert_eq!(channels.roster("a"), None);
}

#[test]
fn add_member_creates_channel_and_keeps_order() {
    let mut channels = Channels::new();
    assert!(channels.add_member("c", "u1").is_ok());
    assert!(channels.add_member("c", "u2").is_ok());
    assert_eq!(channels.roster("c").unwrap(), vec!["u1".to_string(), "u2".to_string()]);
    assert!(!channels.contains("d"));
}

#[test]
fn taken_name_is_refused_without_change() {
    let mut channels = Channels::new();
    channels.add_member("c", "u").unwrap();
    match channels.add_member("c", "u") {
        Err(e) => assert_eq!(e, ServerError::UserAlreadyInChannel("u".to_string())),
        Ok(_) => panic!("name taken twice"),
    }
    assert_eq!(channels.roster("c").unwrap(), vec!["u".to_string()]);
    assert!(channels.add_member("other", "u").is_ok());
}

#[test]
fn remove_only_without_subscribers() {
    let mut channels = Channels::new();
    channels.add_member("c", "u").unwrap();
    assert!(!channels.remove_if_unsubscribed("c", 2));
    assert!(channels.contains("c"));
    assert!(channels.remove_if_unsubscribed("c", 0));
    assert!(!channels.contains("c"));
    assert!(!channels.remove_if_unsubscribed("c", 0));
}

#[test]
fn channel_is_fresh_after_last_departure() {
    let mut channels = Channels::new();
    let tx = channels.add_member("c", "joe").unwrap();
    let rx = Server::enter(&tx, "joe").unwrap();
    assert!(!channels.remove_if_empty("c", &tx));
    assert!(channels.contains("c"));
    drop(rx);
    assert!(channels.remove_if_empty("c", &tx));
    assert!(!channels.contains("c"));
    assert!(channels.add_member("c", "joe").is_ok());
    assert_eq!(channels.roster("c").unwrap(), vec!["joe".to_string()]);
}

#[test]
fn publish_without_subscribers_fails() {
    let mut channels = Channels::new();
    let tx = channels.add_member("c", "joe").unwrap();
    assert_eq!(Server::publish(&tx, "x".to_string()), Err(ServerError::BroadcastMessage));
}
