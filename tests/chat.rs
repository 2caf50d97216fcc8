use chat::channels::{Channels, Rx, Tx};
use chat::server::{Action, Event, Server, Session};
use tokio::sync::broadcast::error::TryRecvError;

/// One joined connection of a chat session.
struct Peer {
    session: Session,
    channel: String,
    tx: Tx,
    rx: Option<Rx>,
}

fn connect(channels: &mut Channels, line: &str) -> Peer {
    let (channel, user) = Server::read_join("127.0.0.1:4001", Some(line.to_string())).unwrap();
    let tx = channels.add_member(&channel, &user).unwrap();
    let rx = Server::enter(&tx, &user).unwrap();
    Peer { session: Session::new(&user), channel, tx, rx: Some(rx) }
}

impl Peer {
    fn send(&mut self, line: &str) {
        match self.session.step(Event::Line(line.to_string())) {
            Action::Publish(msg) => Server::publish(&self.tx, msg).unwrap(),
            other => panic!("unexpected {:?}", other),
        }
    }

    /// The next line written to this peer, if any.
    fn recv(&mut self) -> Option<String> {
        match self.rx.as_mut().unwrap().try_recv() {
            Ok(msg) => match self.session.step(Event::Message(msg)) {
                Action::Forward(line) => Some(line),
                other => panic!("unexpected {:?}", other),
            },
            Err(TryRecvError::Lagged(n)) => match self.session.step(Event::Lagged(n)) {
                Action::Forward(line) => Some(line),
                other => panic!("unexpected {:?}", other),
            },
            Err(_) => None,
        }
    }

    fn disconnect(mut self, channels: &mut Channels) {
        match self.session.step(Event::Closed) {
            Action::Leave(msg) => Server::publish(&self.tx, msg).unwrap(),
            other => panic!("unexpected {:?}", other),
        }
        drop(self.rx.take());
        channels.remove_if_empty(&self.channel, &self.tx);
    }
}

#[test]
fn test_chat_session() {
    let mut channels = Channels::new();

    let mut joe = connect(&mut channels, "JOIN cooking joe");
    assert_eq!(joe.recv().unwrap(), "joe has joined");
    joe.send("no one here yet");
    assert_eq!(joe.recv().unwrap(), "joe: no one here yet");
    joe.send("JOIN no longer does anything");
    assert_eq!(joe.recv().unwrap(), "joe: JOIN no longer does anything");
    assert!(joe.recv().is_none());

    let mut bob = connect(&mut channels, "JOIN cooking bob");
    assert_eq!(joe.recv().unwrap(), "bob has joined");
    assert_eq!(bob.recv().unwrap(), "bob has joined");
    assert!(bob.recv().is_none());
    assert!(joe.recv().is_none());

    bob.send("hi joe");
    assert_eq!(joe.recv().unwrap(), "bob: hi joe");
    assert_eq!(bob.recv().unwrap(), "bob: hi joe");
    assert!(joe.recv().is_none());
    assert!(bob.recv().is_none());

    joe.send("good day, bob");
    assert_eq!(joe.recv().unwrap(), "joe: good day, bob");
    assert_eq!(bob.recv().unwrap(), "joe: good day, bob");
    assert!(bob.recv().is_none());
    assert!(joe.recv().is_none());

    joe.disconnect(&mut channels);

    assert_eq!(bob.recv().unwrap(), "joe has left");
    bob.send("all alone now");
    assert_eq!(bob.recv().unwrap(), "bob: all alone now");
    assert!(bob.recv().is_none());
    assert!(channels.contains("cooking"));
}

#[test]
fn messages_stay_in_their_channel() {
    let mut channels = Channels::new();
    let mut a = connect(&mut channels, "JOIN one ann");
    let mut b = connect(&mut channels, "JOIN two ann");
    assert_eq!(a.recv().unwrap(), "ann has joined");
    assert_eq!(b.recv().unwrap(), "ann has joined");
    a.send("only here");
    assert_eq!(a.recv().unwrap(), "ann: only here");
    assert!(b.recv().is_none());
}

#[test]
fn departure_is_announced_once() {
    let mut s = Session::new("joe");
    assert_eq!(s.step(Event::Closed), Action::Leave("joe has left".to_string()));
    assert!(!s.is_active());
    assert_eq!(s.step(Event::Closed), Action::Idle);
    assert_eq!(s.step(Event::Line("x".to_string())), Action::Idle);
    assert_eq!(s.step(Event::Message("m".to_string())), Action::Idle);
}

#[test]
fn session_steps() {
    let mut s = Session::new("joe");
    assert_eq!(s.user(), "joe");
    assert_eq!(s.step(Event::ReadError), Action::Idle);
    assert_eq!(s.step(Event::Lagged(3)), Action::Forward("ERROR".to_string()));
    assert_eq!(s.step(Event::Message("bob: hi".to_string())), Action::Forward("bob: hi".to_string()));
    assert_eq!(s.step(Event::Line("".to_string())), Action::Publish("joe: ".to_string()));
    assert!(s.is_active());
}

#[test]
fn slow_subscriber_is_told_of_loss() {
    let mut channels = Channels::new();
    let mut slow = connect(&mut channels, "JOIN busy slow");
    let mut fast = connect(&mut channels, "JOIN busy fast");
    for i in 0..1100 {
        fast.send(&format!("{}", i));
        assert!(fast.recv().is_some());
    }
    assert_eq!(slow.recv().unwrap(), "ERROR");
    assert!(slow.recv().is_some());
    assert!(slow.session.is_active());
}

#[test]
fn message_texts() {
    assert_eq!(Server::joined_message("joe"), "joe has joined");
    assert_eq!(Server::left_message("joe"), "joe has left");
    assert_eq!(Server::chat_message("joe", "hi"), "joe: hi");
    assert_eq!(Server::error_line(), "ERROR");
}
