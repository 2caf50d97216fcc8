//! The connection handler's decisions: the handshake, what each event on a
//! joined connection leads to, and the lines the relay writes.

use vstd::prelude::*;
use vstd::string::*;
use vstd::utf8::*;
use crate::channels::{Rx, Tx};
use crate::error::ServerError;
use crate::join::{parse_join, span_ok, surviving_spans, term_slice, span_terms, join_keyword};

verus! {

broadcast use vstd::utf8::encode_utf8_valid_utf8;

/// `<user> has joined`
pub open spec fn joined_text(user: Seq<char>) -> Seq<char> {
    user + seq![' ', 'h', 'a', 's', ' ', 'j', 'o', 'i', 'n', 'e', 'd']
}

/// `<user> has left`
pub open spec fn left_text(user: Seq<char>) -> Seq<char> {
    user + seq![' ', 'h', 'a', 's', ' ', 'l', 'e', 'f', 't']
}

/// `<user>: <line>`
pub open spec fn chat_text(user: Seq<char>, line: Seq<char>) -> Seq<char> {
    user + seq![':', ' '] + line
}

/// The one error line the relay ever writes.
pub open spec fn error_text() -> Seq<char> {
    seq!['E', 'R', 'R', 'O', 'R']
}

/// Relies on `tokio::sync::broadcast::Sender::subscribe`: a subscription
/// that receives what is published from now on. It panics only at
/// `usize::MAX >> 2` live subscriptions of one group, which no count of
/// connections reaches.
#[verifier::external_body]
fn subscribe(tx: &Tx) -> Rx {
    tx.subscribe()
}

/// Relies on `tokio::sync::broadcast::Sender::send`: hands `msg` to every
/// live subscription, and fails when there is none.
#[verifier::external_body]
fn send_to_group(tx: &Tx, msg: String) -> (delivered: bool) {
    tx.send(msg).is_ok()
}

/// What reaches a joined connection.
#[derive(Debug, PartialEq, Eq)]
pub enum Event {
    /// A line from the peer.
    Line(String),
    /// The transport failed to read a line; the connection goes on.
    ReadError,
    /// The peer's stream ended.
    Closed,
    /// A message of the channel's group.
    Message(String),
    /// The subscription fell behind and lost this many messages.
    Lagged(u64),
}

/// What the handler does next.
#[derive(Debug, PartialEq, Eq)]
pub enum Action {
    /// Publish this message to the channel's group.
    Publish(String),
    /// Write this line to the peer.
    Forward(String),
    /// Publish this departure message, then leave the channel.
    Leave(String),
    /// Nothing.
    Idle,
}

/// Whether a connection in state `active` stays joined after `ev`.
pub open spec fn stays(active: bool, ev: Event) -> bool {
    active && !(ev is Closed)
}

/// Whether `ev` makes a connection in state `active` leave.
pub open spec fn departs(active: bool, ev: Event) -> bool {
    active && ev is Closed
}

/// A joined connection: its user name, and whether it has left yet.
pub struct Session {
    user: String,
    active: bool,
}

impl Session {
    pub closed spec fn spec_user(&self) -> Seq<char> {
        self.user@
    }

    pub closed spec fn spec_active(&self) -> bool {
        self.active
    }

    /// A session of `user`, who has just joined.
    pub fn new(user: &str) -> (s: Session)
        ensures
            s.spec_user() == user@,
            s.spec_active(),
    {
        Session { user: user.to_owned(), active: true }
    }

    /// The user name of this session.
    pub fn user(&self) -> (r: &str)
        ensures
            r@ == self.spec_user(),
    {
        self.user.as_str()
    }

    /// Whether the user has not left yet.
    pub fn is_active(&self) -> (r: bool)
        ensures
            r == self.spec_active(),
    {
        self.active
    }

    /// What the handler does on `ev`. A line from the peer is published with
    /// the user's name in front; a group message is written to the peer as it
    /// is; a loss is reported to the peer as the error line; the end of the
    /// stream publishes the departure, once. After that nothing happens.
    pub fn step(&mut self, ev: Event) -> (a: Action)
        ensures
            final(self).spec_user() == old(self).spec_user(),
            final(self).spec_active() == stays(old(self).spec_active(), ev),
            (a is Leave) == departs(old(self).spec_active(), ev),
            a is Leave ==> a->Leave_0@ == left_text(old(self).spec_user()),
            !old(self).spec_active() ==> a is Idle,
            old(self).spec_active() && ev is Line ==> (a is Publish && a->Publish_0@ == chat_text(
                old(self).spec_user(),
                ev->Line_0@,
            )),
            old(self).spec_active() && ev is ReadError ==> a is Idle,
            old(self).spec_active() && ev is Message ==> a == Action::Forward(ev->Message_0),
            old(self).spec_active() && ev is Lagged ==> (a is Forward && a->Forward_0@
                == error_text()),
    {
        if !self.active {
            return Action::Idle;
        }
        match ev {
            Event::Line(line) => Action::Publish(Server::chat_message(&self.user, &line)),
            Event::ReadError => Action::Idle,
            Event::Closed => {
                self.active = false;
                Action::Leave(Server::left_message(&self.user))
            },
            Event::Message(msg) => Action::Forward(msg),
            Event::Lagged(_) => Action::Forward(Server::error_line()),
        }
    }
}

/// The relay's connection handling.
pub struct Server {}

impl Server {
    /// Splits a join command into `(channel, user)`.
    ///
    /// The line is cut at every single space; terms longer than twenty characters
    /// or holding whitespace are dropped; what is left must be exactly
    /// `JOIN`, a channel and a user.
    pub fn parse_join_command(join_cmd: &str) -> (r: Option<(&str, &str)>)
        ensures
            r is Some == parse_join(join_cmd.spec_bytes()) is Some,
            r is Some ==> (r->0).0.spec_bytes() == (parse_join(join_cmd.spec_bytes())->0).0,
            r is Some ==> (r->0).1.spec_bytes() == (parse_join(join_cmd.spec_bytes())->0).1,
    {
        let b = join_cmd.as_bytes();
        let spans = surviving_spans(b);
        let ghost terms = span_terms(b@, spans@);
        if spans.len() != 3 {
            return None;
        }
        let (h0, h1) = spans[0];
        assert(span_ok(b@, spans@[0]));
        assert(terms[0] == b@.subrange(h0 as int, h1 as int));
        let is_join = h1 - h0 == 4 && b[h0] == 0x4A && b[h0 + 1] == 0x4F && b[h0 + 2] == 0x49
            && b[h0 + 3] == 0x4E;
        if !is_join {
            proof {
                if terms[0] == join_keyword() {
                    assert(terms[0][0] == 0x4Au8);
                    assert(terms[0][1] == 0x4Fu8);
                    assert(terms[0][2] == 0x49u8);
                    assert(terms[0][3] == 0x4Eu8);
                }
            }
            return None;
        }
        proof {
            assert(terms[0] =~= join_keyword());
        }
        let (c0, c1) = spans[1];
        let (u0, u1) = spans[2];
        assert(span_ok(b@, spans@[1]));
        assert(span_ok(b@, spans@[2]));
        Some((term_slice(join_cmd, c0, c1), term_slice(join_cmd, u0, u1)))
    }

    /// The handshake on the first line of a connection from `addr`: no line
    /// is `NoJoin`, a line that is no join command is `InvalidJoin`, and a
    /// join command gives `(channel, user)`.
    pub fn read_join(addr: &str, first: Option<String>) -> (r: Result<(String, String), ServerError>)
        ensures
            first is None ==> (r is Err && r->Err_0 is NoJoin && r->Err_0->NoJoin_0@ == addr@),
            first is Some && parse_join(encode_utf8(first->0@)) is None ==> (r is Err
                && r->Err_0 is InvalidJoin && r->Err_0->InvalidJoin_0@ == addr@),
            first is Some && parse_join(encode_utf8(first->0@)) is Some ==> (r is Ok
                && encode_utf8((r->Ok_0).0@) == (parse_join(encode_utf8(first->0@))->0).0
                && encode_utf8((r->Ok_0).1@) == (parse_join(encode_utf8(first->0@))->0).1),
    {
        match first {
            None => Err(ServerError::NoJoin(addr.to_owned())),
            Some(line) => {
                let s = line.as_str();
                match Server::parse_join_command(s) {
                    None => Err(ServerError::InvalidJoin(addr.to_owned())),
                    Some((chan, user)) => Ok((chan.to_owned(), user.to_owned())),
                }
            },
        }
    }

    /// The line sent to the peer before its connection ends for `e`, if any:
    /// the error line after a rejected join, nothing otherwise.
    pub fn error_reply(e: &ServerError) -> (r: Option<String>)
        ensures
            r is Some == (e is InvalidJoin || e is UserAlreadyInChannel),
            r is Some ==> r->0@ == error_text(),
    {
        match e {
            ServerError::InvalidJoin(_) | ServerError::UserAlreadyInChannel(_) => Some(
                Server::error_line(),
            ),
            _ => None,
        }
    }

    /// Subscribes to the group behind `tx` and announces `user` there. The
    /// subscription comes first, so the announcement reaches it too.
    pub fn enter(tx: &Tx, user: &str) -> (r: Result<Rx, ServerError>)
        ensures
            r is Err ==> r->Err_0 is BroadcastMessage,
    {
        let rx = subscribe(tx);
        match Server::publish(tx, Server::joined_message(user)) {
            Ok(()) => Ok(rx),
            Err(e) => Err(e),
        }
    }

    /// Publishes `msg` to the group behind `tx`; with no subscriber left
    /// this is `BroadcastMessage`.
    pub fn publish(tx: &Tx, msg: String) -> (r: Result<(), ServerError>)
        ensures
            r is Err ==> r->Err_0 is BroadcastMessage,
    {
        if send_to_group(tx, msg) {
            Ok(())
        } else {
            Err(ServerError::BroadcastMessage)
        }
    }

    /// `<user> has joined`
    pub fn joined_message(user: &str) -> (r: String)
        ensures
            r@ == joined_text(user@),
    {
        let mut r = String::from_str(user);
        r.append(" has joined");
        proof {
            reveal_strlit(" has joined");
            assert(r@ =~= joined_text(user@));
        }
        r
    }

    /// `<user> has left`
    pub fn left_message(user: &str) -> (r: String)
        ensures
            r@ == left_text(user@),
    {
        let mut r = String::from_str(user);
        r.append(" has left");
        proof {
            reveal_strlit(" has left");
            assert(r@ =~= left_text(user@));
        }
        r
    }

    /// `<user>: <line>`
    pub fn chat_message(user: &str, line: &str) -> (r: String)
        ensures
            r@ == chat_text(user@, line@),
    {
        let mut r = String::from_str(user);
        r.append(": ");
        r.append(line);
        proof {
            reveal_strlit(": ");
            assert(r@ =~= chat_text(user@, line@));
        }
        r
    }

    /// `ERROR`
    pub fn error_line() -> (r: String)
        ensures
            r@ == error_text(),
    {
        let r = String::from_str("ERROR");
        proof {
            reveal_strlit("ERROR");
            assert(r@ =~= error_text());
        }
        r
    }
}

} // verus!
