use vstd::prelude::*;
use vstd::utf8::{decode_utf8, valid_utf8};

use crate::registry::{has_name, without, Registry};
use crate::response::AuthResponse;
use crate::router::ChatEvent;
use crate::server_friendly_string::{trim_end_ws, utf8_lossy, ServerFriendlyString};
use crate::user::User;

verus! {

/// Declares `serde_json::Error`, the decoder's error, as an opaque type: it is
/// only carried through, and nothing is assumed of it.
#[verifier::external_type_specification]
#[verifier::external_body]
pub struct ExJsonError(serde_json::Error);

/// Declares `std::io::Error` as an opaque type: it is only carried through,
/// and nothing is assumed of it.
#[verifier::external_type_specification]
#[verifier::external_body]
pub struct ExIoError(std::io::Error);

/// The most bytes a client's handshake frame may take.
pub const VALIDATE_BUFFER_SIZE: usize = 256;

/// How many chat events may wait for the router before publishers block.
pub const CHANNEL_SIZE: usize = 128;

/// Why a session ended before it became active.
#[derive(Debug)]
pub enum ServerError {
    /// Reading from or writing to the connection failed.
    IO(std::io::Error),
    /// The handshake frame did not decode to an identity.
    Serde(serde_json::Error),
    /// The handshake decoded to an empty name.
    NoInput,
    /// The handshake frame ran past the byte budget.
    TooLong(usize),
    /// Another live session holds the name.
    AlreadyConnected(String),
}

/// Where a connection stands. Any failure ends it: there is no second
/// handshake.
#[derive(Debug)]
pub enum SessionState {
    /// Accepted; waiting for the handshake frame.
    Connecting,
    /// The frame arrived within budget; waiting for it to be decoded.
    Authenticating,
    /// Registered under this identity; relaying its lines.
    Active(User),
    /// Over; the identity, if it was registered, is gone from the registry.
    Closed,
}

/// The server's side of one connection, driven by what was read from it.
#[derive(Debug)]
pub struct Session {
    state: SessionState,
}

impl View for Session {
    type V = SessionState;

    closed spec fn view(&self) -> SessionState {
        self.state
    }
}

impl Session {
    pub fn new() -> (s: Session)
        ensures
            s@ is Connecting,
    {
        Session { state: SessionState::Connecting }
    }

    pub fn state(&self) -> (r: &SessionState)
        ensures
            *r == self@,
    {
        &self.state
    }

    /// The first read came back with `frame`. A frame past the budget is
    /// refused unread; any other, an empty one included, goes to the decoder,
    /// which fails on anything that is not an encoded identity.
    pub fn receive_handshake(&mut self, frame: &[u8]) -> (r: Result<(), ServerError>)
        requires
            old(self)@ is Connecting,
        ensures
            r is Ok <==> frame@.len() <= VALIDATE_BUFFER_SIZE,
            frame@.len() > VALIDATE_BUFFER_SIZE ==> (r matches Err(ServerError::TooLong(n)) && n
                == frame@.len()),
            r is Ok ==> final(self)@ is Authenticating,
            r is Err ==> final(self)@ is Closed,
    {
        if frame.len() > VALIDATE_BUFFER_SIZE {
            self.state = SessionState::Closed;
            Err(ServerError::TooLong(frame.len()))
        } else {
            self.state = SessionState::Authenticating;
            Ok(())
        }
    }

    /// The frame was decoded, to an identity or to an error. A well-formed,
    /// non-empty name that no live session holds is registered with `sink`
    /// and the session becomes active; anything else closes it and leaves
    /// the registry alone.
    pub fn authenticate<S>(
        &mut self,
        decoded: Result<User, serde_json::Error>,
        registry: &mut Registry<S>,
        sink: S,
    ) -> (r: Result<User, ServerError>)
        requires
            old(self)@ is Authenticating,
        ensures
            match decoded {
                Err(e) => {
                    &&& r == Err::<User, ServerError>(ServerError::Serde(e))
                    &&& final(registry)@ == old(registry)@
                    &&& final(self)@ is Closed
                },
                Ok(u) => if u.name@.len() == 0 {
                    &&& r matches Err(ServerError::NoInput)
                    &&& final(registry)@ == old(registry)@
                    &&& final(self)@ is Closed
                } else if has_name(old(registry)@, u.name@) {
                    &&& r matches Err(ServerError::AlreadyConnected(n)) && n@ == u.name@
                    &&& final(registry)@ == old(registry)@
                    &&& final(self)@ is Closed
                } else {
                    &&& r matches Ok(v) && v.name@ == u.name@
                    &&& final(self)@ matches SessionState::Active(a) && a.name@ == u.name@
                    &&& final(registry)@ == old(registry)@.push((u.name@, sink))
                },
            },
    {
        match decoded {
            Err(e) => {
                self.state = SessionState::Closed;
                Err(ServerError::Serde(e))
            },
            Ok(user) => {
                if user.name.as_str().is_empty() {
                    self.state = SessionState::Closed;
                    return Err(ServerError::NoInput);
                }
                let kept = user.clone();
                match registry.try_register(user, sink) {
                    Ok(()) => {
                        let active = kept.clone();
                        self.state = SessionState::Active(active);
                        Ok(kept)
                    },
                    Err(e) => {
                        self.state = SessionState::Closed;
                        Err(e)
                    },
                }
            },
        }
    }

    /// A read of one line came back with `line`, its delimiter included.
    /// Nothing at all means the peer closed: the session ends and leaves the
    /// registry. Otherwise the line's text, trimmed, goes out as an event,
    /// even when that text is empty.
    pub fn receive_line<S>(&mut self, line: &[u8], registry: &mut Registry<S>) -> (r: Option<
        ChatEvent,
    >)
        requires
            old(self)@ is Active,
        ensures
            line@.len() == 0 ==> {
                &&& r is None
                &&& final(self)@ is Closed
                &&& final(registry)@ == without(old(registry)@, old(self)@->Active_0.name@)
            },
            line@.len() > 0 ==> {
                &&& r matches Some(ev) && ev.sender.name@ == old(self)@->Active_0.name@
                    && ev.text@ == trim_end_ws(utf8_lossy(line@))
                    && (valid_utf8(line@) ==> ev.text@ == trim_end_ws(decode_utf8(line@)))
                &&& final(self)@ == old(self)@
                &&& final(registry)@ == old(registry)@
            },
    {
        if line.len() == 0 {
            self.close(registry);
            return None;
        }
        match &self.state {
            SessionState::Active(user) => {
                let text = ServerFriendlyString::from_bytes(line).text();
                Some(ChatEvent { sender: user.clone(), text })
            },
            _ => None,
        }
    }

    /// The session ends, for whatever reason: an active one's identity is
    /// removed from the registry, which is harmless if it is already gone.
    pub fn close<S>(&mut self, registry: &mut Registry<S>)
        ensures
            final(self)@ is Closed,
            old(self)@ matches SessionState::Active(u) ==> final(registry)@ == without(
                old(registry)@,
                u.name@,
            ),
            !(old(self)@ is Active) ==> final(registry)@ == old(registry)@,
    {
        if let SessionState::Active(user) = &self.state {
            registry.remove(user);
        }
        self.state = SessionState::Closed;
    }
}

/// What the server writes back after a handshake: success for a
/// registration, the taken name for a refusal, nothing when the frame did
/// not decode.
pub fn auth_response(outcome: &Result<User, ServerError>) -> (r: Option<AuthResponse>)
    ensures
        outcome is Ok ==> r matches Some(AuthResponse::Success),
        outcome matches Err(ServerError::AlreadyConnected(n)) ==> (r matches Some(
            AuthResponse::Error(reason),
        ) && reason@ == "Name is already taken: "@ + n@),
        outcome is Err && !(outcome matches Err(ServerError::AlreadyConnected(_))) ==> r is None,
{
    match outcome {
        Ok(_) => Some(AuthResponse::Success),
        Err(ServerError::AlreadyConnected(name)) => {
            let reason = "Name is already taken: ".to_owned().concat(name.as_str());
            Some(AuthResponse::Error(reason))
        },
        Err(_) => None,
    }
}

} // verus!
