use std::io::{BufRead, Write};

use vstd::prelude::*;
use vstd::utf8::encode_utf8;

use crate::router::{chat_line, chat_line_of};
use crate::scuffed_clone::ScuffedClone;
use crate::server_friendly_string::{trim_end_ws, ServerFriendlyString};
use crate::user::User;

verus! {

/// Relies on `Write::write_all`: it writes the bytes or reports an error.
#[verifier::external_body]
fn write_all<O: Write>(output: &mut O, bytes: &[u8]) -> (r: Result<(), std::io::Error>) {
    output.write_all(bytes)
}

/// Relies on `Write::flush`.
#[verifier::external_body]
fn flush<O: Write>(output: &mut O) -> (r: Result<(), std::io::Error>) {
    output.flush()
}

/// Relies on `BufRead::read_line`: on success it appends what it read, up to
/// and including the first line feed or up to the end of input, and returns
/// the number of bytes appended.
#[verifier::external_body]
fn read_line<I: BufRead>(input: &mut I, buf: &mut String) -> (r: Result<usize, std::io::Error>)
    ensures
        r matches Ok(n) ==> {
            &&& final(buf)@.len() >= old(buf)@.len()
            &&& final(buf)@.take(old(buf)@.len() as int) == old(buf)@
            &&& forall|i: int|
                old(buf)@.len() <= i < final(buf)@.len() - 1 ==> #[trigger] final(buf)@[i] != '\n'
            &&& n == encode_utf8(final(buf)@.skip(old(buf)@.len() as int)).len()
        },
{
    input.read_line(buf)
}

/// Writes `prompt`, then reads one line: everything up to and including the
/// first line feed, or to the end of input when there is none. An empty
/// result means the input had ended.
pub fn get_input<I, O>(prompt: &[u8], mut input: I, mut output: O) -> (r: Result<
    String,
    std::io::Error,
>) where I: BufRead, O: Write
    ensures
        r matches Ok(s) ==> forall|i: int| 0 <= i < s@.len() - 1 ==> #[trigger] s@[i] != '\n',
{
    write_all(&mut output, prompt)?;
    flush(&mut output)?;
    let mut read = String::new();
    read_line(&mut input, &mut read)?;
    Ok(read)
}

/// What the client does with one line typed at its prompt.
#[derive(Debug)]
pub enum Outgoing {
    /// The input ended: leave.
    Quit,
    /// Send `wire` to the server and show `echo` locally.
    Send { wire: String, echo: String },
}

/// The client's side of one connection: who it is, and the connection.
#[derive(Debug)]
pub struct Client<S: ScuffedClone + Send> {
    user: User,
    conn: S,
}

impl<S: ScuffedClone + Send> Client<S> {
    pub closed spec fn spec_user(&self) -> User {
        self.user
    }

    pub closed spec fn spec_conn(&self) -> S {
        self.conn
    }

    pub fn new(user: User, conn: S) -> (c: Self)
        ensures
            c.spec_user() == user,
            c.spec_conn() == conn,
    {
        Self { user, conn }
    }

    pub fn user(&self) -> (u: &User)
        ensures
            *u == self.spec_user(),
    {
        &self.user
    }

    pub fn conn_mut(&mut self) -> (c: &mut S)
        ensures
            *c == old(self).spec_conn(),
            final(self).spec_conn() == *final(c),
            final(self).spec_user() == old(self).spec_user(),
    {
        &mut self.conn
    }

    /// Decides on one line read at the prompt: an empty read means the input
    /// ended; anything else is trimmed and sent with one line feed, and
    /// shown locally as the others will see it.
    pub fn outgoing(&self, input: &str) -> (o: Outgoing)
        ensures
            input@.len() == 0 ==> o is Quit,
            input@.len() > 0 ==> (o matches Outgoing::Send { wire, echo } && wire@
                == trim_end_ws(input@).push('\n') && echo@ == chat_line_of(
                self.spec_user().name@,
                trim_end_ws(input@),
            )),
    {
        if input.is_empty() {
            return Outgoing::Quit;
        }
        let line = ServerFriendlyString::from(input);
        let text = line.text();
        let echo = chat_line(&self.user, text.as_str());
        Outgoing::Send { wire: line.wire(), echo }
    }
}

} // verus!
