use std::io::{Cursor, Read, Write};

use tcp_chat::client::{get_input, Client, Outgoing};
use tcp_chat::scuffed_clone::ScuffedClone;
use tcp_chat::user::User;

#[test]
fn test_get_input() {
    let input_str = "what the dog doin\nthis won't be read";
    let mut input = Cursor::new(input_str);
    let mut output = Vec::with_capacity(128);

    let res = get_input(b"Snart: ", &mut input, &mut output).unwrap();
    assert_eq!("what the dog doin\n", res);
    assert_eq!(input_str.chars().position(|c| c == '\n').unwrap(), (input.position() - 1) as usize);
    assert_eq!("this won't be read", &input.get_ref()[input.position() as usize..]);
    assert_eq!(b"Snart: ", &output[..]);
}

#[test]
fn test_get_input_no_newline() {
    let input_str = "this is just one long line no newline";
    let mut input = Cursor::new(input_str);
    let mut output = Vec::with_capacity(128);

    let res = get_input(b"> ", &mut input, &mut output).unwrap();
    assert_eq!("this is just one long line no newline", res);
    assert_eq!(input_str.len(), input.position() as usize);
    assert_eq!("", &input.get_ref()[input.position() as usize..]);
    assert_eq!(b"> ", &output[..]);
}

#[test]
fn get_input_at_end_of_input_is_empty() {
    let mut input = Cursor::new("");
    let mut output = Vec::new();
    let res = get_input(b"> ", &mut input, &mut output).unwrap();
    assert_eq!("", res);
    assert_eq!(b"> ", &output[..]);
}

/// An in-memory connection for the client.
struct Pipe(Cursor<Vec<u8>>);

impl Read for Pipe {
    fn read(&mut self, buf: &mut [u8]) -> std::io::Result<usize> {
        self.0.read(buf)
    }
}

impl Write for Pipe {
    fn write(&mut self, buf: &[u8]) -> std::io::Result<usize> {
        self.0.write(buf)
    }

    fn flush(&mut self) -> std::io::Result<()> {
        self.0.flush()
    }
}

impl ScuffedClone for Pipe {
    fn scuffed_clone(&self) -> Self {
        Pipe(self.0.clone())
    }
}

#[test]
fn client_keeps_its_user_and_connection() {
    let mut client = Client::new(User::new("hello"), Pipe(Cursor::new(Vec::new())));
    assert_eq!("hello", client.user().name);
    client.conn_mut().write_all(b"abc").unwrap();
    assert_eq!(b"abc", &client.conn_mut().0.get_ref()[..]);
}

#[test]
fn client_quits_when_input_ends() {
    let client = Client::new(User::new("hello"), Pipe(Cursor::new(Vec::new())));
    assert!(matches!(client.outgoing(""), Outgoing::Quit));
}

#[test]
fn client_sends_trimmed_line_and_echoes_it() {
    let client = Client::new(User::new("alice"), Pipe(Cursor::new(Vec::new())));
    match client.outgoing("hi there \r\n") {
        Outgoing::Send { wire, echo } => {
            assert_eq!("hi there\n", wire);
            assert_eq!("<alice> hi there\n", echo);
        }
        Outgoing::Quit => panic!("a non-empty line must be sent"),
    }
}

#[test]
fn client_sends_blank_line_as_empty_text() {
    let client = Client::new(User::new("alice"), Pipe(Cursor::new(Vec::new())));
    match client.outgoing("\n") {
        Outgoing::Send { wire, echo } => {
            assert_eq!("\n", wire);
            assert_eq!("<alice> \n", echo);
        }
        Outgoing::Quit => panic!("a blank line is not the end of input"),
    }
}
