use myosa::ftserial::{FTSerial, SerialPort};
use std::cell::RefCell;
use std::collections::VecDeque;
use std::rc::Rc;

/// A serial port fed from a shared queue of bytes.
struct Port {
    input: Rc<RefCell<VecDeque<u8>>>,
}

impl SerialPort for Port {
    fn pending(&self) -> vstd::seq::Seq<u8> {
        unreachable!()
    }

    fn available(&self) -> i32 {
        self.input.borrow().len() as i32
    }

    fn read(&mut self) -> u8 {
        self.input.borrow_mut().pop_front().unwrap()
    }
}

fn port(size: u8) -> (FTSerial<Port>, Rc<RefCell<VecDeque<u8>>>) {
    let input = Rc::new(RefCell::new(VecDeque::new()));
    (FTSerial::new(Port { input: input.clone() }, size), input)
}

fn feed(q: &Rc<RefCell<VecDeque<u8>>>, bytes: &[u8]) {
    q.borrow_mut().extend(bytes.iter().copied());
}

#[test]
fn line_is_returned_at_its_newline() {
    let (mut s, q) = port(32);
    feed(&q, b"hello\r\nworld");
    assert_eq!(s.read_until_newline(), "hello");
    assert_eq!(q.borrow().len(), 5);
    assert_eq!(s.read_until_newline(), "");
    assert!(q.borrow().is_empty());
    feed(&q, b"!\n");
    assert_eq!(s.read_until_newline(), "world!");
}

#[test]
fn long_line_overwrites_the_last_cell() {
    let (mut s, q) = port(4);
    feed(&q, b"abcdef\n");
    assert_eq!(s.read_until_newline(), "abc");
    feed(&q, b"xy\n");
    assert_eq!(s.read_until_newline(), "xy");
}

#[test]
fn empty_line() {
    let (mut s, q) = port(8);
    feed(&q, b"\n");
    assert_eq!(s.read_until_newline(), "");
    assert!(q.borrow().is_empty());
}

#[test]
fn marked_message_between_markers() {
    let (mut s, q) = port(32);
    feed(&q, b"xx<12,34>yy");
    assert_eq!(s.read_with_markers(b'<', b'>'), "12,34");
    assert_eq!(q.borrow().len(), 2);
    assert_eq!(s.read_with_markers(b'<', b'>'), "");
    feed(&q, b"<ab");
    assert_eq!(s.read_with_markers(b'<', b'>'), "");
    feed(&q, b"c>");
    assert_eq!(s.read_with_markers(b'<', b'>'), "abc");
}

#[test]
fn restart_marker_inside_a_message_is_data() {
    let (mut s, q) = port(32);
    feed(&q, b"<a<b>");
    assert_eq!(s.read_with_markers(b'<', b'>'), "a<b");
}

#[test]
fn invalid_utf8_is_replaced() {
    let (mut s, q) = port(8);
    feed(&q, &[0x41, 0xFF, 0x42, b'\n']);
    assert_eq!(s.read_until_newline(), "A\u{FFFD}B");
}

#[test]
fn bufferless_framing_when_nothing_is_stored() {
    let (mut s, q) = port(0);
    feed(&q, b"\r\n");
    assert_eq!(s.read_until_newline(), "");
    feed(&q, b"x<>");
    assert_eq!(s.read_with_markers(b'<', b'>'), "");
    assert!(q.borrow().is_empty());
}
