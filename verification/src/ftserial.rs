//! Line and marker framing of text arriving on a serial port.
//!
//! Characters are collected in a fixed buffer; when it is full, each new
//! character overwrites its last cell. A frame ends at a newline (carriage
//! returns are dropped) or, in marker mode, between a start and an end
//! marker. The bytes of a finished frame become text through
//! `String::from_utf8_lossy`.
use vstd::prelude::*;

use crate::gfx::vec_of;

verus! {

/// A serial port. `pending` is what was received and not yet read.
pub trait SerialPort {
    spec fn pending(&self) -> Seq<u8>;

    /// Positive exactly when something is waiting.
    fn available(&self) -> (r: i32)
        ensures
            (r > 0) == (self.pending().len() > 0),
    ;

    /// The next byte waiting.
    fn read(&mut self) -> (r: u8)
        requires
            old(self).pending().len() > 0,
        ensures
            r == old(self).pending()[0],
            final(self).pending() == old(self).pending().drop_first(),
    ;
}

/// The text that `String::from_utf8_lossy` makes of the bytes `b`.
pub uninterp spec fn lossy_text(b: Seq<u8>) -> Seq<char>;

/// The bytes `b` as text: `String::from_utf8_lossy`, which keeps valid
/// UTF-8 as it is (so ASCII bytes become the same characters) and replaces
/// invalid sequences by U+FFFD.
#[verifier::external_body]
fn text_of(b: &[u8]) -> (r: String)
    ensures
        r@ == lossy_text(b@),
        (forall|i: int| 0 <= i < b@.len() ==> b@[i] < 128) ==> r@ == b@.map_values(|c: u8| c as char),
{
    String::from_utf8_lossy(b).to_string()
}

/// The buffer and index after storing `c`: it goes to cell `ndx`, and the
/// index moves on but never past the last cell.
pub open spec fn store(buf: Seq<u8>, ndx: u8, size: u8, c: u8) -> (Seq<u8>, u8) {
    let n = ndx + 1;
    (buf.update(ndx as int, c), if n >= size {
        (size - 1) as u8
    } else {
        n as u8
    })
}

/// Where a scan of input stopped: the buffer, the index, whether the
/// marker mode is collecting, how many input bytes it used, and the frame
/// it finished, if any.
pub struct Scan {
    pub buf: Seq<u8>,
    pub ndx: u8,
    pub reading: bool,
    pub used: nat,
    pub frame: Option<Seq<u8>>,
}

/// Scan `p` for a line: a newline finishes the line held in the first
/// `ndx` cells and resets the index; a carriage return is dropped; any
/// other byte is stored.
pub open spec fn scan_line(buf: Seq<u8>, ndx: u8, size: u8, p: Seq<u8>) -> Scan
    decreases p.len(),
{
    if p.len() == 0 {
        Scan { buf, ndx, reading: false, used: 0, frame: None }
    } else if p[0] == 10 {
        Scan { buf, ndx: 0, reading: false, used: 1, frame: Some(buf.take(ndx as int)) }
    } else {
        let (b2, n2) = if p[0] != 13 {
            store(buf, ndx, size, p[0])
        } else {
            (buf, ndx)
        };
        let s = scan_line(b2, n2, size, p.drop_first());
        Scan { used: s.used + 1, ..s }
    }
}

/// Scan `p` for a marked message: outside a message everything but the
/// start marker is skipped, and the start marker begins a message at
/// index 0; inside one, the end marker finishes the message held in the
/// first `ndx` cells, and any other byte is stored.
pub open spec fn scan_marked(buf: Seq<u8>, ndx: u8, size: u8, reading: bool, start: u8, end: u8, p: Seq<u8>) -> Scan
    decreases p.len(),
{
    if p.len() == 0 {
        Scan { buf, ndx, reading, used: 0, frame: None }
    } else if reading && p[0] == end {
        Scan { buf, ndx: 0, reading: false, used: 1, frame: Some(buf.take(ndx as int)) }
    } else {
        let (b2, n2, r2) = if reading {
            let (b, n) = store(buf, ndx, size, p[0]);
            (b, n, true)
        } else if p[0] == start {
            (buf, 0u8, true)
        } else {
            (buf, ndx, false)
        };
        let s = scan_marked(b2, n2, size, r2, start, end, p.drop_first());
        Scan { used: s.used + 1, ..s }
    }
}

/// Whether every byte of `b` is ASCII.
pub open spec fn all_ascii(b: Seq<u8>) -> bool {
    forall|i: int| 0 <= i < b.len() ==> b[i] < 128
}

/// Whether scanning `p` for a line stores a byte before the line ends:
/// some byte other than a carriage return comes before the first newline.
pub open spec fn line_stores(p: Seq<u8>) -> bool
    decreases p.len(),
{
    if p.len() == 0 || p[0] == 10 {
        false
    } else if p[0] == 13 {
        line_stores(p.drop_first())
    } else {
        true
    }
}

/// Whether scanning `p` for a marked message stores a byte before the
/// message ends: inside a message, some byte other than the end marker
/// comes before it.
pub open spec fn marked_stores(reading: bool, start: u8, end: u8, p: Seq<u8>) -> bool
    decreases p.len(),
{
    if p.len() == 0 {
        false
    } else if reading {
        p[0] != end
    } else {
        marked_stores(p[0] == start, start, end, p.drop_first())
    }
}

/// Framing of a serial port's text.
pub struct FTSerial<S: SerialPort> {
    serial: S,
    buf: Vec<u8>,
    buf_size: u8,
    ndx: u8,
    reading: bool,
}

impl<S: SerialPort> FTSerial<S> {
    /// The buffer's contents.
    pub closed spec fn spec_buf(&self) -> Seq<u8> {
        self.buf@
    }

    /// The buffer's size.
    pub closed spec fn spec_size(&self) -> u8 {
        self.buf_size
    }

    /// Where the next byte goes.
    pub closed spec fn spec_ndx(&self) -> u8 {
        self.ndx
    }

    /// Whether a marked message is being collected.
    pub closed spec fn spec_reading(&self) -> bool {
        self.reading
    }

    /// What the port holds unread.
    pub closed spec fn pending(&self) -> Seq<u8> {
        self.serial.pending()
    }

    /// The buffer has its size, and the index points into it (or is 0 when
    /// it has no cells).
    pub closed spec fn wf(&self) -> bool {
        &&& self.buf@.len() == self.buf_size
        &&& (self.buf_size == 0 && self.ndx == 0 || self.ndx < self.buf_size)
    }

    /// Framing of `serial` with a buffer of `buffer_size` zero bytes.
    pub fn new(serial: S, buffer_size: u8) -> (r: Self)
        ensures
            r.wf(),
            r.spec_buf() == Seq::new(buffer_size as nat, |i: int| 0u8),
            r.spec_size() == buffer_size,
            r.spec_ndx() == 0,
            !r.spec_reading(),
            r.pending() == serial.pending(),
    {
        FTSerial { serial, buf: vec_of(0u8, buffer_size as usize), buf_size: buffer_size, ndx: 0, reading: false }
    }

    /// The buffer's size, in bytes.
    pub fn buffer_size(&self) -> (r: u8)
        ensures
            r == self.spec_size(),
    {
        self.buf_size
    }

    fn put(&mut self, c: u8)
        requires
            old(self).wf(),
            old(self).buf_size >= 1,
        ensures
            final(self).wf(),
            (final(self).buf@, final(self).ndx) == store(old(self).buf@, old(self).ndx, old(self).buf_size, c),
            final(self).buf_size == old(self).buf_size,
            final(self).reading == old(self).reading,
            final(self).serial == old(self).serial,
    {
        let i = self.ndx as usize;
        self.buf.set(i, c);
        self.ndx = self.ndx + 1;
        if self.ndx >= self.buf_size {
            self.ndx = self.buf_size - 1;
        }
    }

    /// Read until a newline; carriage returns are dropped. Returns the line
    /// (as text) once its newline arrives, and an empty string when the
    /// port ran out first (what came is kept for the next call).
    pub fn read_until_newline(&mut self) -> (r: String)
        requires
            old(self).wf(),
            old(self).spec_size() >= 1 || !line_stores(old(self).pending()),
        ensures
            final(self).wf(),
            ({
                let s = scan_line(old(self).spec_buf(), old(self).spec_ndx(), old(self).spec_size(), old(self).pending());
                &&& final(self).spec_buf() == s.buf
                &&& final(self).spec_ndx() == s.ndx
                &&& final(self).pending() == old(self).pending().skip(s.used as int)
                &&& r@ == match s.frame {
                    Some(l) => lossy_text(l),
                    None => Seq::<char>::empty(),
                }
                &&& (s.frame matches Some(l) ==> (all_ascii(l) ==> r@ == l.map_values(|c: u8| c as char)))
            }),
            final(self).spec_size() == old(self).spec_size(),
            final(self).spec_reading() == old(self).spec_reading(),
    {
        let ghost size = self.buf_size;
        let ghost p0 = self.serial.pending();
        let ghost target = scan_line(self.buf@, self.ndx, size, p0);
        let ghost mut k: nat = 0;
        while self.serial.available() > 0
            invariant
                self.wf(),
                self.buf_size == size,
                size >= 1 || !line_stores(self.serial.pending()),
                self.reading == old(self).reading,
                size == old(self).buf_size,
                p0 == old(self).serial.pending(),
                target == scan_line(old(self).buf@, old(self).ndx, size, p0),
                k <= p0.len(),
                self.serial.pending() == p0.skip(k as int),
                ({
                    let s = scan_line(self.buf@, self.ndx, size, self.serial.pending());
                    &&& s.buf == target.buf
                    &&& s.ndx == target.ndx
                    &&& s.frame == target.frame
                    &&& s.used + k == target.used
                }),
            decreases self.serial.pending().len(),
        {
            let ghost pk = self.serial.pending();
            let c = self.serial.read();
            proof {
                assert(self.serial.pending() =~= p0.skip((k + 1) as int));
                k = k + 1;
            }
            if c == 10u8 {
                let result = text_of(&self.buf.as_slice()[0..self.ndx as usize]);
                proof {
                    assert(self.buf@.subrange(0, self.ndx as int) =~= self.buf@.take(self.ndx as int));
                }
                self.ndx = 0;
                return result;
            }
            if c != 13u8 {
                self.put(c);
            }
        }
        assert(self.serial.pending().len() == 0);
        String::new()
    }

    /// Read a message between `start_marker` and `end_marker`. Returns it
    /// (as text) once its end marker arrives, and an empty string when the
    /// port ran out first (a message begun is kept for the next call).
    pub fn read_with_markers(&mut self, start_marker: u8, end_marker: u8) -> (r: String)
        requires
            old(self).wf(),
            old(self).spec_size() >= 1 || !marked_stores(old(self).spec_reading(), start_marker, end_marker, old(self).pending()),
        ensures
            final(self).wf(),
            ({
                let s = scan_marked(
                    old(self).spec_buf(),
                    old(self).spec_ndx(),
                    old(self).spec_size(),
                    old(self).spec_reading(),
                    start_marker,
                    end_marker,
                    old(self).pending(),
                );
                &&& final(self).spec_buf() == s.buf
                &&& final(self).spec_ndx() == s.ndx
                &&& final(self).spec_reading() == s.reading
                &&& final(self).pending() == old(self).pending().skip(s.used as int)
                &&& r@ == match s.frame {
                    Some(l) => lossy_text(l),
                    None => Seq::<char>::empty(),
                }
                &&& (s.frame matches Some(l) ==> (all_ascii(l) ==> r@ == l.map_values(|c: u8| c as char)))
            }),
            final(self).spec_size() == old(self).spec_size(),
    {
        let ghost size = self.buf_size;
        let ghost p0 = self.serial.pending();
        let ghost target = scan_marked(self.buf@, self.ndx, size, self.reading, start_marker, end_marker, p0);
        let ghost mut k: nat = 0;
        while self.serial.available() > 0
            invariant
                self.wf(),
                self.buf_size == size,
                size >= 1 || !marked_stores(self.reading, start_marker, end_marker, self.serial.pending()),
                size == old(self).buf_size,
                p0 == old(self).serial.pending(),
                target == scan_marked(old(self).buf@, old(self).ndx, size, old(self).reading, start_marker, end_marker, p0),
                k <= p0.len(),
                self.serial.pending() == p0.skip(k as int),
                ({
                    let s = scan_marked(
                        self.buf@,
                        self.ndx,
                        size,
                        self.reading,
                        start_marker,
                        end_marker,
                        self.serial.pending(),
                    );
                    &&& s.buf == target.buf
                    &&& s.ndx == target.ndx
                    &&& s.reading == target.reading
                    &&& s.frame == target.frame
                    &&& s.used + k == target.used
                }),
            decreases self.serial.pending().len(),
        {
            let c = self.serial.read();
            proof {
                assert(self.serial.pending() =~= p0.skip((k + 1) as int));
                k = k + 1;
            }
            if self.reading {
                if c != end_marker {
                    self.put(c);
                } else {
                    let result = text_of(&self.buf.as_slice()[0..self.ndx as usize]);
                    proof {
                        assert(self.buf@.subrange(0, self.ndx as int) =~= self.buf@.take(self.ndx as int));
                    }
                    self.reading = false;
                    self.ndx = 0;
                    return result;
                }
            } else if c == start_marker {
                self.reading = true;
                self.ndx = 0;
            }
        }
        String::new()
    }
}

} // verus!
