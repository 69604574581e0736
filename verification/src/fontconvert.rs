//! The decisions of the TrueType-to-GFX font converter: which character
//! range to convert, the C name of the font tables, the packing of glyph
//! pixels into bytes (most significant bit first) with the layout of the
//! byte table, and the size estimate printed at the end.
use vstd::prelude::*;

verus! {

/// Approximate resolution of the Adafruit 2.8" TFT, in dots per inch.
pub const DPI: u32 = 141;
/// First character converted unless the command line says otherwise.
pub const DEFAULT_FIRST: u32 = 32;
/// Last character converted unless the command line says otherwise.
pub const DEFAULT_LAST: u32 = 126;
/// Bytes of the table on one output line.
pub const BYTES_PER_LINE: u32 = 12;

/// The character range from the command line: `arg_count` words in all,
/// with the third and fourth parsed as numbers where they parse. Four
/// words give the last character, five the first and the last; a word
/// that does not parse keeps the default. The range is put in order.
pub open spec fn range_spec(arg_count: int, third: Option<u32>, fourth: Option<u32>) -> (u32, u32) {
    let (first, last) = if arg_count == 4 {
        (DEFAULT_FIRST, match third { Some(v) => v, None => DEFAULT_LAST })
    } else if arg_count == 5 {
        (match third { Some(v) => v, None => DEFAULT_FIRST }, match fourth { Some(v) => v, None => DEFAULT_LAST })
    } else {
        (DEFAULT_FIRST, DEFAULT_LAST)
    };
    if last < first {
        (last, first)
    } else {
        (first, last)
    }
}

/// The range of characters to convert.
pub fn char_range(arg_count: usize, third: Option<u32>, fourth: Option<u32>) -> (r: (u32, u32))
    ensures
        r == range_spec(arg_count as int, third, fourth),
        r.0 <= r.1,
{
    let mut first: u32 = DEFAULT_FIRST;
    let mut last: u32 = DEFAULT_LAST;
    if arg_count == 4 {
        if let Some(v) = third {
            last = v;
        }
    } else if arg_count == 5 {
        if let Some(v) = third {
            first = v;
        }
        if let Some(v) = fourth {
            last = v;
        }
    }
    if last < first {
        (last, first)
    } else {
        (first, last)
    }
}

/// Whether `c` has the Unicode White_Space property.
pub open spec fn white_space(c: char) -> bool {
    let v = c as u32;
    ||| 0x09 <= v <= 0x0D
    ||| v == 0x20
    ||| v == 0x85
    ||| v == 0xA0
    ||| v == 0x1680
    ||| 0x2000 <= v <= 0x200A
    ||| v == 0x2028
    ||| v == 0x2029
    ||| v == 0x202F
    ||| v == 0x205F
    ||| v == 0x3000
}

/// Whether `c` is ASCII punctuation.
pub open spec fn ascii_punct(c: char) -> bool {
    let v = c as u32;
    ||| 0x21 <= v <= 0x2F
    ||| 0x3A <= v <= 0x40
    ||| 0x5B <= v <= 0x60
    ||| 0x7B <= v <= 0x7E
}

/// The character that stands for `c` in a C identifier.
pub open spec fn name_char(c: char) -> char {
    if white_space(c) || ascii_punct(c) {
        '_'
    } else {
        c
    }
}

fn to_name_char(c: char) -> (r: char)
    ensures
        r == name_char(c),
{
    let v = c as u32;
    let space = (0x09 <= v && v <= 0x0D) || v == 0x20 || v == 0x85 || v == 0xA0 || v == 0x1680 || (0x2000
        <= v && v <= 0x200A) || v == 0x2028 || v == 0x2029 || v == 0x202F || v == 0x205F || v == 0x3000;
    let punct = (0x21 <= v && v <= 0x2F) || (0x3A <= v && v <= 0x40) || (0x5B <= v && v <= 0x60) || (0x7B <= v
        && v <= 0x7E);
    if space || punct {
        '_'
    } else {
        c
    }
}

/// The decimal digits of `n`, without leading zeros.
pub open spec fn decimal(n: nat) -> Seq<char>
    decreases n,
{
    if n < 10 {
        seq![(48 + n) as char]
    } else {
        decimal(n / 10).push((48 + n % 10) as char)
    }
}

/// Appends the decimal digits of `n` to `out`.
fn push_decimal(out: &mut Vec<char>, n: u32)
    ensures
        final(out)@ == old(out)@ + decimal(n as nat),
    decreases n,
{
    if n >= 10 {
        push_decimal(out, n / 10);
    }
    let d: u8 = (n % 10) as u8;
    out.push((48u8 + d) as char);
    proof {
        if n < 10 {
            assert(decimal(n as nat) =~= seq![(48 + n) as char]);
        } else {
            assert(decimal(n as nat) == decimal((n / 10) as nat).push((48 + n % 10) as char));
        }
    }
}

/// The width label of a font: 8 bits when it goes past 127, else 7.
pub open spec fn bit_label(last: u32) -> nat {
    if last > 127 {
        8
    } else {
        7
    }
}

/// The C name of a font's tables: the file's stem, the point size, "pt",
/// the width label and "b", with blanks and punctuation made underscores.
pub open spec fn font_name_spec(stem: Seq<char>, size: u32, last: u32) -> Seq<char> {
    (stem + decimal(size as nat) + seq!['p', 't'] + decimal(bit_label(last)) + seq!['b']).map_values(
        |c: char| name_char(c),
    )
}

/// The C name of the font tables for `stem` at `size` points up to `last`.
pub fn font_name(stem: &Vec<char>, size: u32, last: u32) -> (r: Vec<char>)
    ensures
        r@ == font_name_spec(stem@, size, last),
{
    let mut raw: Vec<char> = Vec::new();
    let mut i: usize = 0;
    while i < stem.len()
        invariant
            i <= stem@.len(),
            raw@ == stem@.take(i as int),
        decreases stem.len() - i,
    {
        raw.push(stem[i]);
        i += 1;
        assert(raw@ =~= stem@.take(i as int));
    }
    assert(raw@ =~= stem@);
    push_decimal(&mut raw, size);
    raw.push('p');
    raw.push('t');
    let label: u32 = if last > 127 {
        8
    } else {
        7
    };
    push_decimal(&mut raw, label);
    raw.push('b');
    let ghost full = stem@ + decimal(size as nat) + seq!['p', 't'] + decimal(bit_label(last)) + seq!['b'];
    assert(raw@ =~= full);
    let mut out: Vec<char> = Vec::new();
    let mut j: usize = 0;
    while j < raw.len()
        invariant
            j <= raw@.len(),
            raw@ == full,
            out@ == full.take(j as int).map_values(|c: char| name_char(c)),
        decreases raw.len() - j,
    {
        out.push(to_name_char(raw[j]));
        j += 1;
        assert(out@ =~= full.take(j as int).map_values(|c: char| name_char(c)));
    }
    assert(full.take(j as int) =~= full);
    out
}

/// The part of a path after its last '/'.
pub open spec fn base_name(path: Seq<char>) -> Seq<char> {
    if exists|i: int| 0 <= i < path.len() && path[i] == '/' {
        path.skip(
            (choose|i: int|
                0 <= i < path.len() && path[i] == '/' && forall|j: int| i < j < path.len() ==> path[j] != '/')
                + 1,
        )
    } else {
        path
    }
}

/// The part of a file name before its first '.'.
pub open spec fn stem_of(name: Seq<char>) -> Seq<char> {
    if exists|i: int| 0 <= i < name.len() && name[i] == '.' {
        name.take(
            choose|i: int| 0 <= i < name.len() && name[i] == '.' && forall|j: int| 0 <= j < i ==> name[j] != '.',
        )
    } else {
        name
    }
}

/// The stem of the font file at `path`: its name without directories and
/// without anything from the first '.' on.
pub fn font_stem(path: &Vec<char>) -> (r: Vec<char>)
    ensures
        r@ == stem_of(base_name(path@)),
{
    let n = path.len();
    let mut start: usize = n;
    let mut found: bool = false;
    while start > 0
        invariant
            start <= n,
            n == path@.len(),
            forall|j: int| start <= j < n ==> path@[j] != '/',
        ensures
            start <= n,
            forall|j: int| start <= j < n ==> path@[j] != '/',
            start == 0 || path@[start - 1] == '/',
        decreases start,
    {
        if path[start - 1] == '/' {
            found = true;
            break;
        }
        start -= 1;
    }
    let ghost p = path@;
    proof {
        if start > 0 && p[start - 1] == '/' {
            let k = choose|i: int| 0 <= i < p.len() && p[i] == '/' && forall|j: int| i < j < p.len() ==> p[j] != '/';
            assert(0 <= k < p.len() && p[k] == '/' && forall|j: int| k < j < p.len() ==> p[j] != '/');
            assert(k == start - 1) by {
                if k < start - 1 {
                    assert(p[start - 1] != '/');
                } else if k > start - 1 {
                    assert(p[k] != '/');
                }
            }
            assert(base_name(p) == p.skip(start as int));
        } else {
            assert(start == 0);
            assert(base_name(p) == p) by {
                assert(!(exists|i: int| 0 <= i < p.len() && p[i] == '/'));
            }
            assert(p.skip(0) =~= p);
        }
    }
    let ghost base = p.skip(start as int);
    let mut out: Vec<char> = Vec::new();
    let mut i: usize = start;
    while i < n
        invariant
            start <= i <= n,
            n == p.len(),
            p == path@,
            base == p.skip(start as int),
            out@ == base.take(i - start),
            forall|j: int| 0 <= j < i - start ==> base[j] != '.',
        ensures
            start <= i <= n,
            out@ == base.take(i - start),
            forall|j: int| 0 <= j < i - start ==> base[j] != '.',
            i == n || path@[i as int] == '.',
        decreases n - i,
    {
        if path[i] == '.' {
            break;
        }
        out.push(path[i]);
        i += 1;
        assert(out@ =~= base.take(i - start));
    }
    proof {
        let m = (i - start) as int;
        if i < n {
            assert(base[m] == '.');
            let k = choose|x: int| 0 <= x < base.len() && base[x] == '.' && forall|j: int| 0 <= j < x ==> base[j] != '.';
            assert(0 <= k < base.len() && base[k] == '.' && forall|j: int| 0 <= j < k ==> base[j] != '.');
            assert(k == m) by {
                if k < m {
                    assert(base[k] != '.');
                } else if k > m {
                    assert(base[m] != '.');
                }
            }
        } else {
            assert(!(exists|x: int| 0 <= x < base.len() && base[x] == '.'));
            assert(base.take(m) =~= base);
        }
    }
    out
}

/// Where a finished byte goes in the printed table.
#[derive(Clone, Copy, Debug, PartialEq, Eq, Structural)]
pub enum Separator {
    /// The first byte: nothing before it.
    Start,
    /// ", " before the byte.
    Comma,
    /// ",\n  " before the byte: it starts a new line.
    CommaNewline,
}

/// The bits of `s`, at most eight, packed into a byte from the most
/// significant bit down.
pub open spec fn pack(s: Seq<bool>) -> u8
    decreases s.len(),
{
    if s.len() == 0 {
        0
    } else {
        pack(s.drop_last()) | (if s.last() {
            0x80u8 >> ((s.len() - 1) as u8)
        } else {
            0u8
        })
    }
}

/// What the accumulator holds: the entries on the current line after the
/// first, whether no byte has been written yet, and the bits of the byte
/// being built.
pub struct AccView {
    pub row: u32,
    pub first_call: bool,
    pub pending: Seq<bool>,
}

/// One bit into the accumulator: the state after it, and the byte it
/// finished, with what goes before that byte.
pub open spec fn enbit_next(a: AccView, value: bool) -> (AccView, Option<(Separator, u8)>) {
    let p = a.pending.push(value);
    if p.len() < 8 {
        (AccView { pending: p, ..a }, None)
    } else if a.first_call {
        (AccView { row: a.row, first_call: false, pending: seq![] }, Some((Separator::Start, pack(p))))
    } else if a.row + 1 >= BYTES_PER_LINE {
        (AccView { row: 0, first_call: false, pending: seq![] }, Some((Separator::CommaNewline, pack(p))))
    } else {
        (
            AccView { row: (a.row + 1) as u32, first_call: false, pending: seq![] },
            Some((Separator::Comma, pack(p))),
        )
    }
}

/// A sequence of bits into the accumulator: the state after them, and the
/// bytes they finished in order.
pub open spec fn feed(a: AccView, bits: Seq<bool>) -> (AccView, Seq<(Separator, u8)>)
    decreases bits.len(),
{
    if bits.len() == 0 {
        (a, seq![])
    } else {
        let (a1, out1) = feed(a, bits.drop_last());
        let (a2, o) = enbit_next(a1, bits.last());
        (
            a2,
            match o {
                Some(x) => out1.push(x),
                None => out1,
            },
        )
    }
}

/// Collects glyph pixels into bytes for the output table.
pub struct BitAccumulator {
    row: u32,
    sum: u8,
    bit: u8,
    first_call: bool,
    pending: Ghost<Seq<bool>>,
}

proof fn lemma_bit_walk(k: u8)
    by (bit_vector)
    requires
        k < 8,
    ensures
        (0x80u8 >> k) >> 1u8 == 0x80u8 >> ((k + 1) as u8),
        0x80u8 >> k != 0u8,
        0x80u8 >> 8u8 == 0u8,
        0x80u8 >> 0u8 == 0x80u8,
{
}

impl BitAccumulator {
    /// The abstract state.
    pub closed spec fn view(&self) -> AccView {
        AccView { row: self.row, first_call: self.first_call, pending: self.pending@ }
    }

    /// The byte being built holds exactly the pending bits, and the row
    /// count stays below a full line.
    pub closed spec fn wf(&self) -> bool {
        &&& self.pending@.len() < 8
        &&& self.bit == 0x80u8 >> (self.pending@.len() as u8)
        &&& self.sum == pack(self.pending@)
        &&& self.row < BYTES_PER_LINE
    }

    /// An empty accumulator before the first byte.
    pub fn new() -> (r: Self)
        ensures
            r.wf(),
            r.view() == (AccView { row: 0, first_call: true, pending: seq![] }),
    {
        proof {
            lemma_bit_walk(0);
        }
        BitAccumulator { row: 0, sum: 0, bit: 0x80, first_call: true, pending: Ghost(Seq::empty()) }
    }

    /// Adds one pixel bit; when it completes a byte, returns that byte with
    /// the separator to print before it.
    pub fn enbit(&mut self, value: bool) -> (r: Option<(Separator, u8)>)
        requires
            old(self).wf(),
        ensures
            final(self).wf(),
            (final(self).view(), r) == enbit_next(old(self).view(), value),
    {
        let ghost p = self.pending@.push(value);
        proof {
            lemma_bit_walk(self.pending@.len() as u8);
            lemma_bit_of_or(self.sum, 0, 0);
            if p.len() < 8 {
                lemma_bit_walk(p.len() as u8);
            }
            assert(p.drop_last() =~= self.pending@);
        }
        if value {
            self.sum = self.sum | self.bit;
        }
        self.bit = self.bit >> 1;
        self.pending = Ghost(p);
        assert(self.sum == pack(p));
        if self.bit == 0 {
            let sep = if !self.first_call {
                self.row += 1;
                if self.row >= BYTES_PER_LINE {
                    self.row = 0;
                    Separator::CommaNewline
                } else {
                    Separator::Comma
                }
            } else {
                Separator::Start
            };
            let byte = self.sum;
            self.sum = 0;
            self.bit = 0x80;
            self.first_call = false;
            self.pending = Ghost(Seq::empty());
            proof {
                lemma_bit_walk(0);
                assert(self.pending@ =~= seq![]);
            }
            Some((sep, byte))
        } else {
            None
        }
    }
}

proof fn lemma_bit_of_or(x: u8, k: u8, j: u8)
    by (bit_vector)
    requires
        k < 8,
        j < 8,
    ensures
        ((x | (0x80u8 >> k)) >> ((7 - j) as u8)) & 1u8 == (if j == k {
            1u8
        } else {
            (x >> ((7 - j) as u8)) & 1u8
        }),
        (0u8 >> ((7 - j) as u8)) & 1u8 == 0u8,
        x | 0u8 == x,
{
}

/// Bit `7 - i` of the packed byte is the `i`-th bit given, and the bits
/// past the given ones are clear: the first bit lands in the most
/// significant place.
pub proof fn lemma_pack_msb_first(s: Seq<bool>, i: int)
    requires
        s.len() <= 8,
        0 <= i < 8,
    ensures
        ((pack(s) >> ((7 - i) as u8)) & 1u8 == 1u8) == (i < s.len() && s[i]),
    decreases s.len(),
{
    if s.len() == 0 {
        lemma_bit_of_or(0, 0, i as u8);
    } else {
        let n = s.len() - 1;
        lemma_pack_msb_first(s.drop_last(), i);
        let x = pack(s.drop_last());
        lemma_bit_of_or(x, n as u8, i as u8);
    }
}

proof fn lemma_feed_prefix(a: AccView, bits: Seq<bool>, k: int)
    requires
        a.pending.len() == 0,
        bits.len() == 8,
        0 <= k < 8,
    ensures
        feed(a, bits.take(k)) == (AccView { pending: bits.take(k), ..a }, Seq::<(Separator, u8)>::empty()),
    decreases k,
{
    if k == 0 {
        assert(bits.take(0) =~= Seq::<bool>::empty());
        assert(a.pending =~= Seq::<bool>::empty());
    } else {
        lemma_feed_prefix(a, bits, k - 1);
        assert(bits.take(k).drop_last() =~= bits.take(k - 1));
        assert(bits.take(k - 1).push(bits.take(k).last()) =~= bits.take(k));
    }
}

/// From a byte boundary, eight bits finish exactly one byte, holding those
/// bits from the most significant down, and leave no bit pending.
pub proof fn lemma_eight_bits_one_byte(a: AccView, bits: Seq<bool>)
    requires
        a.pending.len() == 0,
        bits.len() == 8,
    ensures
        feed(a, bits).0.pending.len() == 0,
        feed(a, bits).1.len() == 1,
        feed(a, bits).1[0].1 == pack(bits),
        forall|i: int| 0 <= i < 8 ==> (((pack(bits) >> ((7 - i) as u8)) & 1u8 == 1u8) == bits[i]),
{
    lemma_feed_prefix(a, bits, 7);
    assert(bits.drop_last() =~= bits.take(7));
    assert(bits.take(7).push(bits.last()) =~= bits);
    assert forall|i: int| 0 <= i < 8 implies (((pack(bits) >> ((7 - i) as u8)) & 1u8 == 1u8) == bits[i]) by {
        lemma_pack_msb_first(bits, i);
    }
}

/// The size estimate printed under the tables: the bitmap bytes, seven
/// bytes per glyph and seven for the font record.
pub fn approx_bytes(bitmap_offset: u32, first: u32, last: u32) -> (r: u32)
    requires
        first <= last,
        bitmap_offset + (last - first + 1) * 7 + 7 <= u32::MAX,
    ensures
        r == bitmap_offset + (last - first + 1) * 7 + 7,
{
    bitmap_offset + (last - first + 1) * 7 + 7
}

} // verus!
