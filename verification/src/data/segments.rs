//! The segments of a baseline JPEG file: the frame header, the tables and
//! the place where the scan begins.

use vstd::prelude::*;
use vstd::string::*;
use crate::error::BellandeError;

verus! {

/// What the segments of a file say, as far as decoding needs it: the
/// extents of the image, the number of its components, the quantization
/// and Huffman tables in the order in which the file defines them, and the
/// position of the first byte of the scan.
///
/// A quantization table is the byte that holds its precision and
/// identifier, followed by its values. A Huffman table is the byte that
/// holds its class and identifier, followed by the sixteen counts of codes
/// of each length and by the symbols.
#[derive(Debug)]
pub struct JpegPlan {
    pub width: usize,
    pub height: usize,
    pub components: usize,
    pub quantization: Vec<Vec<u8>>,
    pub huffman: Vec<Vec<u8>>,
    pub scan: usize,
}

/// The mathematical form of a plan.
pub struct PlanView {
    pub width: int,
    pub height: int,
    pub components: int,
    pub quantization: Seq<Seq<u8>>,
    pub huffman: Seq<Seq<u8>>,
    pub scan: int,
}

/// Why the segments of a file cannot be read.
#[derive(Clone, Copy, Debug, PartialEq, Eq, Structural)]
pub enum Fault {
    /// The file does not begin with the start-of-image marker.
    NotJpeg,
    /// The file ends where a marker is expected.
    NoMarker,
    /// A marker does not begin with the byte `0xFF`.
    InvalidMarker,
    /// A segment is cut short or gives a length of less than two.
    Truncated,
    /// The samples do not have eight bits.
    Precision,
    /// A table is shorter than it says.
    Table,
    /// The image ends before a scan begins.
    NoScan,
}

impl Fault {
    /// The message that reports the fault.
    pub open spec fn text(self) -> Seq<char> {
        match self {
            Fault::NotJpeg => "Not a valid JPEG file"@,
            Fault::NoMarker => "Failed to read marker"@,
            Fault::InvalidMarker => "Invalid marker"@,
            Fault::Truncated => "Segment cut short"@,
            Fault::Precision => "Only 8-bit precision supported"@,
            Fault::Table => "Table cut short"@,
            Fault::NoScan => "Failed to decode JPEG"@,
        }
    }

    /// The error that reports the fault.
    pub fn error(self) -> (e: BellandeError)
        ensures
            e matches BellandeError::ImageError(m) && m@ == self.text(),
    {
        BellandeError::ImageError(
            match self {
                Fault::NotJpeg => String::from_str("Not a valid JPEG file"),
                Fault::NoMarker => String::from_str("Failed to read marker"),
                Fault::InvalidMarker => String::from_str("Invalid marker"),
                Fault::Truncated => String::from_str("Segment cut short"),
                Fault::Precision => String::from_str("Only 8-bit precision supported"),
                Fault::Table => String::from_str("Table cut short"),
                Fault::NoScan => String::from_str("Failed to decode JPEG"),
            },
        )
    }
}

/// The tables as sequences of bytes.
pub open spec fn tables_view(tables: Seq<Vec<u8>>) -> Seq<Seq<u8>> {
    Seq::new(tables.len(), |i: int| tables[i]@)
}

impl JpegPlan {
    pub open spec fn view(&self) -> PlanView {
        PlanView {
            width: self.width as int,
            height: self.height as int,
            components: self.components as int,
            quantization: tables_view(self.quantization@),
            huffman: tables_view(self.huffman@),
            scan: self.scan as int,
        }
    }
}

/// The number that two bytes denote, the first the more significant.
pub open spec fn be16(high: u8, low: u8) -> int {
    high * 256 + low
}

/// The sum of the `n` bytes from `from` on.
pub open spec fn sum_from(bytes: Seq<u8>, from: int, n: nat) -> int
    decreases n,
{
    if n == 0 {
        0
    } else {
        sum_from(bytes, from, (n - 1) as nat) + bytes[from + n - 1]
    }
}

/// Where the payload of the segment ends whose length field begins at
/// `at`: the length counts its own two bytes and the payload. `None` where
/// the length cannot be read, is less than two, or leads past the end of
/// the file.
pub open spec fn segment_end(bytes: Seq<u8>, at: int) -> Option<int> {
    if at < 0 || at + 2 > bytes.len() {
        None
    } else {
        let length = be16(bytes[at], bytes[at + 1]);
        if length < 2 || at + length > bytes.len() {
            None
        } else {
            Some(at + length)
        }
    }
}

/// The number of values of the quantization table whose first byte is
/// `head`: 64 of one byte each, or 64 of two bytes each.
pub open spec fn quantization_size(head: u8) -> int {
    if (head >> 4) & 0x0f == 0 {
        64
    } else {
        128
    }
}

/// What the segments from position `pos` on add to `plan`.
///
/// Every segment begins with `0xFF` and a byte that says what it is:
/// - `0xC0`, the frame: a length, the precision, which must be eight, the
///   height and the width in two bytes each, the number of components, and
///   three bytes for every component;
/// - `0xDB`, a quantization table, and `0xC4`, a Huffman table: a length
///   and the table, of which as much is kept as the table itself says;
/// - `0xDA`, the scan: a length and a header, after which the scan begins
///   and the plan is complete;
/// - `0xD9`, the end of the image, which comes too early;
/// - anything else: a length and a payload that is passed over.
pub open spec fn segments_from(bytes: Seq<u8>, pos: int, plan: PlanView) -> Result<PlanView, Fault>
    decreases
        (if pos <= bytes.len() {
            bytes.len() - pos
        } else {
            0
        }),
{
    if pos < 0 || pos + 2 > bytes.len() {
        Err(Fault::NoMarker)
    } else if bytes[pos] != 0xFF {
        Err(Fault::InvalidMarker)
    } else {
        let kind = bytes[pos + 1];
        let at = pos + 2;
        if kind == 0xD9 {
            Err(Fault::NoScan)
        } else if kind == 0xC0 {
            if at + 8 > bytes.len() {
                Err(Fault::Truncated)
            } else if bytes[at + 2] != 8 {
                Err(Fault::Precision)
            } else if at + 8 + 3 * bytes[at + 7] > bytes.len() {
                Err(Fault::Truncated)
            } else {
                segments_from(
                    bytes,
                    at + 8 + 3 * bytes[at + 7],
                    PlanView {
                        height: be16(bytes[at + 3], bytes[at + 4]),
                        width: be16(bytes[at + 5], bytes[at + 6]),
                        components: bytes[at + 7] as int,
                        ..plan
                    },
                )
            }
        } else {
            match segment_end(bytes, at) {
                None => Err(Fault::Truncated),
                Some(end) => {
                    let start = at + 2;
                    if kind == 0xDB {
                        if start >= end || start + 1 + quantization_size(bytes[start]) > end {
                            Err(Fault::Table)
                        } else {
                            segments_from(
                                bytes,
                                end,
                                PlanView {
                                    quantization: plan.quantization.push(
                                        bytes.subrange(
                                            start,
                                            start + 1 + quantization_size(bytes[start]),
                                        ),
                                    ),
                                    ..plan
                                },
                            )
                        }
                    } else if kind == 0xC4 {
                        if start + 17 > end || start + 17 + sum_from(bytes, start + 1, 16) > end {
                            Err(Fault::Table)
                        } else {
                            segments_from(
                                bytes,
                                end,
                                PlanView {
                                    huffman: plan.huffman.push(
                                        bytes.subrange(
                                            start,
                                            start + 17 + sum_from(bytes, start + 1, 16),
                                        ),
                                    ),
                                    ..plan
                                },
                            )
                        }
                    } else if kind == 0xDA {
                        Ok(PlanView { scan: end, ..plan })
                    } else {
                        segments_from(bytes, end, plan)
                    }
                },
            }
        }
    }
}

/// The plan that nothing has been read into.
pub open spec fn empty_plan() -> PlanView {
    PlanView {
        width: 0,
        height: 0,
        components: 0,
        quantization: Seq::empty(),
        huffman: Seq::empty(),
        scan: 0,
    }
}

/// What the segments of a file say: the file begins with the
/// start-of-image marker `0xFF 0xD8`, and its segments follow.
pub open spec fn segments_of(bytes: Seq<u8>) -> Result<PlanView, Fault> {
    if bytes.len() < 2 || bytes[0] != 0xFF || bytes[1] != 0xD8 {
        Err(Fault::NotJpeg)
    } else {
        segments_from(bytes, 2, empty_plan())
    }
}

/// Whether `r` is what the segments of a file say: the plan, or the error
/// that reports the fault.
pub open spec fn read_as(r: Result<JpegPlan, BellandeError>, said: Result<PlanView, Fault>) -> bool {
    match r {
        Ok(plan) => said == Ok::<PlanView, Fault>(plan@),
        Err(e) => said matches Err(f) && e matches BellandeError::ImageError(m) && m@ == f.text(),
    }
}

fn slice_of(bytes: &Vec<u8>, from: usize, to: usize) -> (r: Vec<u8>)
    requires
        from <= to <= bytes@.len(),
    ensures
        r@ == bytes@.subrange(from as int, to as int),
{
    let mut r: Vec<u8> = Vec::new();
    let mut i: usize = from;
    while i < to
        invariant
            from <= i <= to,
            to <= bytes@.len(),
            r@ == bytes@.subrange(from as int, i as int),
        decreases to - i,
    {
        r.push(bytes[i]);
        assert(r@ =~= bytes@.subrange(from as int, i + 1));
        i = i + 1;
    }
    r
}

fn sum_of(bytes: &Vec<u8>, from: usize, n: usize) -> (r: usize)
    requires
        from + n <= bytes@.len(),
        n <= 16,
    ensures
        r == sum_from(bytes@, from as int, n as nat),
        r <= 255 * n,
{
    let len = bytes.len();
    let mut r: usize = 0;
    let mut i: usize = 0;
    while i < n
        invariant
            i <= n,
            n <= 16,
            len == bytes@.len(),
            from + n <= bytes@.len(),
            r == sum_from(bytes@, from as int, i as nat),
            r <= 255 * i,
        decreases n - i,
    {
        r = r + bytes[from + i] as usize;
        i = i + 1;
    }
    r
}

fn end_of(bytes: &Vec<u8>, at: usize) -> (r: Option<usize>)
    requires
        at <= bytes@.len(),
    ensures
        match r {
            Some(end) => segment_end(bytes@, at as int) == Some(end as int) && at + 2 <= end
                <= bytes@.len(),
            None => segment_end(bytes@, at as int) is None,
        },
{
    let n = bytes.len();
    if n - at < 2 {
        return None;
    }
    let length: usize = bytes[at] as usize * 256 + bytes[at + 1] as usize;
    if length < 2 || length > n - at {
        return None;
    }
    Some(at + length)
}

/// Reads the segments of a JPEG file up to the beginning of its scan.
///
/// Fails with `ImageError` and the text of the fault where the file does
/// not begin as a JPEG file, a marker or a segment is missing or cut
/// short, the samples do not have eight bits, or the image ends before a
/// scan begins.
pub fn read_segments(bytes: &Vec<u8>) -> (r: Result<JpegPlan, BellandeError>)
    ensures
        read_as(r, segments_of(bytes@)),
{
    let n = bytes.len();
    if n < 2 || bytes[0] != 0xFF || bytes[1] != 0xD8 {
        return Err(Fault::NotJpeg.error());
    }
    let mut plan = JpegPlan {
        width: 0,
        height: 0,
        components: 0,
        quantization: Vec::new(),
        huffman: Vec::new(),
        scan: 0,
    };
    assert(plan@.quantization =~= Seq::<Seq<u8>>::empty());
    assert(plan@.huffman =~= Seq::<Seq<u8>>::empty());
    assert(plan@ == empty_plan());
    let mut pos: usize = 2;
    loop
        invariant
            n == bytes@.len(),
            2 <= pos <= n,
            segments_of(bytes@) == segments_from(bytes@, pos as int, plan@),
        decreases n - pos,
    {
        if n - pos < 2 {
            return Err(Fault::NoMarker.error());
        }
        if bytes[pos] != 0xFF {
            return Err(Fault::InvalidMarker.error());
        }
        let kind = bytes[pos + 1];
        let at = pos + 2;
        if kind == 0xD9 {
            return Err(Fault::NoScan.error());
        }
        if kind == 0xC0 {
            if n - at < 8 {
                return Err(Fault::Truncated.error());
            }
            if bytes[at + 2] != 8 {
                return Err(Fault::Precision.error());
            }
            let components = bytes[at + 7] as usize;
            if n - at - 8 < 3 * components {
                return Err(Fault::Truncated.error());
            }
            plan.height = bytes[at + 3] as usize * 256 + bytes[at + 4] as usize;
            plan.width = bytes[at + 5] as usize * 256 + bytes[at + 6] as usize;
            plan.components = components;
            pos = at + 8 + 3 * components;
        } else {
            let end = match end_of(bytes, at) {
                Some(e) => e,
                None => {
                    return Err(Fault::Truncated.error());
                },
            };
            let start = at + 2;
            if kind == 0xDB {
                if start >= end {
                    return Err(Fault::Table.error());
                }
                let size: usize = if (bytes[start] >> 4) & 0x0f == 0 {
                    64
                } else {
                    128
                };
                if end - start < 1 + size {
                    return Err(Fault::Table.error());
                }
                let table = slice_of(bytes, start, start + 1 + size);
                let ghost before = plan.quantization@;
                plan.quantization.push(table);
                assert(tables_view(plan.quantization@) =~= tables_view(before).push(table@));
                pos = end;
            } else if kind == 0xC4 {
                if end - start < 17 {
                    return Err(Fault::Table.error());
                }
                let total = sum_of(bytes, start + 1, 16);
                if end - start - 17 < total {
                    return Err(Fault::Table.error());
                }
                let table = slice_of(bytes, start, start + 17 + total);
                let ghost before = plan.huffman@;
                plan.huffman.push(table);
                assert(tables_view(plan.huffman@) =~= tables_view(before).push(table@));
                pos = end;
            } else if kind == 0xDA {
                plan.scan = end;
                return Ok(plan);
            } else {
                pos = end;
            }
        }
    }
}

/// The entries of the first `count` codes of one length: every entry is
/// the length, the low byte of the code, and the symbol. The codes of one
/// length follow one another from `code` on, and their symbols stand in
/// the table from position `first` on.
pub open spec fn entries(table: Seq<u8>, length: u8, code: int, first: int, count: nat) -> Seq<u8>
    decreases count,
{
    if count == 0 {
        Seq::empty()
    } else {
        entries(table, length, code, first, (count - 1) as nat) + seq![
            length,
            ((code + count - 1) % 256) as u8,
            table[first + count - 1],
        ]
    }
}

/// The entries of the codes of the lengths up to `length`, the low byte of
/// the code that the next length begins with, and the position of its first
/// symbol. The codes are the canonical ones: they count up within a length
/// and are doubled from one length to the next.
pub open spec fn codes_upto(table: Seq<u8>, length: nat) -> (Seq<u8>, int, int)
    decreases length,
{
    if length == 0 {
        (Seq::empty(), 0, 17)
    } else {
        let before = codes_upto(table, (length - 1) as nat);
        let count = table[length as int];
        (
            before.0 + entries(table, length as u8, before.1, before.2, count as nat),
            ((before.1 + count) * 2) % 256,
            before.2 + count,
        )
    }
}

/// The Huffman table as `(length, code, symbol)` entries, ordered by
/// length, with the low byte of every code.
pub open spec fn code_entries(table: Seq<u8>) -> Seq<u8> {
    codes_upto(table, 16).0
}

proof fn lemma_codes_upto(table: Seq<u8>, length: nat)
    requires
        length <= 16,
    ensures
        0 <= codes_upto(table, length).1 < 256,
        codes_upto(table, length).2 == 17 + sum_from(table, 1, length),
        codes_upto(table, length).0.len() == 3 * sum_from(table, 1, length),
    decreases length,
{
    if length > 0 {
        lemma_codes_upto(table, (length - 1) as nat);
        let before = codes_upto(table, (length - 1) as nat);
        lemma_entries_len(table, length as u8, before.1, before.2, table[length as int] as nat);
    }
}

proof fn lemma_entries_len(table: Seq<u8>, length: u8, code: int, first: int, count: nat)
    ensures
        entries(table, length, code, first, count).len() == 3 * count,
    decreases count,
{
    if count > 0 {
        lemma_entries_len(table, length, code, first, (count - 1) as nat);
    }
}

/// Whether a Huffman table holds its counts and as many symbols as they
/// say.
pub open spec fn complete(table: Seq<u8>) -> bool {
    table.len() >= 17 && table.len() >= 17 + sum_from(table, 1, 16)
}

/// Makes the `(length, code, symbol)` entries of a Huffman table as a plan
/// holds it: the byte of its class and identifier, the sixteen counts of
/// codes of each length, and the symbols.
///
/// Fails with `ImageError` where the table holds fewer symbols than its
/// counts say.
pub fn code_table(table: &Vec<u8>) -> (r: Result<Vec<u8>, BellandeError>)
    ensures
        complete(table@) ==> (r matches Ok(t) && t@ == code_entries(table@) && t@.len() == 3
            * sum_from(table@, 1, 16)),
        !complete(table@) ==> (r matches Err(BellandeError::ImageError(m)) && m@
            == Fault::Table.text()),
{
    let n = table.len();
    if n < 17 {
        return Err(Fault::Table.error());
    }
    let total = sum_of(table, 1, 16);
    if n - 17 < total {
        return Err(Fault::Table.error());
    }
    let mut out: Vec<u8> = Vec::new();
    let mut code: usize = 0;
    let mut first: usize = 17;
    let mut length: u8 = 0;
    while length < 16
        invariant
            length <= 16,
            n == table@.len(),
            n >= 17,
            n >= 17 + sum_from(table@, 1, 16),
            (out@, code as int, first as int) == codes_upto(table@, length as nat),
            code < 256,
            first == 17 + sum_from(table@, 1, length as nat),
        decreases 16 - length,
    {
        length = length + 1;
        let count = table[length as usize] as usize;
        proof {
            lemma_sum_grows(table@, 1, length as nat, 16);
        }
        let ghost before = out@;
        let mut j: usize = 0;
        while j < count
            invariant
                j <= count,
                count <= 255,
                code < 256,
                n == table@.len(),
                first + count <= n,
                out@ == before + entries(table@, length, code as int, first as int, j as nat),
            decreases count - j,
        {
            out.push(length);
            out.push(((code + j) % 256) as u8);
            out.push(table[first + j]);
            assert(out@ =~= before + entries(
                table@,
                length,
                code as int,
                first as int,
                (j + 1) as nat,
            ));
            j = j + 1;
        }
        code = ((code + count) * 2) % 256;
        first = first + count;
    }
    proof {
        lemma_codes_upto(table@, 16);
    }
    Ok(out)
}

/// A sum of bytes does not shrink when more bytes are added.
proof fn lemma_sum_grows(bytes: Seq<u8>, from: int, n: nat, m: nat)
    requires
        n <= m,
    ensures
        sum_from(bytes, from, n) <= sum_from(bytes, from, m),
        0 <= sum_from(bytes, from, n),
    decreases m,
{
    if n < m {
        lemma_sum_grows(bytes, from, n, (m - 1) as nat);
    } else if n > 0 {
        lemma_sum_grows(bytes, from, (n - 1) as nat, (n - 1) as nat);
    }
}

/// Whether a table is the one asked for: its first byte holds the
/// identifier in its low half and, where a class is asked for, the class
/// in its high half.
pub open spec fn is_table(table: Seq<u8>, class: Option<u8>, id: u8) -> bool {
    &&& table.len() > 0
    &&& table[0] & 0x0f == id
    &&& class matches Some(c) ==> (table[0] >> 4) & 0x0f == c
}

/// The position of the last of the first `n` tables that is the one asked
/// for: a later definition of a table replaces an earlier one.
pub open spec fn last_table(tables: Seq<Seq<u8>>, class: Option<u8>, id: u8, n: nat) -> Option<int>
    decreases n,
{
    if n == 0 {
        None
    } else if is_table(tables[n - 1], class, id) {
        Some(n - 1)
    } else {
        last_table(tables, class, id, (n - 1) as nat)
    }
}

/// Finds the table asked for among the tables of a plan, the last that was
/// defined.
pub fn find_table(tables: &Vec<Vec<u8>>, class: Option<u8>, id: u8) -> (r: Option<usize>)
    ensures
        match r {
            Some(k) => last_table(tables_view(tables@), class, id, tables@.len()) == Some(
                k as int,
            ) && k < tables@.len(),
            None => last_table(tables_view(tables@), class, id, tables@.len()) is None,
        },
{
    let mut n = tables.len();
    while n > 0
        invariant
            n <= tables@.len(),
            last_table(tables_view(tables@), class, id, tables@.len()) == last_table(
                tables_view(tables@),
                class,
                id,
                n as nat,
            ),
        decreases n,
    {
        let table = &tables[n - 1];
        assert(tables_view(tables@)[n - 1] == table@);
        let found = table.len() > 0 && table[0] & 0x0f == id && match class {
            Some(c) => (table[0] >> 4) & 0x0f == c,
            None => true,
        };
        if found {
            return Some(n - 1);
        }
        n = n - 1;
    }
    None
}

} // verus!
