//! Entropy decoding of baseline JPEG blocks: Huffman symbols, the values
//! that follow them, and the sixty-four coefficients of a block.

use vstd::prelude::*;
use vstd::string::*;
use crate::data::bit_reader::{bits_value, end_of_stream, stream_bit, BitReader};
use crate::error::BellandeError;

verus! {

/// Two to the power `n`.
pub open spec fn two_to(n: nat) -> nat
    decreases n,
{
    if n == 0 {
        1
    } else {
        2 * two_to((n - 1) as nat)
    }
}

/// The number that `length` received bits of value `value` stand for: the
/// value itself where its leading bit is set, and otherwise the value less
/// `2^length - 1`, which is negative.
pub open spec fn extended(value: int, length: nat) -> int {
    if length == 0 {
        0
    } else if value < two_to((length - 1) as nat) {
        value - two_to(length) + 1
    } else {
        value
    }
}

/// What reading a value of more than thirty-one bits reports.
pub open spec fn too_long() -> Seq<char> {
    "value longer than 31 bits"@
}

proof fn lemma_two_to_monotone(a: nat, b: nat)
    requires
        a <= b,
    ensures
        0 < two_to(a) <= two_to(b),
    decreases b,
{
    if a < b {
        lemma_two_to_monotone(a, (b - 1) as nat);
    } else if a > 0 {
        lemma_two_to_monotone((a - 1) as nat, (a - 1) as nat);
    }
}

proof fn lemma_two_to_bound(n: nat)
    requires
        n <= 32,
    ensures
        0 < two_to(n) <= 0x1_0000_0000,
        n <= 31 ==> two_to(n) <= 0x8000_0000,
        n <= 30 ==> two_to(n) <= 0x4000_0000,
{
    assert(two_to(10) == 1024) by {
        reveal_with_fuel(two_to, 11);
    }
    assert(two_to(20) == 1024 * 1024) by {
        reveal_with_fuel(two_to, 11);
    }
    assert(two_to(30) == 0x4000_0000) by {
        reveal_with_fuel(two_to, 11);
    }
    assert(two_to(32) == 0x1_0000_0000 && two_to(31) == 0x8000_0000) by {
        reveal_with_fuel(two_to, 3);
    }
    lemma_two_to_monotone(n, 32);
    if n <= 31 {
        lemma_two_to_monotone(n, 31);
    }
    if n <= 30 {
        lemma_two_to_monotone(n, 30);
    }
}

proof fn lemma_bits_value_bound(bytes: Seq<u8>, from: int, count: nat)
    requires
        count <= 31,
    ensures
        bits_value(bytes, from, count) < two_to(count),
    decreases count,
{
    if count > 0 {
        lemma_bits_value_bound(bytes, from, (count - 1) as nat);
        lemma_two_to_bound((count - 1) as nat);
        let x = bits_value(bytes, from, (count - 1) as nat);
        let m = two_to((count - 1) as nat) as u32;
        let b = if stream_bit(bytes, from + count - 1) {
            1u32
        } else {
            0u32
        };
        assert(((x << 1) | b) < 2 * m) by (bit_vector)
            requires
                x < m,
                m <= 0x4000_0000u32,
                b <= 1u32,
        ;
    }
}

fn two_to_exec(n: u8) -> (r: u64)
    requires
        n <= 32,
    ensures
        r == two_to(n as nat),
{
    let mut r: u64 = 1;
    let mut i: u8 = 0;
    while i < n
        invariant
            i <= n,
            n <= 32,
            r == two_to(i as nat),
        decreases n - i,
    {
        proof {
            lemma_two_to_bound(i as nat);
        }
        r = 2 * r;
        i = i + 1;
    }
    r
}

/// Reads `length` bits and extends them to the signed number they stand
/// for. No bits are read for length zero, which stands for zero.
///
/// Fails with `IOError` at the end of the stream, having consumed what was
/// left, and, reading nothing, for a length of more than 31 bits.
pub fn receive_and_extend(reader: &mut BitReader, length: u8) -> (r: Result<i32, BellandeError>)
    requires
        old(reader).wf(),
    ensures
        final(reader).wf(),
        final(reader).stream() == old(reader).stream(),
        length > 31 ==> (r matches Err(BellandeError::IOError(m)) && m@ == too_long())
            && final(reader).cursor() == old(reader).cursor(),
        length <= 31 && old(reader).cursor() + length <= 8 * old(reader).stream().len() ==> r
            == Ok::<i32, BellandeError>(
            extended(
                bits_value(old(reader).stream(), old(reader).cursor(), length as nat) as int,
                length as nat,
            ) as i32,
        ) && final(reader).cursor() == old(reader).cursor() + length,
        length <= 31 && old(reader).cursor() + length > 8 * old(reader).stream().len() ==> (
        r matches Err(BellandeError::IOError(m)) && m@ == end_of_stream())
            && final(reader).cursor() == 8 * old(reader).stream().len(),
        r matches Ok(v) ==> -(two_to(length as nat) as int) < v < two_to(length as nat),
{
    if length == 0 {
        proof {
            reader.lemma_cursor_in_range();
        }
        return Ok(0);
    }
    if length > 31 {
        return Err(BellandeError::IOError(String::from_str("value longer than 31 bits")));
    }
    let value = match reader.read_bits(length) {
        Ok(v) => v,
        Err(e) => {
            return Err(e);
        },
    };
    proof {
        lemma_bits_value_bound(old(reader).stream(), old(reader).cursor(), length as nat);
        lemma_two_to_bound(length as nat);
        lemma_two_to_bound((length - 1) as nat);
    }
    let half = two_to_exec(length - 1);
    let whole = two_to_exec(length);
    if (value as u64) < half {
        Ok((value as i64 - whole as i64 + 1) as i32)
    } else {
        Ok(value as i32)
    }
}

/// What decoding a Huffman symbol comes to: a symbol found after so many
/// bits, a stream that ends first, or sixteen bits that match no entry.
pub enum Symbol {
    Found(u8, u8),
    Exhausted,
    Invalid,
}

/// Whether the entry at `index` of a table of `(length, code, symbol)`
/// triples has the given length.
pub open spec fn entry_has(table: Seq<u8>, index: int, length: u8) -> bool {
    0 <= index && index + 2 < table.len() && table[index] == length
}

/// Where the scan of the table stops for a code of the given length: it
/// goes on from `index` over the entries of that length with another code.
pub open spec fn scan_stop(table: Seq<u8>, index: int, length: u8, code: u8) -> int
    decreases table.len() - index,
{
    if entry_has(table, index, length) && table[index + 1] != code {
        scan_stop(table, index + 3, length, code)
    } else {
        index
    }
}

/// The low eight bits of a code.
pub open spec fn low_byte(code: u16) -> u8 {
    (code & 0xff) as u8
}

/// The code after one more bit, kept to sixteen bits.
pub open spec fn code_after(code: u16, bit: bool) -> u16 {
    (code << 1) | (if bit {
        1u16
    } else {
        0u16
    })
}

/// What decoding comes to from bit `cursor` of the stream on, `length`
/// bits of the code read and the table scanned up to `index`: one more bit
/// is read, and the entries of the new length are compared with the low
/// eight bits of the code, the first that matches giving the symbol.
pub open spec fn symbol_from(
    stream: Seq<u8>,
    cursor: int,
    table: Seq<u8>,
    code: u16,
    length: u8,
    index: int,
) -> Symbol
    decreases 16 - length,
{
    if length >= 16 {
        Symbol::Invalid
    } else if cursor >= 8 * stream.len() {
        Symbol::Exhausted
    } else {
        let next = code_after(code, stream_bit(stream, cursor));
        let bits = (length + 1) as u8;
        let stop = scan_stop(table, index, bits, low_byte(next));
        if entry_has(table, stop, bits) {
            Symbol::Found(table[stop + 2], bits)
        } else {
            symbol_from(stream, cursor + 1, table, next, bits, stop)
        }
    }
}

/// The symbol that the bits of the stream denote from `cursor` on.
#[verifier::opaque]
pub open spec fn symbol_at(stream: Seq<u8>, cursor: int, table: Seq<u8>) -> Symbol {
    symbol_from(stream, cursor, table, 0, 0, 0)
}

/// What sixteen bits that match no entry report.
pub open spec fn invalid_code() -> Seq<char> {
    "Invalid Huffman code"@
}

/// Scans the entries of the given length from `index` on for the code:
/// where the scan stops, and the symbol of the entry there if it matches.
fn scan(table: &Vec<u8>, index: usize, length: u8, code: u8) -> (r: (usize, Option<u8>))
    requires
        table@.len() % 3 == 0,
        index % 3 == 0,
        index <= table@.len(),
    ensures
        r.0 == scan_stop(table@, index as int, length, code),
        r.0 % 3 == 0,
        index <= r.0 <= table@.len(),
        r.1 == (if entry_has(table@, r.0 as int, length) {
            Some(table@[r.0 + 2])
        } else {
            None
        }),
{
    let n = table.len();
    let mut at = index;
    while at < n && table[at] == length
        invariant
            n == table@.len(),
            n % 3 == 0,
            at % 3 == 0,
            index <= at <= n,
            scan_stop(table@, at as int, length, code) == scan_stop(
                table@,
                index as int,
                length,
                code,
            ),
        decreases n - at,
    {
        if code == table[at + 1] {
            return (at, Some(table[at + 2]));
        }
        at = at + 3;
    }
    (at, None)
}

/// Decodes one Huffman symbol with a table of `(length, code, symbol)`
/// triples, ordered by length.
///
/// Fails with `IOError`: at the end of the stream, and when sixteen bits
/// have matched no entry.
pub fn decode_huffman(reader: &mut BitReader, table: &Vec<u8>) -> (r: Result<u8, BellandeError>)
    requires
        old(reader).wf(),
        table@.len() % 3 == 0,
    ensures
        final(reader).wf(),
        final(reader).stream() == old(reader).stream(),
        match symbol_at(old(reader).stream(), old(reader).cursor(), table@) {
            Symbol::Found(symbol, bits) => r == Ok::<u8, BellandeError>(symbol)
                && final(reader).cursor() == old(reader).cursor() + bits,
            Symbol::Exhausted => (r matches Err(BellandeError::IOError(m)) && m@
                == end_of_stream()) && final(reader).cursor() == 8 * old(reader).stream().len(),
            Symbol::Invalid => (r matches Err(BellandeError::IOError(m)) && m@ == invalid_code())
                && final(reader).cursor() == old(reader).cursor() + 16,
        },
{
    let mut code: u16 = 0;
    let mut length: u8 = 0;
    let mut index: usize = 0;
    proof {
        reader.lemma_cursor_in_range();
        reveal(symbol_at);
    }
    loop
        invariant
            reader.wf(),
            reader.stream() == old(reader).stream(),
            table@.len() % 3 == 0,
            index % 3 == 0,
            index <= table@.len(),
            length < 16,
            reader.cursor() == old(reader).cursor() + length,
            reader.cursor() <= 8 * reader.stream().len(),
            symbol_at(old(reader).stream(), old(reader).cursor(), table@) == symbol_from(
                reader.stream(),
                reader.cursor(),
                table@,
                code,
                length,
                index as int,
            ),
        decreases 16 - length,
    {
        let bit = match reader.read_bit() {
            Ok(b) => b,
            Err(e) => {
                return Err(e);
            },
        };
        code = (code << 1) | (if bit {
            1
        } else {
            0
        });
        length = length + 1;
        let low = code & 0xff;
        assert(low <= 255) by (bit_vector)
            requires
                low == code & 0xff,
        ;
        let (stop, found) = scan(table, index, length, low as u8);
        match found {
            Some(symbol) => {
                return Ok(symbol);
            },
            None => {},
        }
        index = stop;
        if length >= 16 {
            return Err(BellandeError::IOError(String::from_str("Invalid Huffman code")));
        }
    }
}

/// The places of the coefficients of a block in the order in which they
/// are coded, which runs through the block in a zigzag.
#[verifier::opaque]
pub open spec fn natural_order() -> Seq<usize> {
    seq![
        0usize, 1, 8, 16, 9, 2, 3, 10, 17, 24, 32, 25, 18, 11, 4, 5, 12, 19, 26, 33, 40, 48,
        41, 34, 27, 20, 13, 6, 7, 14, 21, 28, 35, 42, 49, 56, 57, 50, 43, 36, 29, 22, 15, 23,
        30, 37, 44, 51, 58, 59, 52, 45, 38, 31, 39, 46, 53, 60, 61, 54, 47, 55, 62, 63,
    ]
}

/// The place of the coefficient that is coded as number `k`.
pub fn natural_place(k: usize) -> (r: usize)
    requires
        k < 64,
    ensures
        r == natural_order()[k as int],
        r < 64,
{
    let order: Vec<usize> = vec![
        0usize, 1, 8, 16, 9, 2, 3, 10, 17, 24, 32, 25, 18, 11, 4, 5, 12, 19, 26, 33, 40, 48,
        41, 34, 27, 20, 13, 6, 7, 14, 21, 28, 35, 42, 49, 56, 57, 50, 43, 36, 29, 22, 15, 23,
        30, 37, 44, 51, 58, 59, 52, 45, 38, 31, 39, 46, 53, 60, 61, 54, 47, 55, 62, 63,
    ];
    proof {
        reveal(natural_order);
        assert(order@ =~= natural_order());
        assert(forall|i: int| 0 <= i < 64 ==> #[trigger] natural_order()[i] < 64);
    }
    order[k]
}

/// The size in bits of the value that follows a symbol: its low half.
pub open spec fn value_size(symbol: u8) -> u8 {
    symbol & 0x0f
}

/// The number of zero coefficients that a symbol skips: its high half.
pub open spec fn zero_run(symbol: u8) -> u8 {
    symbol >> 4
}

/// The first coefficient of a block, and where the stream stands after it:
/// a symbol gives the size of the value that follows. `None` where the
/// symbol or the value cannot be read.
pub open spec fn dc_at(stream: Seq<u8>, cursor: int, table: Seq<u8>) -> Option<(i32, int)> {
    match symbol_at(stream, cursor, table) {
        Symbol::Found(size, bits) => {
            let after = cursor + bits;
            if size == 0 {
                Some((0i32, after))
            } else if size > 31 || after + size > 8 * stream.len() {
                None
            } else {
                Some(
                    (
                        extended(bits_value(stream, after, size as nat) as int, size as nat) as i32,
                        after + size,
                    ),
                )
            }
        },
        _ => None,
    }
}

/// The coefficients of a block once those from number `k` on are decoded,
/// and where the stream stands then. A symbol gives a run of zeros and the
/// size of the value that follows them; size zero ends the block, unless
/// the run is fifteen, which skips sixteen coefficients. `None` where a
/// symbol or a value cannot be read, or a run leads past the block.
pub open spec fn ac_from(stream: Seq<u8>, cursor: int, table: Seq<u8>, k: int, block: Seq<i32>) -> Option<
    (Seq<i32>, int),
>
    decreases
        (if k < 64 {
            64 - k
        } else {
            0
        }),
{
    if k >= 64 || k < 0 {
        Some((block, cursor))
    } else {
        match symbol_at(stream, cursor, table) {
            Symbol::Found(symbol, bits) => {
                let size = value_size(symbol);
                let run = zero_run(symbol);
                let after = cursor + bits;
                if size == 0 {
                    if run == 15 {
                        ac_from(stream, after, table, k + 16, block)
                    } else {
                        Some((block, after))
                    }
                } else if k + run >= 64 || after + size > 8 * stream.len() {
                    None
                } else {
                    ac_from(
                        stream,
                        after + size,
                        table,
                        k + run + 1,
                        block.update(
                            natural_order()[k + run] as int,
                            extended(bits_value(stream, after, size as nat) as int, size as nat) as i32,
                        ),
                    )
                }
            },
            _ => None,
        }
    }
}

/// Whether a coefficient times an entry of the quantization table can be
/// represented.
pub open spec fn product_fits(coefficient: i32, entry: u8) -> bool {
    i32::MIN <= coefficient * entry <= i32::MAX
}

/// Whether every coefficient times its entry of the quantization table
/// can be represented.
pub open spec fn scalable(block: Seq<i32>, quantization: Seq<u8>) -> bool {
    forall|i: int| 0 <= i < 64 ==> #[trigger] product_fits(block[i], quantization[i])
}

/// Every coefficient times its entry of the quantization table.
pub open spec fn scaled(block: Seq<i32>, quantization: Seq<u8>) -> Seq<i32> {
    Seq::new(64, |i: int| (block[i] * quantization[i]) as i32)
}

/// The coefficients of the block that starts at `cursor`, multiplied by
/// the quantization table, and where the stream stands after the block.
pub open spec fn block_at(
    stream: Seq<u8>,
    cursor: int,
    dc_table: Seq<u8>,
    ac_table: Seq<u8>,
    quantization: Seq<u8>,
) -> Option<(Seq<i32>, int)> {
    match dc_at(stream, cursor, dc_table) {
        Some((first, after)) => match ac_from(
            stream,
            after,
            ac_table,
            1,
            Seq::new(64, |i: int| 0i32).update(0, first),
        ) {
            Some((block, end)) => if scalable(block, quantization) {
                Some((scaled(block, quantization), end))
            } else {
                None
            },
            None => None,
        },
        None => None,
    }
}

fn unreadable(what: &str) -> (e: BellandeError)
    ensures
        e matches BellandeError::ImageError(_),
{
    BellandeError::ImageError(String::from_str(what))
}

/// Decodes the sixty-four coefficients of one block and multiplies each by
/// its entry of the quantization table. The tables hold
/// `(length, code, symbol)` triples.
///
/// Fails with `ImageError` where the block cannot be decoded: the stream
/// ends, a code matches no entry, a run of zeros leads past the block, or a
/// product cannot be represented.
pub fn decode_coefficients(
    reader: &mut BitReader,
    dc_table: &Vec<u8>,
    ac_table: &Vec<u8>,
    quantization: &Vec<u8>,
) -> (r: Result<Vec<i32>, BellandeError>)
    requires
        old(reader).wf(),
        dc_table@.len() % 3 == 0,
        ac_table@.len() % 3 == 0,
        quantization@.len() >= 64,
    ensures
        final(reader).wf(),
        final(reader).stream() == old(reader).stream(),
        match block_at(
            old(reader).stream(),
            old(reader).cursor(),
            dc_table@,
            ac_table@,
            quantization@,
        ) {
            Some((block, end)) => (r matches Ok(v) && v@ == block) && final(reader).cursor()
                == end,
            None => r matches Err(BellandeError::ImageError(_)),
        },
{
    proof {
        reader.lemma_cursor_in_range();
    }
    let mut block: Vec<i32> = crate::kernels::filled(0i32, 64);
    let size = match decode_huffman(reader, dc_table) {
        Ok(s) => s,
        Err(_) => {
            return Err(unreadable("Failed to decode DC coefficient"));
        },
    };
    if size > 0 {
        match receive_and_extend(reader, size) {
            Ok(v) => {
                block[0] = v;
            },
            Err(_) => {
                return Err(unreadable("Failed to read DC value"));
            },
        }
    }
    let ghost head = dc_at(old(reader).stream(), old(reader).cursor(), dc_table@)->0;
    assert(block@ =~= Seq::new(64, |i: int| 0i32).update(0, head.0));
    let ghost first = block@;
    let ghost start = reader.cursor();
    let ghost whole = block_at(
        old(reader).stream(),
        old(reader).cursor(),
        dc_table@,
        ac_table@,
        quantization@,
    );
    let mut k: usize = 1;
    let mut ended = false;
    while k < 64 && !ended
        invariant
            reader.wf(),
            reader.stream() == old(reader).stream(),
            ac_table@.len() % 3 == 0,
            block@.len() == 64,
            1 <= k <= 64 + 16,
            whole == block_at(
                old(reader).stream(),
                old(reader).cursor(),
                dc_table@,
                ac_table@,
                quantization@,
            ),
            whole == (match ac_from(reader.stream(), start, ac_table@, 1, first) {
                Some((b, end)) => if scalable(b, quantization@) {
                    Some((scaled(b, quantization@), end))
                } else {
                    None
                },
                None => None,
            }),
            ac_from(reader.stream(), start, ac_table@, 1, first) == (if ended {
                Some((block@, reader.cursor()))
            } else {
                ac_from(reader.stream(), reader.cursor(), ac_table@, k as int, block@)
            }),
        decreases
            (if ended {
                0int
            } else {
                1int
            }) + (if k < 64 {
                64 - k
            } else {
                0int
            }),
    {
        let symbol = match decode_huffman(reader, ac_table) {
            Ok(s) => s,
            Err(_) => {
                return Err(unreadable("Failed to decode AC coefficient"));
            },
        };
        let size = symbol & 0x0f;
        let run = symbol >> 4;
        assert(size <= 15 && run <= 15) by (bit_vector)
            requires
                size == symbol & 0x0f,
                run == symbol >> 4,
        ;
        if size == 0 {
            if run == 15 {
                k = k + 16;
            } else {
                ended = true;
            }
        } else {
            k = k + run as usize;
            if k >= 64 {
                return Err(unreadable("Invalid AC coefficient index"));
            }
            match receive_and_extend(reader, size) {
                Ok(v) => {
                    let place = natural_place(k);
                    block[place] = v;
                },
                Err(_) => {
                    return Err(unreadable("Failed to read AC value"));
                },
            }
            k = k + 1;
        }
    }
    let ghost decoded = block@;
    let mut i: usize = 0;
    while i < 64
        invariant
            i <= 64,
            reader.wf(),
            reader.stream() == old(reader).stream(),
            whole == block_at(
                old(reader).stream(),
                old(reader).cursor(),
                dc_table@,
                ac_table@,
                quantization@,
            ),
            whole == (if scalable(decoded, quantization@) {
                Some((scaled(decoded, quantization@), reader.cursor()))
            } else {
                None
            }),
            block@.len() == 64,
            decoded.len() == 64,
            quantization@.len() >= 64,
            forall|j: int| 0 <= j < i ==> #[trigger] product_fits(decoded[j], quantization@[j]),
            forall|j: int| 0 <= j < i ==> #[trigger] block@[j] == decoded[j] * quantization@[j],
            forall|j: int| i <= j < 64 ==> #[trigger] block@[j] == decoded[j],
        decreases 64 - i,
    {
        assert(-0x80_0000_0000 <= block@[i as int] * quantization@[i as int] <= 0x80_0000_0000)
            by (nonlinear_arith)
            requires
                -0x8000_0000 <= block@[i as int] <= 0x8000_0000,
                0 <= quantization@[i as int] <= 256,
        ;
        let product = block[i] as i64 * quantization[i] as i64;
        if product < -2147483648i64 || product > 2147483647i64 {
            assert(!product_fits(decoded[i as int], quantization@[i as int]));
            return Err(unreadable("Coefficient out of range"));
        }
        assert(product_fits(decoded[i as int], quantization@[i as int]));
        block[i] = product as i32;
        i = i + 1;
    }
    assert(block@ =~= scaled(decoded, quantization@));
    assert(whole == Some((block@, reader.cursor())));
    Ok(block)
}

} // verus!
