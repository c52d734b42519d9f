//! Byte payloads for positions and mission areas. Integers are written as
//! four bytes, least significant first; an `i32` as its two's complement.
//! A position is `x` then `y`; a mission area is its row count, its column
//! count, then its cells row by row.
use vstd::prelude::*;
use crate::geometry::{Coordinate, MissionArea};

verus! {

/// Why a payload was rejected.
#[derive(Debug, Clone, Copy, PartialEq, Eq, Structural)]
pub enum DecodeError {
    /// Too few bytes for the header.
    Truncated,
    /// The length does not match what the header announces.
    LengthMismatch,
}

pub open spec fn byte0(v: u32) -> u8 {
    (v & 0xff) as u8
}

pub open spec fn byte1(v: u32) -> u8 {
    ((v >> 8u32) & 0xff) as u8
}

pub open spec fn byte2(v: u32) -> u8 {
    ((v >> 16u32) & 0xff) as u8
}

pub open spec fn byte3(v: u32) -> u8 {
    ((v >> 24u32) & 0xff) as u8
}

/// The four bytes of `v`, least significant first.
pub open spec fn u32_bytes(v: u32) -> Seq<u8> {
    seq![byte0(v), byte1(v), byte2(v), byte3(v)]
}

/// The integer whose bytes, least significant first, are `b0` to `b3`.
pub open spec fn u32_of(b0: u8, b1: u8, b2: u8, b3: u8) -> u32 {
    (b0 as u32) | ((b1 as u32) << 8u32) | ((b2 as u32) << 16u32) | ((b3 as u32) << 24u32)
}

/// The integer stored at byte `i` of `b`.
pub open spec fn u32_at(b: Seq<u8>, i: int) -> u32 {
    u32_of(b[i], b[i + 1], b[i + 2], b[i + 3])
}

proof fn lemma_bytes_then_value(v: u32)
    ensures
        u32_of(byte0(v), byte1(v), byte2(v), byte3(v)) == v,
{
    assert(((v & 0xff) as u8 as u32) | ((((v >> 8u32) & 0xff) as u8 as u32) << 8u32) | ((((v
        >> 16u32) & 0xff) as u8 as u32) << 16u32) | ((((v >> 24u32) & 0xff) as u8 as u32)
        << 24u32) == v) by (bit_vector);
}

proof fn lemma_value_then_bytes(b0: u8, b1: u8, b2: u8, b3: u8)
    ensures
        byte0(u32_of(b0, b1, b2, b3)) == b0,
        byte1(u32_of(b0, b1, b2, b3)) == b1,
        byte2(u32_of(b0, b1, b2, b3)) == b2,
        byte3(u32_of(b0, b1, b2, b3)) == b3,
{
    let v = u32_of(b0, b1, b2, b3);
    assert(v == (b0 as u32) | ((b1 as u32) << 8u32) | ((b2 as u32) << 16u32) | ((b3 as u32)
        << 24u32));
    assert((((b0 as u32) | ((b1 as u32) << 8u32) | ((b2 as u32) << 16u32) | ((b3 as u32)
        << 24u32)) & 0xff) as u8 == b0) by (bit_vector);
    assert(((((b0 as u32) | ((b1 as u32) << 8u32) | ((b2 as u32) << 16u32) | ((b3 as u32)
        << 24u32)) >> 8u32) & 0xff) as u8 == b1) by (bit_vector);
    assert(((((b0 as u32) | ((b1 as u32) << 8u32) | ((b2 as u32) << 16u32) | ((b3 as u32)
        << 24u32)) >> 16u32) & 0xff) as u8 == b2) by (bit_vector);
    assert(((((b0 as u32) | ((b1 as u32) << 8u32) | ((b2 as u32) << 16u32) | ((b3 as u32)
        << 24u32)) >> 24u32) & 0xff) as u8 == b3) by (bit_vector);
}

proof fn lemma_i32_as_u32(v: i32)
    ensures
        (v as u32) as i32 == v,
{
    assert((v as u32) as i32 == v) by (bit_vector);
}

proof fn lemma_u32_as_i32(v: u32)
    ensures
        (v as i32) as u32 == v,
{
    assert((v as i32) as u32 == v) by (bit_vector);
}

/// Appends the four bytes of `v`.
fn push_u32(out: &mut Vec<u8>, v: u32)
    ensures
        final(out)@ == old(out)@ + u32_bytes(v),
{
    out.push((v & 0xff) as u8);
    out.push(((v >> 8u32) & 0xff) as u8);
    out.push(((v >> 16u32) & 0xff) as u8);
    out.push(((v >> 24u32) & 0xff) as u8);
    assert(out@ =~= old(out)@ + u32_bytes(v));
}

/// Reads the integer stored at byte `at`.
fn read_u32(b: &Vec<u8>, at: usize) -> (r: u32)
    requires
        at + 4 <= b@.len(),
    ensures
        r == u32_at(b@, at as int),
{
    let len: usize = b.len();
    assert(at + 3 < len);
    (b[at] as u32) | ((b[at + 1] as u32) << 8u32) | ((b[at + 2] as u32) << 16u32) | ((b[at
        + 3] as u32) << 24u32)
}

/// The payload of a position.
pub open spec fn coordinate_bytes(c: Coordinate) -> Seq<u8> {
    u32_bytes(c.x as u32) + u32_bytes(c.y as u32)
}

/// What a position payload decodes to: exactly eight bytes are required.
pub open spec fn coordinate_decoded(b: Seq<u8>) -> Result<Coordinate, DecodeError> {
    if b.len() < 8 {
        Err(DecodeError::Truncated)
    } else if b.len() > 8 {
        Err(DecodeError::LengthMismatch)
    } else {
        Ok(Coordinate { x: u32_at(b, 0) as i32, y: u32_at(b, 4) as i32 })
    }
}

/// Encodes a position.
pub fn encode_coordinate(c: Coordinate) -> (r: Vec<u8>)
    ensures
        r@ == coordinate_bytes(c),
{
    let mut out: Vec<u8> = Vec::new();
    push_u32(&mut out, c.x as u32);
    push_u32(&mut out, c.y as u32);
    assert(out@ =~= coordinate_bytes(c));
    out
}

/// Decodes a position.
pub fn decode_coordinate(b: &Vec<u8>) -> (r: Result<Coordinate, DecodeError>)
    ensures
        r == coordinate_decoded(b@),
{
    if b.len() < 8 {
        Err(DecodeError::Truncated)
    } else if b.len() > 8 {
        Err(DecodeError::LengthMismatch)
    } else {
        let x = read_u32(b, 0);
        let y = read_u32(b, 4);
        Ok(Coordinate { x: x as i32, y: y as i32 })
    }
}

/// The bytes of a sequence of cells, four per cell.
pub open spec fn cells_bytes(cells: Seq<u32>) -> Seq<u8> {
    Seq::new(4 * cells.len(), |j: int| u32_bytes(cells[j / 4])[j % 4])
}

/// The payload of a mission area of `rows` by `cols` cells.
pub open spec fn area_bytes(rows: int, cols: int, cells: Seq<u32>) -> Seq<u8> {
    u32_bytes(rows as u32) + u32_bytes(cols as u32) + cells_bytes(cells)
}

/// The cells that the bytes of `b` from byte 8 on hold, `n` of them.
pub open spec fn cells_at(b: Seq<u8>, n: int) -> Seq<u32> {
    Seq::new(n as nat, |i: int| u32_at(b, 8 + 4 * i))
}

/// What a mission-area payload decodes to: its dimensions and cells, when the
/// length is the header's eight bytes plus four per announced cell.
pub open spec fn area_decoded(b: Seq<u8>) -> Result<(int, int, Seq<u32>), DecodeError> {
    if b.len() < 8 {
        Err(DecodeError::Truncated)
    } else {
        let rows = u32_at(b, 0) as int;
        let cols = u32_at(b, 4) as int;
        if b.len() != 8 + 4 * (rows * cols) {
            Err(DecodeError::LengthMismatch)
        } else {
            Ok((rows, cols, cells_at(b, rows * cols)))
        }
    }
}

proof fn lemma_cells_bytes_push(cells: Seq<u32>, v: u32)
    ensures
        cells_bytes(cells.push(v)) == cells_bytes(cells) + u32_bytes(v),
{
    let n = cells.len() as int;
    let lhs = cells_bytes(cells.push(v));
    let rhs = cells_bytes(cells) + u32_bytes(v);
    assert forall|j: int| 0 <= j < 4 * n + 4 implies lhs[j] == rhs[j] by {
        if j < 4 * n {
            assert(j / 4 < n);
        } else {
            assert(j / 4 == n);
            assert(j % 4 == j - 4 * n);
        }
    }
    assert(lhs =~= rhs);
}

/// Encodes a mission area; `None` when a dimension does not fit in four
/// bytes.
pub fn encode_area(area: &MissionArea) -> (r: Option<Vec<u8>>)
    requires
        area.wf(),
    ensures
        r.is_some() <==> area.rows <= u32::MAX && area.cols <= u32::MAX,
        r.is_some() ==> r.unwrap()@ == area_bytes(area.rows as int, area.cols as int, area.cells@),
{
    if area.rows > 0xffff_ffffusize || area.cols > 0xffff_ffffusize {
        return None;
    }
    let mut out: Vec<u8> = Vec::new();
    push_u32(&mut out, area.rows as u32);
    push_u32(&mut out, area.cols as u32);
    let header = Ghost(out@);
    let mut i: usize = 0;
    assert(area.cells@.take(0) =~= Seq::<u32>::empty());
    assert(cells_bytes(Seq::<u32>::empty()) =~= Seq::<u8>::empty());
    assert(out@ =~= header@ + cells_bytes(area.cells@.take(0)));
    while i < area.cells.len()
        invariant
            0 <= i <= area.cells@.len(),
            header@ == u32_bytes(area.rows as u32) + u32_bytes(area.cols as u32),
            out@ == header@ + cells_bytes(area.cells@.take(i as int)),
        decreases area.cells@.len() - i,
    {
        let v = area.cells[i];
        push_u32(&mut out, v);
        proof {
            assert(area.cells@.take(i as int + 1) =~= area.cells@.take(i as int).push(v));
            lemma_cells_bytes_push(area.cells@.take(i as int), v);
        }
        i += 1;
        assert(out@ =~= header@ + cells_bytes(area.cells@.take(i as int)));
    }
    assert(area.cells@.take(i as int) =~= area.cells@);
    Some(out)
}

/// Decodes a mission area.
pub fn decode_area(b: &Vec<u8>) -> (r: Result<MissionArea, DecodeError>)
    ensures
        match (r, area_decoded(b@)) {
            (Ok(a), Ok((rows, cols, cells))) => a.wf() && a.rows == rows && a.cols == cols
                && a.cells@ == cells,
            (Err(e), Err(f)) => e == f,
            _ => false,
        },
{
    if b.len() < 8 {
        return Err(DecodeError::Truncated);
    }
    let rows = read_u32(b, 0);
    let cols = read_u32(b, 4);
    assert(rows as u64 * cols as u64 <= u64::MAX) by (nonlinear_arith)
        requires
            rows <= u32::MAX,
            cols <= u32::MAX,
    ;
    let n: u64 = rows as u64 * cols as u64;
    let body: usize = b.len() - 8;
    if body % 4 != 0 || (body / 4) as u64 != n {
        return Err(DecodeError::LengthMismatch);
    }
    let count: usize = body / 4;
    let mut cells: Vec<u32> = Vec::new();
    let mut i: usize = 0;
    while i < count
        invariant
            count == (b@.len() - 8) / 4,
            8 + 4 * count == b@.len(),
            b@.len() <= usize::MAX,
            body == b@.len() - 8,
            body % 4 == 0,
            0 <= i <= count,
            cells@ == cells_at(b@, count as int).take(i as int),
        decreases count - i,
    {
        let v = read_u32(b, 8 + 4 * i);
        cells.push(v);
        i += 1;
        assert(cells@ =~= cells_at(b@, count as int).take(i as int));
    }
    assert(cells@ =~= cells_at(b@, count as int));
    proof {
        assert(count as int == rows as int * cols as int);
    }
    Ok(MissionArea { rows: rows as usize, cols: cols as usize, cells })
}

/// Round trip of positions: decoding the payload of a position gives it back.
pub proof fn law_coordinate_round_trip(c: Coordinate)
    ensures
        coordinate_decoded(coordinate_bytes(c)) == Ok::<Coordinate, DecodeError>(c),
{
    let b = coordinate_bytes(c);
    lemma_bytes_then_value(c.x as u32);
    lemma_bytes_then_value(c.y as u32);
    lemma_i32_as_u32(c.x);
    lemma_i32_as_u32(c.y);
    assert(u32_at(b, 0) == c.x as u32);
    assert(u32_at(b, 4) == c.y as u32);
}

/// Round trip of position payloads: a payload that decodes is the payload of
/// what it decodes to.
pub proof fn law_coordinate_bytes_round_trip(b: Seq<u8>)
    requires
        coordinate_decoded(b) is Ok,
    ensures
        coordinate_bytes(coordinate_decoded(b)->Ok_0) == b,
{
    let c = coordinate_decoded(b)->Ok_0;
    lemma_u32_as_i32(u32_at(b, 0));
    lemma_u32_as_i32(u32_at(b, 4));
    lemma_value_then_bytes(b[0], b[1], b[2], b[3]);
    lemma_value_then_bytes(b[4], b[5], b[6], b[7]);
    assert(coordinate_bytes(c) =~= b);
}

/// Round trip of mission areas: decoding the payload of an area gives back
/// its dimensions and cells.
pub proof fn law_area_round_trip(rows: int, cols: int, cells: Seq<u32>)
    requires
        0 <= rows <= u32::MAX,
        0 <= cols <= u32::MAX,
        cells.len() == rows * cols,
    ensures
        area_decoded(area_bytes(rows, cols, cells)) == Ok::<(int, int, Seq<u32>), DecodeError>(
            (rows, cols, cells),
        ),
{
    let b = area_bytes(rows, cols, cells);
    lemma_bytes_then_value(rows as u32);
    lemma_bytes_then_value(cols as u32);
    assert(u32_at(b, 0) == rows as u32);
    assert(u32_at(b, 4) == cols as u32);
    assert forall|i: int| 0 <= i < cells.len() implies #[trigger] cells_at(b, rows * cols)[i]
        == cells[i] by {
        lemma_bytes_then_value(cells[i]);
        assert((4 * i) / 4 == i);
        assert((4 * i + 1) / 4 == i);
        assert((4 * i + 2) / 4 == i);
        assert((4 * i + 3) / 4 == i);
        assert(b[8 + 4 * i] == byte0(cells[i]));
        assert(b[8 + 4 * i + 1] == byte1(cells[i]));
        assert(b[8 + 4 * i + 2] == byte2(cells[i]));
        assert(b[8 + 4 * i + 3] == byte3(cells[i]));
    }
    assert(cells_at(b, rows * cols) =~= cells);
}

/// Round trip of mission-area payloads: a payload that decodes is the payload
/// of what it decodes to.
pub proof fn law_area_bytes_round_trip(b: Seq<u8>)
    requires
        area_decoded(b) is Ok,
    ensures
        area_bytes(
            (area_decoded(b)->Ok_0).0,
            (area_decoded(b)->Ok_0).1,
            (area_decoded(b)->Ok_0).2,
        ) == b,
{
    let (rows, cols, cells) = area_decoded(b)->Ok_0;
    lemma_u32_as_i32(u32_at(b, 0));
    lemma_value_then_bytes(b[0], b[1], b[2], b[3]);
    lemma_value_then_bytes(b[4], b[5], b[6], b[7]);
    let e = area_bytes(rows, cols, cells);
    assert forall|j: int| 8 <= j < b.len() implies e[j] == b[j] by {
        let i = (j - 8) / 4;
        let k = (j - 8) % 4;
        assert(0 <= i < cells.len());
        lemma_value_then_bytes(b[8 + 4 * i], b[8 + 4 * i + 1], b[8 + 4 * i + 2], b[8 + 4 * i + 3]);
        assert(j == 8 + 4 * i + k);
    }
    assert(e =~= b);
}

} // verus!
