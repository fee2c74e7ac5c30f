//! Little-endian byte layout of the integers in a frame, and the request frames.
use vstd::prelude::*;

verus! {

/// Largest number of file bytes carried by one read or write frame.
pub const MAX_PAYLOAD: u32 = 0xE7;

/// Largest path length that the 16-bit length field can carry.
pub const MAX_PATH_LEN: usize = 0xFFFF;

/// Two bytes of `v`, least significant first.
pub open spec fn le_u16(v: u16) -> Seq<u8> {
    seq![(v % 256) as u8, (v / 256) as u8]
}

/// Four bytes of `v`, least significant first.
pub open spec fn le_u32(v: u32) -> Seq<u8> {
    seq![
        (v % 256) as u8,
        ((v / 256) % 256) as u8,
        ((v / 65536) % 256) as u8,
        (v / 16777216) as u8,
    ]
}

/// Eight bytes of `v`, least significant first.
pub open spec fn le_u64(v: u64) -> Seq<u8> {
    le_u32((v % 0x1_0000_0000) as u32) + le_u32((v / 0x1_0000_0000) as u32)
}

/// The 16-bit unsigned integer stored little-endian at `b[i..i + 2]`.
pub open spec fn u16_at(b: Seq<u8>, i: int) -> u16 {
    (b[i] as int + 256 * b[i + 1] as int) as u16
}

/// The 32-bit unsigned integer stored little-endian at `b[i..i + 4]`.
pub open spec fn u32_at(b: Seq<u8>, i: int) -> u32 {
    (b[i] as int + 256 * b[i + 1] as int + 65536 * b[i + 2] as int + 16777216 * b[i + 3] as int) as u32
}

/// The 64-bit unsigned integer stored little-endian at `b[i..i + 8]`.
pub open spec fn u64_at(b: Seq<u8>, i: int) -> u64 {
    (u32_at(b, i) as int + 0x1_0000_0000 * u32_at(b, i + 4) as int) as u64
}

/// `read-file start`: opcode 0x10, offset 0, a chunk size of `MAX_PAYLOAD`.
pub open spec fn read_start_frame(path: Seq<u8>) -> Seq<u8> {
    seq![0x10u8, 0u8] + le_u16(path.len() as u16) + le_u32(0) + le_u32(MAX_PAYLOAD) + path
}

/// `read-file continue`: opcode 0x12, asking for `MAX_PAYLOAD` bytes at `offset`.
pub open spec fn read_continue_frame(offset: u32) -> Seq<u8> {
    seq![0x12u8, 1u8, 0u8, 0u8] + le_u32(offset) + le_u32(MAX_PAYLOAD)
}

/// `write-file start`: opcode 0x20, offset 0, the timestamp and the total length.
pub open spec fn write_start_frame(path: Seq<u8>, timestamp: u64, total_len: u32) -> Seq<u8> {
    seq![0x20u8, 0u8] + le_u16(path.len() as u16) + le_u32(0) + le_u64(timestamp) + le_u32(
        total_len,
    ) + path
}

/// `write-file chunk`: opcode 0x22, the offset, the chunk length and the chunk.
pub open spec fn write_chunk_frame(offset: u32, chunk: Seq<u8>) -> Seq<u8> {
    seq![0x22u8, 1u8, 0u8, 0u8] + le_u32(offset) + le_u32(chunk.len() as u32) + chunk
}

/// `delete-file`: opcode 0x30 and the path.
pub open spec fn delete_frame(path: Seq<u8>) -> Seq<u8> {
    seq![0x30u8, 0u8] + le_u16(path.len() as u16) + path
}

/// `create-dir`: opcode 0x40, four zero bytes, the timestamp and the path.
pub open spec fn create_dir_frame(path: Seq<u8>, timestamp: u64) -> Seq<u8> {
    seq![0x40u8, 0u8] + le_u16(path.len() as u16) + seq![0u8, 0u8, 0u8, 0u8] + le_u64(timestamp)
        + path
}

/// `list-dir`: opcode 0x50 and the path.
pub open spec fn list_dir_frame(path: Seq<u8>) -> Seq<u8> {
    seq![0x50u8, 0u8] + le_u16(path.len() as u16) + path
}

/// `move`: opcode 0x60, both lengths, then `from`, a zero byte and `to`.
pub open spec fn move_frame(from: Seq<u8>, to: Seq<u8>) -> Seq<u8> {
    seq![0x60u8, 0u8] + le_u16(from.len() as u16) + le_u16(to.len() as u16) + from + seq![0u8]
        + to
}

pub fn push_u16(buf: &mut Vec<u8>, v: u16)
    ensures
        final(buf)@ == old(buf)@ + le_u16(v),
{
    buf.push((v % 256) as u8);
    buf.push((v / 256) as u8);
    assert(final(buf)@ =~= old(buf)@ + le_u16(v));
}

pub fn push_u32(buf: &mut Vec<u8>, v: u32)
    ensures
        final(buf)@ == old(buf)@ + le_u32(v),
{
    buf.push((v % 256) as u8);
    buf.push(((v / 256) % 256) as u8);
    buf.push(((v / 65536) % 256) as u8);
    buf.push((v / 16777216) as u8);
    assert(final(buf)@ =~= old(buf)@ + le_u32(v));
}

pub fn push_u64(buf: &mut Vec<u8>, v: u64)
    ensures
        final(buf)@ == old(buf)@ + le_u64(v),
{
    push_u32(buf, (v % 0x1_0000_0000) as u32);
    push_u32(buf, (v / 0x1_0000_0000) as u32);
    assert(final(buf)@ =~= old(buf)@ + le_u64(v));
}

/// Appends `src[lo..hi]` to `buf`.
pub fn push_range(buf: &mut Vec<u8>, src: &[u8], lo: usize, hi: usize)
    requires
        lo <= hi <= src@.len(),
    ensures
        final(buf)@ == old(buf)@ + src@.subrange(lo as int, hi as int),
{
    let mut i: usize = lo;
    while i < hi
        invariant
            lo <= i <= hi <= src@.len(),
            buf@ == old(buf)@ + src@.subrange(lo as int, i as int),
        decreases hi - i,
    {
        buf.push(src[i]);
        i = i + 1;
        assert(buf@ =~= old(buf)@ + src@.subrange(lo as int, i as int));
    }
}

/// Appends all of `src` to `buf`.
pub fn push_all(buf: &mut Vec<u8>, src: &[u8])
    ensures
        final(buf)@ == old(buf)@ + src@,
{
    push_range(buf, src, 0, src.len());
    assert(src@.subrange(0, src@.len() as int) =~= src@);
}

pub fn encode_read_start(path: &[u8]) -> (r: Vec<u8>)
    requires
        path@.len() <= MAX_PATH_LEN,
    ensures
        r@ == read_start_frame(path@),
{
    let mut buf: Vec<u8> = Vec::new();
    buf.push(0x10);
    buf.push(0);
    push_u16(&mut buf, path.len() as u16);
    push_u32(&mut buf, 0);
    push_u32(&mut buf, MAX_PAYLOAD);
    push_all(&mut buf, path);
    buf
}

pub fn encode_read_continue(offset: u32) -> (r: Vec<u8>)
    ensures
        r@ == read_continue_frame(offset),
{
    let mut buf: Vec<u8> = Vec::new();
    buf.push(0x12);
    buf.push(1);
    buf.push(0);
    buf.push(0);
    push_u32(&mut buf, offset);
    push_u32(&mut buf, MAX_PAYLOAD);
    assert(buf@ =~= read_continue_frame(offset));
    buf
}

pub fn encode_write_start(path: &[u8], timestamp: u64, total_len: u32) -> (r: Vec<u8>)
    requires
        path@.len() <= MAX_PATH_LEN,
    ensures
        r@ == write_start_frame(path@, timestamp, total_len),
{
    let mut buf: Vec<u8> = Vec::new();
    buf.push(0x20);
    buf.push(0);
    push_u16(&mut buf, path.len() as u16);
    push_u32(&mut buf, 0);
    push_u64(&mut buf, timestamp);
    push_u32(&mut buf, total_len);
    push_all(&mut buf, path);
    buf
}

/// The chunk frame for `data[lo..hi]`, sent at offset `lo`.
pub fn encode_write_chunk(data: &[u8], lo: u32, hi: u32) -> (r: Vec<u8>)
    requires
        lo <= hi <= data@.len(),
    ensures
        r@ == write_chunk_frame(lo, data@.subrange(lo as int, hi as int)),
{
    let mut buf: Vec<u8> = Vec::new();
    buf.push(0x22);
    buf.push(1);
    buf.push(0);
    buf.push(0);
    push_u32(&mut buf, lo);
    push_u32(&mut buf, hi - lo);
    push_range(&mut buf, data, lo as usize, hi as usize);
    assert(buf@ =~= write_chunk_frame(lo, data@.subrange(lo as int, hi as int)));
    buf
}

pub fn encode_delete(path: &[u8]) -> (r: Vec<u8>)
    requires
        path@.len() <= MAX_PATH_LEN,
    ensures
        r@ == delete_frame(path@),
{
    let mut buf: Vec<u8> = Vec::new();
    buf.push(0x30);
    buf.push(0);
    push_u16(&mut buf, path.len() as u16);
    push_all(&mut buf, path);
    buf
}

pub fn encode_create_dir(path: &[u8], timestamp: u64) -> (r: Vec<u8>)
    requires
        path@.len() <= MAX_PATH_LEN,
    ensures
        r@ == create_dir_frame(path@, timestamp),
{
    let mut buf: Vec<u8> = Vec::new();
    buf.push(0x40);
    buf.push(0);
    push_u16(&mut buf, path.len() as u16);
    push_u32(&mut buf, 0);
    push_u64(&mut buf, timestamp);
    push_all(&mut buf, path);
    assert(le_u32(0) =~= seq![0u8, 0u8, 0u8, 0u8]);
    buf
}

pub fn encode_list_dir(path: &[u8]) -> (r: Vec<u8>)
    requires
        path@.len() <= MAX_PATH_LEN,
    ensures
        r@ == list_dir_frame(path@),
{
    let mut buf: Vec<u8> = Vec::new();
    buf.push(0x50);
    buf.push(0);
    push_u16(&mut buf, path.len() as u16);
    push_all(&mut buf, path);
    buf
}

pub fn encode_move(from: &[u8], to: &[u8]) -> (r: Vec<u8>)
    requires
        from@.len() <= MAX_PATH_LEN,
        to@.len() <= MAX_PATH_LEN,
    ensures
        r@ == move_frame(from@, to@),
{
    let mut buf: Vec<u8> = Vec::new();
    buf.push(0x60);
    buf.push(0);
    push_u16(&mut buf, from.len() as u16);
    push_u16(&mut buf, to.len() as u16);
    push_all(&mut buf, from);
    buf.push(0);
    push_all(&mut buf, to);
    assert(buf@ =~= move_frame(from@, to@));
    buf
}

/// Reads the little-endian `u16` at `b[i..i + 2]`.
pub fn read_u16(b: &[u8], i: usize) -> (r: u16)
    requires
        i + 2 <= b@.len(),
    ensures
        r == u16_at(b@, i as int),
{
    b[i] as u16 + 256 * (b[i + 1] as u16)
}

/// Reads the little-endian `u32` at `b[i..i + 4]`.
pub fn read_u32(b: &[u8], i: usize) -> (r: u32)
    requires
        i + 4 <= b@.len(),
    ensures
        r == u32_at(b@, i as int),
{
    b[i] as u32 + 256 * (b[i + 1] as u32) + 65536 * (b[i + 2] as u32) + 16777216 * (
    b[i + 3] as u32)
}

/// Reads the little-endian `u64` at `b[i..i + 8]`.
pub fn read_u64(b: &[u8], i: usize) -> (r: u64)
    requires
        i + 8 <= b@.len(),
    ensures
        r == u64_at(b@, i as int),
{
    let n: usize = b.len();
    assert(i + 8 <= n);
    read_u32(b, i) as u64 + 0x1_0000_0000 * (read_u32(b, i + 4) as u64)
}

} // verus!
