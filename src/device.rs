//! Control operations understood by the kernel device: their codes, the
//! payloads the daemon sends, and how replies are read back.
use vstd::prelude::*;
use crate::layout::{push_u32, push_u64, read_u32, read_u64, u32_at, u32_le_bytes, u64_at, u64_le_bytes};

verus! {

/// Device type 0x22, function 0x801, buffered.
pub const IOCTL_MAP_SHARED: u32 = 0x00222004;

/// Device type 0x22, function 0x802, buffered.
pub const IOCTL_RUN_TICK: u32 = 0x00222008;

/// Device type 0x22, function 0x803, buffered (legacy submission path).
pub const IOCTL_VBLK_SUBMIT: u32 = 0x0022200C;

/// Device type 0x22, function 0x804, buffered.
pub const IOCTL_VBLK_SET_BACKING: u32 = 0x00222010;

/// Device type 0x22, function 0x805, out-direct.
pub const IOCTL_VBLK_READ: u32 = 0x00222016;

/// Device type 0x22, function 0x806, in-direct.
pub const IOCTL_VBLK_WRITE: u32 = 0x00222019;

/// Device type 0x22, function 0x807, buffered.
pub const IOCTL_VTTY_PUSH: u32 = 0x0022201C;

/// Device type 0x22, function 0x808, buffered.
pub const IOCTL_VTTY_PULL: u32 = 0x00222020;

/// Size of the descriptor returned by the map operation.
pub const MAP_INFO_LEN: usize = 32;

/// Size of a block sector; block transfers come in whole sectors.
pub const SECTOR_SIZE: u32 = 512;

/// One control-operation submission, without its reply endpoint.
pub struct IoctlRequest {
    pub code: u32,
    /// Parameter bytes handed to the device.
    pub inbuf: Option<Vec<u8>>,
    /// Size of the output buffer.
    pub out_capacity: usize,
    /// Initial contents of the output buffer, for operations that read and
    /// write the same buffer.
    pub prefill_out: Option<Vec<u8>>,
}

/// Why a request could not be built or a reply could not be read.
#[derive(Clone, Copy, Debug, PartialEq, Eq, Structural)]
pub enum DeviceError {
    /// The reply held fewer bytes than its format needs.
    ShortReply { len: usize },
    /// A block transfer length that the device does not take.
    BadLength { len: usize },
}

/// Descriptor of the shared window returned by the map operation.
#[derive(Clone, Copy, Debug, PartialEq, Eq, Structural)]
pub struct MapInfo {
    pub user_base: usize,
    pub kernel_base: u64,
    pub size: u64,
    pub ver: u32,
    pub flags: u32,
}

/// The bytes of an optional buffer (none: empty).
pub open spec fn bytes_of(b: Option<Vec<u8>>) -> Seq<u8> {
    match b {
        Some(v) => v@,
        None => Seq::empty(),
    }
}

/// `p` cut or zero-padded to exactly `cap` bytes.
pub open spec fn fitted(p: Seq<u8>, cap: nat) -> Seq<u8> {
    Seq::new(cap, |i: int| if i < p.len() { p[i] } else { 0u8 })
}

/// Initial contents of the output buffer of `r`.
pub open spec fn out_bytes(r: IoctlRequest) -> Seq<u8> {
    fitted(bytes_of(r.prefill_out), r.out_capacity as nat)
}

/// `r` carries operation `code`, parameters `input`, an output buffer of
/// `cap` bytes and no prefill.
pub open spec fn plain_request(r: IoctlRequest, code: u32, input: Option<Seq<u8>>, cap: nat) -> bool {
    &&& r.code == code
    &&& r.out_capacity == cap
    &&& r.prefill_out is None
    &&& match input {
        Some(s) => r.inbuf matches Some(b) && b@ == s,
        None => r.inbuf is None,
    }
}

/// `q` writes `payload` at `lba`: LBA and length as parameters, the payload
/// as the prefilled output buffer.
pub open spec fn write_request(q: IoctlRequest, lba: u64, payload: Seq<u8>) -> bool {
    &&& q.code == IOCTL_VBLK_WRITE
    &&& q.inbuf matches Some(b) && b@ == u64_le_bytes(lba) + u32_le_bytes(payload.len() as u32)
    &&& q.out_capacity == payload.len()
    &&& q.prefill_out matches Some(p) && p@ == payload
}

/// The map descriptor held in the first 32 bytes of `s`.
pub open spec fn map_info_at(s: Seq<u8>) -> MapInfo {
    MapInfo {
        user_base: u64_at(s, 0) as usize,
        kernel_base: u64_at(s, 8),
        size: u64_at(s, 16),
        ver: u32_at(s, 24),
        flags: u32_at(s, 28),
    }
}

/// The UTF-16 code units of one character.
pub open spec fn utf16_of_char(c: char) -> Seq<u16> {
    let v = c as u32;
    if v < 0x10000 {
        seq![v as u16]
    } else {
        seq![(0xD800 + (v - 0x10000) / 0x400) as u16, (0xDC00 + (v - 0x10000) % 0x400) as u16]
    }
}

/// The UTF-16 code units of a string.
pub open spec fn utf16_of(s: Seq<char>) -> Seq<u16>
    decreases s.len(),
{
    if s.len() == 0 {
        Seq::empty()
    } else {
        utf16_of(s.drop_last()) + utf16_of_char(s.last())
    }
}

/// Code units laid out little-endian, two bytes each.
pub open spec fn utf16_le(u: Seq<u16>) -> Seq<u8> {
    Seq::new(
        2 * u.len(),
        |i: int| if i % 2 == 0 { (u[i / 2] % 256) as u8 } else { (u[i / 2] / 256) as u8 },
    )
}

/// Relies on `str::encode_utf16`: the string's UTF-16 code units, in order.
#[verifier::external_body]
fn utf16_units(s: &str) -> (r: Vec<u16>)
    ensures
        r@ == utf16_of(s@),
{
    s.encode_utf16().collect()
}

/// Parameters of the map operation: the page count.
pub fn map_shared_request(pages: u32) -> (r: IoctlRequest)
    ensures
        plain_request(r, IOCTL_MAP_SHARED, Some(u32_le_bytes(pages)), MAP_INFO_LEN as nat),
{
    let mut inbuf: Vec<u8> = Vec::new();
    push_u32(&mut inbuf, pages);
    assert(inbuf@ =~= u32_le_bytes(pages));
    IoctlRequest { code: IOCTL_MAP_SHARED, inbuf: Some(inbuf), out_capacity: MAP_INFO_LEN, prefill_out: None }
}

/// Parameters of one scheduler tick: the quantum.
pub fn run_tick_request(budget: u32) -> (r: IoctlRequest)
    ensures
        plain_request(r, IOCTL_RUN_TICK, Some(u32_le_bytes(budget)), 0),
{
    let mut inbuf: Vec<u8> = Vec::new();
    push_u32(&mut inbuf, budget);
    assert(inbuf@ =~= u32_le_bytes(budget));
    IoctlRequest { code: IOCTL_RUN_TICK, inbuf: Some(inbuf), out_capacity: 0, prefill_out: None }
}

/// Legacy block submission: free-form parameters and a reply buffer.
pub fn vblk_submit_request(req: &[u8], out_capacity: usize) -> (r: IoctlRequest)
    ensures
        plain_request(r, IOCTL_VBLK_SUBMIT, Some(req@), out_capacity as nat),
{
    let inbuf = vstd::slice::slice_to_vec(req);
    IoctlRequest { code: IOCTL_VBLK_SUBMIT, inbuf: Some(inbuf), out_capacity, prefill_out: None }
}

/// Rebinds the backing store: the path as UTF-16 little-endian code units,
/// without a terminator.
pub fn vblk_set_backing_request(path: &str) -> (r: IoctlRequest)
    ensures
        plain_request(r, IOCTL_VBLK_SET_BACKING, Some(utf16_le(utf16_of(path@))), 0),
{
    let units = utf16_units(path);
    let mut bytes: Vec<u8> = Vec::new();
    let mut i: usize = 0;
    while i < units.len()
        invariant
            i <= units@.len(),
            bytes@ =~= utf16_le(units@.take(i as int)),
        decreases units@.len() - i,
    {
        let u = units[i];
        bytes.push((u % 256) as u8);
        bytes.push((u / 256) as u8);
        i = i + 1;
        assert(bytes@ =~= utf16_le(units@.take(i as int)));
    }
    assert(units@.take(units@.len() as int) =~= units@);
    IoctlRequest { code: IOCTL_VBLK_SET_BACKING, inbuf: Some(bytes), out_capacity: 0, prefill_out: None }
}

/// Block read header: 8-byte LBA then 4-byte length; the reply buffer holds
/// `len` bytes. The length must be a positive multiple of the sector size.
pub fn vblk_read_request(lba: u64, len: u32) -> (r: Result<IoctlRequest, DeviceError>)
    ensures
        (len == 0 || len % SECTOR_SIZE != 0) <==> (r is Err),
        r matches Err(e) ==> e == (DeviceError::BadLength { len: len as usize }),
        (r matches Ok(q) ==> plain_request(
            q,
            IOCTL_VBLK_READ,
            Some(u64_le_bytes(lba) + u32_le_bytes(len)),
            len as nat,
        )),
{
    if len == 0 || len % SECTOR_SIZE != 0 {
        return Err(DeviceError::BadLength { len: len as usize });
    }
    let mut hdr: Vec<u8> = Vec::new();
    push_u64(&mut hdr, lba);
    push_u32(&mut hdr, len);
    assert(hdr@ =~= u64_le_bytes(lba) + u32_le_bytes(len));
    Ok(IoctlRequest { code: IOCTL_VBLK_READ, inbuf: Some(hdr), out_capacity: len as usize, prefill_out: None })
}

/// Block write: the header carries LBA and length, and the payload is the
/// prefilled output buffer that the device reads.
pub fn vblk_write_request(lba: u64, payload: &[u8]) -> (r: Result<IoctlRequest, DeviceError>)
    ensures
        (payload@.len() > u32::MAX) <==> (r is Err),
        r matches Err(e) ==> e == (DeviceError::BadLength { len: payload@.len() as usize }),
        (r matches Ok(q) ==> write_request(q, lba, payload@)),
{
    let n = payload.len();
    if n > u32::MAX as usize {
        return Err(DeviceError::BadLength { len: n });
    }
    let mut hdr: Vec<u8> = Vec::new();
    push_u64(&mut hdr, lba);
    push_u32(&mut hdr, n as u32);
    assert(hdr@ =~= u64_le_bytes(lba) + u32_le_bytes(n as u32));
    let body = vstd::slice::slice_to_vec(payload);
    Ok(IoctlRequest { code: IOCTL_VBLK_WRITE, inbuf: Some(hdr), out_capacity: n, prefill_out: Some(body) })
}

/// Terminal input: the bytes themselves; the reply is a 4-byte count.
pub fn vtty_push_request(data: &[u8]) -> (r: IoctlRequest)
    ensures
        plain_request(r, IOCTL_VTTY_PUSH, Some(data@), 4),
{
    let inbuf = vstd::slice::slice_to_vec(data);
    IoctlRequest { code: IOCTL_VTTY_PUSH, inbuf: Some(inbuf), out_capacity: 4, prefill_out: None }
}

/// Terminal output: no parameters, up to `capacity` bytes back.
pub fn vtty_pull_request(capacity: usize) -> (r: IoctlRequest)
    ensures
        plain_request(r, IOCTL_VTTY_PULL, None, capacity as nat),
{
    IoctlRequest { code: IOCTL_VTTY_PULL, inbuf: None, out_capacity: capacity, prefill_out: None }
}

/// Reads the 32-byte map descriptor: host base, kernel base, size, version,
/// flags, all little-endian.
pub fn decode_map_info(out: &Vec<u8>) -> (r: Result<MapInfo, DeviceError>)
    ensures
        out@.len() < MAP_INFO_LEN <==> (r is Err),
        r matches Err(e) ==> e == (DeviceError::ShortReply { len: out@.len() as usize }),
        (r matches Ok(m) ==> m == map_info_at(out@)),
{
    if out.len() < MAP_INFO_LEN {
        return Err(DeviceError::ShortReply { len: out.len() });
    }
    let s = out.as_slice();
    Ok(
        MapInfo {
            user_base: read_u64(s, 0) as usize,
            kernel_base: read_u64(s, 8),
            size: read_u64(s, 16),
            ver: read_u32(s, 24),
            flags: read_u32(s, 28),
        },
    )
}

/// Reads the count of bytes the terminal accepted.
pub fn decode_push_count(out: &Vec<u8>) -> (r: Result<u32, DeviceError>)
    ensures
        out@.len() < 4 <==> (r is Err),
        r matches Err(e) ==> e == (DeviceError::ShortReply { len: out@.len() as usize }),
        (r matches Ok(n) ==> n == u32_at(out@, 0)),
{
    if out.len() < 4 {
        return Err(DeviceError::ShortReply { len: out.len() });
    }
    Ok(read_u32(out.as_slice(), 0))
}

impl IoctlRequest {
    /// The input buffer and the initial output buffer of the request: the
    /// prefill, cut or zero-padded to the output capacity.
    pub fn into_buffers(self) -> (r: (Vec<u8>, Vec<u8>))
        ensures
            r.0@ == bytes_of(self.inbuf),
            r.1@ == out_bytes(self),
    {
        let cap = self.out_capacity;
        let mut out: Vec<u8> = vec![0u8; cap];
        if let Some(p) = self.prefill_out {
            let m = if p.len() < cap {
                p.len()
            } else {
                cap
            };
            let mut i: usize = 0;
            while i < m
                invariant
                    m <= p@.len(),
                    m <= cap,
                    i <= m,
                    out@.len() == cap,
                    forall|j: int| 0 <= j < i ==> out@[j] == p@[j],
                    forall|j: int| i <= j < cap ==> out@[j] == 0u8,
                decreases m - i,
            {
                out.set(i, p[i]);
                i = i + 1;
            }
            assert(out@ =~= fitted(p@, cap as nat));
        } else {
            assert(out@ =~= fitted(Seq::empty(), cap as nat));
        }
        let inbuf = match self.inbuf {
            Some(b) => b,
            None => Vec::new(),
        };
        (inbuf, out)
    }
}

/// The output buffer cut to the byte count the device reported.
pub fn finish_output(out: Vec<u8>, bytes: u32) -> (r: Vec<u8>)
    ensures
        r@ == out@.take(if (bytes as nat) < out@.len() { bytes as int } else { out@.len() as int }),
{
    let mut out = out;
    let ghost before = out@;
    out.truncate(bytes as usize);
    assert(before.take(before.len() as int) =~= before);
    out
}

} // verus!
