//! The Feetech SCS/STS serial protocol: instruction frames, status-frame checks and the
//! register encodings the bus uses.
//!
//! A frame is `FF FF id length instruction params.. checksum`, where `length` counts the
//! instruction, the params and the checksum, and the checksum is the complement of the low
//! byte of the sum of everything from `id` on. A status frame has the same shape, with the
//! servo's error byte in the instruction's place.

use vstd::prelude::*;
use crate::dxl::le_u16;
use crate::model::{NUM_JOINTS, joint_ids, joint_id_list};
use crate::short_read::{ReadSite, ShortRead};

verus! {

/// Register of the present position.
pub const POSITION: u8 = 56;
/// Register of the goal position.
pub const GOAL_POSITION: u8 = 42;
/// Register of the torque switch.
pub const TORQUE_ENABLE: u8 = 40;
/// Register of the present input voltage, in tenths of a volt.
pub const PRESENT_VOLTAGE: u8 = 62;
/// Register of the present temperature, in degrees Celsius.
pub const PRESENT_TEMPERATURE: u8 = 63;

/// Instruction: read registers.
pub const READ: u8 = 0x02;
/// Instruction: write registers.
pub const WRITE: u8 = 0x03;
/// Instruction: reboot the servo.
pub const REBOOT: u8 = 0x08;

/// Shortest length a status frame may declare: error byte and checksum.
pub const MIN_STATUS_LEN: u8 = 2;
/// Longest length a status frame may declare.
pub const MAX_STATUS_LEN: u8 = 64;

/// Highest position count; a raw value above it is read as this.
pub const MAX_POSITION: u16 = 4095;

/// Sum of the bytes.
pub open spec fn byte_sum(s: Seq<u8>) -> int
    decreases s.len(),
{
    if s.len() == 0 { 0 } else { byte_sum(s.drop_last()) + s.last() }
}

/// The checksum of a frame body: the complement of the low byte of its sum.
pub open spec fn checksum_of(body: Seq<u8>) -> u8 {
    (255 - byte_sum(body) % 256) as u8
}

/// The checksum complements the body's sum: body and checksum together sum to 255 modulo 256,
/// and a single changed body byte changes the checksum.
pub proof fn the_checksum_completes_the_sum(body: Seq<u8>, i: int, x: u8)
    requires
        0 <= i < body.len(),
        x != body[i],
    ensures
        (byte_sum(body) + checksum_of(body)) % 256 == 255,
        checksum_of(body.update(i, x)) != checksum_of(body),
{
    sum_of_update(body, i, x);
    byte_sum_nonnegative(body);
    byte_sum_nonnegative(body.update(i, x));
}

proof fn byte_sum_nonnegative(s: Seq<u8>)
    ensures
        byte_sum(s) >= 0,
    decreases s.len(),
{
    if s.len() > 0 {
        byte_sum_nonnegative(s.drop_last());
    }
}

proof fn sum_of_update(s: Seq<u8>, i: int, x: u8)
    requires
        0 <= i < s.len(),
    ensures
        byte_sum(s.update(i, x)) == byte_sum(s) - s[i] + x,
    decreases s.len(),
{
    if i < s.len() - 1 {
        assert(s.update(i, x).drop_last() =~= s.drop_last().update(i, x));
        sum_of_update(s.drop_last(), i, x);
    } else {
        assert(s.update(i, x).drop_last() =~= s.drop_last());
    }
}

/// A frame is `FF FF`, the ID, a length byte counting the parameters plus two, the
/// instruction, the parameters, and the checksum of everything from the ID on.
pub proof fn a_frame_is_laid_out(id: u8, instruction: u8, params: Seq<u8>)
    requires
        params.len() <= 253,
    ensures
        packet_of(id, instruction, params).len() == params.len() + 6,
        packet_of(id, instruction, params)[0] == 0xff,
        packet_of(id, instruction, params)[1] == 0xff,
        packet_of(id, instruction, params)[2] == id,
        packet_of(id, instruction, params)[3] == params.len() + 2,
        packet_of(id, instruction, params)[4] == instruction,
        packet_of(id, instruction, params).subrange(5, params.len() + 5 as int) == params,
        (byte_sum(packet_of(id, instruction, params).subrange(2, params.len() + 6 as int)) % 256) == 255,
{
    let p = packet_of(id, instruction, params);
    let body = body_of(id, instruction, params);
    assert(p.subrange(5, params.len() + 5 as int) =~= params);
    assert(p.subrange(2, params.len() + 6 as int) =~= body.push(checksum_of(body)));
    assert(body.push(checksum_of(body)).drop_last() =~= body);
    byte_sum_nonnegative(body);
}

/// The checksum of a frame body.
pub fn checksum(body: &[u8]) -> (c: u8)
    requires
        body@.len() <= 257,
    ensures
        c == checksum_of(body@),
{
    let mut sum: u16 = 0;
    let mut i: usize = 0;
    while i < body.len()
        invariant
            i <= body@.len() <= 257,
            sum == byte_sum(body@.subrange(0, i as int)),
            sum <= 255 * i,
        decreases body@.len() - i,
    {
        assert(body@.subrange(0, i + 1).drop_last() =~= body@.subrange(0, i as int));
        sum = sum + body[i] as u16;
        i = i + 1;
    }
    assert(body@.subrange(0, body@.len() as int) =~= body@);
    (255 - sum % 256) as u8
}

/// The body of an instruction frame: id, length, instruction, params.
pub open spec fn body_of(id: u8, instruction: u8, params: Seq<u8>) -> Seq<u8> {
    seq![id, ((params.len() + 2) % 256) as u8, instruction] + params
}

/// The whole instruction frame.
pub open spec fn packet_of(id: u8, instruction: u8, params: Seq<u8>) -> Seq<u8> {
    seq![0xffu8, 0xffu8] + body_of(id, instruction, params) + seq![checksum_of(body_of(id, instruction, params))]
}

/// Frames an instruction for servo `id`.
pub fn packet(id: u8, instruction: u8, params: &[u8]) -> (p: Vec<u8>)
    requires
        params@.len() <= 254,
    ensures
        p@ == packet_of(id, instruction, params@),
{
    let length: u8 = ((params.len() + 2) % 256) as u8;
    let mut body: Vec<u8> = Vec::new();
    body.push(id);
    body.push(length);
    body.push(instruction);
    let mut i: usize = 0;
    while i < params.len()
        invariant
            i <= params@.len() <= 254,
            body@ == seq![id, length, instruction] + params@.subrange(0, i as int),
        decreases params@.len() - i,
    {
        body.push(params[i]);
        i = i + 1;
        assert(body@ =~= seq![id, length, instruction] + params@.subrange(0, i as int));
    }
    assert(params@.subrange(0, params@.len() as int) =~= params@);
    assert(body@ =~= body_of(id, instruction, params@));
    let sum = checksum(body.as_slice());
    let mut packet: Vec<u8> = Vec::new();
    packet.push(0xff);
    packet.push(0xff);
    let mut j: usize = 0;
    while j < body.len()
        invariant
            j <= body@.len(),
            packet@ == seq![0xffu8, 0xffu8] + body@.subrange(0, j as int),
        decreases body@.len() - j,
    {
        packet.push(body[j]);
        j = j + 1;
        assert(packet@ =~= seq![0xffu8, 0xffu8] + body@.subrange(0, j as int));
    }
    assert(body@.subrange(0, body@.len() as int) =~= body@);
    packet.push(sum);
    assert(packet@ =~= packet_of(id, instruction, params@));
    packet
}

/// Why a Feetech exchange failed.
#[derive(Clone, Copy, Debug, PartialEq, Eq)]
pub enum FeetechError {
    /// The status frame does not start with `FF FF id`.
    BadHeader { id: u8, header: [u8; 4] },
    /// The status frame declares a length outside `2..=64`.
    BadLength { id: u8, length: u8 },
    /// The status frame's checksum does not match its contents.
    BadChecksum { id: u8 },
    /// The servo answered with a nonzero error byte.
    ServoError { id: u8, code: u8 },
}

/// What the first four bytes of servo `id`'s status frame say: the number of bytes that
/// follow them, or why the frame is refused.
pub open spec fn header_check(id: u8, header: [u8; 4]) -> Result<usize, FeetechError> {
    if header@[0] != 0xff || header@[1] != 0xff || header@[2] != id {
        Err(FeetechError::BadHeader { id, header })
    } else if header@[3] < MIN_STATUS_LEN || header@[3] > MAX_STATUS_LEN {
        Err(FeetechError::BadLength { id, length: header@[3] })
    } else {
        Ok(header@[3] as usize)
    }
}

/// Checks the first four bytes of servo `id`'s status frame and returns how many bytes
/// follow them.
pub fn check_header(id: u8, header: &[u8; 4]) -> (r: Result<usize, FeetechError>)
    ensures
        r == header_check(id, *header),
{
    if header[0] != 0xff || header[1] != 0xff || header[2] != id {
        return Err(FeetechError::BadHeader { id, header: *header });
    }
    let length = header[3];
    if length < MIN_STATUS_LEN || length > MAX_STATUS_LEN {
        return Err(FeetechError::BadLength { id, length });
    }
    Ok(length as usize)
}

/// What a whole status frame of servo `id` holds, given its accepted header and the bytes
/// that follow it: the parameters, or why they are refused.
pub open spec fn status_check(id: u8, header: [u8; 4], tail: Seq<u8>) -> Result<Seq<u8>, FeetechError> {
    let full = header@ + tail;
    let n = full.len() as int;
    if full[n - 1] != checksum_of(full.subrange(2, n - 1)) {
        Err(FeetechError::BadChecksum { id })
    } else if full[4] != 0 {
        Err(FeetechError::ServoError { id, code: full[4] })
    } else {
        Ok(full.subrange(5, n - 1))
    }
}

/// Checks a status frame of servo `id` whose header was accepted and whose remaining bytes
/// were read in full, and returns its parameters.
pub fn check_status(id: u8, header: &[u8; 4], tail: &[u8]) -> (r: Result<Vec<u8>, FeetechError>)
    requires
        header_check(id, *header) == Ok::<usize, FeetechError>(tail.len()),
    ensures
        status_check(id, *header, tail@) matches Ok(params) ==> (r matches Ok(v) && v@ == params),
        status_check(id, *header, tail@) matches Err(e) ==> r == Err::<Vec<u8>, FeetechError>(e),
{
    assert(tail@.len() <= 64 && tail@.len() >= 2);
    let mut full: Vec<u8> = Vec::new();
    let mut i: usize = 0;
    while i < 4
        invariant
            i <= 4,
            full@ == header@.subrange(0, i as int),
        decreases 4 - i,
    {
        full.push(header[i]);
        i = i + 1;
        assert(full@ =~= header@.subrange(0, i as int));
    }
    let mut j: usize = 0;
    while j < tail.len()
        invariant
            j <= tail@.len() <= 64,
            header@.len() == 4,
            full@ == header@ + tail@.subrange(0, j as int),
        decreases tail@.len() - j,
    {
        full.push(tail[j]);
        j = j + 1;
        assert(full@ =~= header@ + tail@.subrange(0, j as int));
    }
    assert(tail@.subrange(0, tail@.len() as int) =~= tail@);
    let n = full.len();
    let mut body: Vec<u8> = Vec::new();
    let mut k: usize = 2;
    while k < n - 1
        invariant
            2 <= k <= n - 1,
            n == full@.len(),
            n >= 6,
            body@ == full@.subrange(2, k as int),
        decreases n - 1 - k,
    {
        body.push(full[k]);
        k = k + 1;
        assert(body@ =~= full@.subrange(2, k as int));
    }
    let expected = checksum(body.as_slice());
    if full[n - 1] != expected {
        return Err(FeetechError::BadChecksum { id });
    }
    if full[4] != 0 {
        return Err(FeetechError::ServoError { id, code: full[4] });
    }
    let mut params: Vec<u8> = Vec::new();
    let mut m: usize = 5;
    while m < n - 1
        invariant
            5 <= m <= n - 1,
            n == full@.len(),
            params@ == full@.subrange(5, m as int),
        decreases n - 1 - m,
    {
        params.push(full[m]);
        m = m + 1;
        assert(params@ =~= full@.subrange(5, m as int));
    }
    Ok(params)
}

/// A status frame framed like an instruction, with the error byte as its instruction, passes
/// the checks and gives back its parameters when the error byte is zero, and the servo's error
/// otherwise.
pub proof fn a_status_frame_reads_back(id: u8, code: u8, params: Seq<u8>, header: [u8; 4])
    requires
        params.len() <= 62,
        header@ == packet_of(id, code, params).subrange(0, 4),
    ensures
        header_check(id, header) == Ok::<usize, FeetechError>((params.len() + 2) as usize),
        status_check(id, header, packet_of(id, code, params).subrange(4, params.len() + 6 as int))
            == (if code == 0 { Ok::<Seq<u8>, FeetechError>(params) } else { Err(FeetechError::ServoError { id, code }) }),
{
    let p = packet_of(id, code, params);
    let tail = p.subrange(4, params.len() + 6 as int);
    let full = header@ + tail;
    assert(full =~= p);
    assert(full.subrange(2, full.len() - 1) =~= body_of(id, code, params));
    assert(full.subrange(5, full.len() - 1) =~= params);
}

/// Parameters of a register read: the address and the number of bytes.
pub fn read_params(address: u8, length: u8) -> (p: Vec<u8>)
    ensures
        p@ == seq![address, length],
{
    let p = vec![address, length];
    assert(p@ =~= seq![address, length]);
    p
}

/// Parameters of a register write: the address, then the bytes.
pub fn write_params(address: u8, data: &[u8]) -> (p: Vec<u8>)
    ensures
        p@ == seq![address] + data@,
{
    let mut p: Vec<u8> = Vec::new();
    p.push(address);
    let mut i: usize = 0;
    while i < data.len()
        invariant
            i <= data@.len(),
            p@ == seq![address] + data@.subrange(0, i as int),
        decreases data@.len() - i,
    {
        p.push(data[i]);
        i = i + 1;
        assert(p@ =~= seq![address] + data@.subrange(0, i as int));
    }
    assert(data@.subrange(0, data@.len() as int) =~= data@);
    p
}

/// Checks that a register read returned the number of bytes it asked for.
pub fn check_read_len(data: &[u8], length: u8) -> (r: Result<(), ShortRead>)
    ensures
        r == (if data@.len() == length as int { Ok(()) } else {
            Err(ShortRead { what: ReadSite::FeetechRegisterRead, expected: length as usize, got: data.len() })
        }),
{
    if data.len() == length as usize {
        Ok(())
    } else {
        Err(ShortRead { what: ReadSite::FeetechRegisterRead, expected: length as usize, got: data.len() })
    }
}

/// `u16::to_le_bytes`.
pub fn u16_to_le(value: u16) -> (bytes: [u8; 2])
    ensures
        bytes@ == seq![(value % 256) as u8, (value / 256) as u8],
        le_u16(bytes@[0], bytes@[1]) == value,
{
    let bytes = [(value % 256) as u8, (value / 256) as u8];
    assert(bytes@ =~= seq![(value % 256) as u8, (value / 256) as u8]);
    bytes
}

/// A position as the servo reports it, held to the top of the turn.
pub fn position_count(raw: u16) -> (count: u16)
    ensures
        count == (if raw > MAX_POSITION { MAX_POSITION } else { raw }),
{
    if raw > MAX_POSITION { MAX_POSITION } else { raw }
}

/// Why a Feetech bus cannot be opened with the IDs it was given.
#[derive(Clone, Copy, Debug, PartialEq, Eq, Structural)]
pub struct TooManyIds {
    pub count: usize,
}

/// The servo IDs a Feetech bus addresses: the given ones, or every joint when none are given.
/// There can be no more than there are joints.
pub fn feetech_ids(ids: &[u8]) -> (r: Result<Vec<u8>, TooManyIds>)
    ensures
        ids@.len() == 0 ==> (r matches Ok(v) && v@ == joint_ids()),
        0 < ids@.len() <= NUM_JOINTS ==> (r matches Ok(v) && v@ == ids@),
        ids@.len() > NUM_JOINTS ==> r == Err::<Vec<u8>, TooManyIds>(TooManyIds { count: ids.len() }),
{
    if ids.len() == 0 {
        return Ok(joint_id_list());
    }
    if ids.len() > NUM_JOINTS {
        return Err(TooManyIds { count: ids.len() });
    }
    let mut v: Vec<u8> = Vec::new();
    let mut i: usize = 0;
    while i < ids.len()
        invariant
            i <= ids@.len(),
            v@ == ids@.subrange(0, i as int),
        decreases ids@.len() - i,
    {
        v.push(ids[i]);
        i = i + 1;
        assert(v@ =~= ids@.subrange(0, i as int));
    }
    assert(ids@.subrange(0, ids@.len() as int) =~= ids@);
    Ok(v)
}

/// Checks that at least one servo reported an input voltage.
pub fn check_voltages(count: usize) -> (r: Result<(), ShortRead>)
    ensures
        r == (if count == 0 { Err(ShortRead { what: ReadSite::FeetechInputVoltage, expected: 1, got: 0 }) } else { Ok(()) }),
{
    if count == 0 {
        Err(ShortRead { what: ReadSite::FeetechInputVoltage, expected: 1, got: 0 })
    } else {
        Ok(())
    }
}

} // verus!
