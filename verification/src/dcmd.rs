//! Frames of direct commands (`DCMD`) and of 16-bit broadcast commands.
use vstd::prelude::*;
use vstd::std_specs::convert::FromSpecImpl;

use crate::pec15::PEC15;

verus! {

/// The command byte that opens every direct command.
pub const DCMD: u8 = 0xFE;

/// Max data bytes covered by one PEC group (`PECC + 1`).
pub const N_PER_PEC: usize = 16;

/// Bytes in front of the data: command, address, header PEC and ID.
pub const HEADER_LEN: usize = 5;

/// Encoded ID byte carried by direct-command read and write frames (datasheet Table 12).
#[derive(Copy, Clone, Eq, PartialEq, Debug)]
pub struct DcmdId {
    /// `true` for a read command (`RW = 1`, `!RW = 0`), `false` for a write command.
    read: bool,
    /// Four-bit PEC-count field; encodes the number of data bytes per PEC as `N - 1`.
    pecc: u8,
}

/// The ID byte with the read flag `read` and the PEC-count field `pecc`.
///
/// From the most significant bit down: `RW`, `!RW`, the parity of the upper half of the
/// field, that half, the parity of the lower half, that half.
pub open spec fn id_byte(read: bool, pecc: u8) -> u8 {
    let upper = (pecc >> 2) & 3;
    let lower = pecc & 3;
    (if read { 0x80u8 } else { 0x40u8 }) | (if upper == 1 || upper == 2 { 0x20u8 } else { 0u8 }) | (upper << 3) | (if lower
        == 1 || lower == 2 { 0x04u8 } else { 0u8 }) | lower
}

impl DcmdId {
    /// Whether the ID belongs to a read command.
    pub closed spec fn is_read(self) -> bool {
        self.read
    }

    /// The value of the PEC-count field.
    pub closed spec fn field(self) -> u8 {
        self.pecc
    }

    /// The ID of a read command; only the low four bits of `pecc` are used.
    pub fn read(pecc: u8) -> (id: Self)
        ensures
            id.is_read(),
            id.field() == pecc & 0x0F,
    {
        Self::new(true, pecc)
    }

    /// The ID of a write command; only the low four bits of `pecc` are used.
    pub fn write(pecc: u8) -> (id: Self)
        ensures
            !id.is_read(),
            id.field() == pecc & 0x0F,
    {
        Self::new(false, pecc)
    }

    /// The ID of a read or a write command; only the low four bits of `pecc` are used.
    pub fn new(read: bool, pecc: u8) -> (id: Self)
        ensures
            id.is_read() == read,
            id.field() == pecc & 0x0F,
    {
        DcmdId { read, pecc: pecc & 0x0F }
    }
}

impl FromSpecImpl<DcmdId> for u8 {
    open spec fn obeys_from_spec() -> bool {
        true
    }

    open spec fn from_spec(id: DcmdId) -> u8 {
        id_byte(id.is_read(), id.field())
    }
}

impl From<DcmdId> for u8 {
    fn from(id: DcmdId) -> (byte: u8) {
        let pecc = id.pecc;
        let p3 = (pecc >> 3) & 1;
        let p2 = (pecc >> 2) & 1;
        let p1 = (pecc >> 1) & 1;
        let p0 = pecc & 1;
        let rw: u8 = if id.read { 1 } else { 0 };
        let not_rw = rw ^ 1;
        let byte = (rw << 7) | (not_rw << 6) | ((p3 ^ p2) << 5) | (p3 << 4) | (p2 << 3) | ((p1 ^ p0) << 2) | (p1 << 1) | p0;
        proof {
            assert(byte == id_byte(rw == 1, pecc)) by (bit_vector)
                requires
                    p3 == (pecc >> 3) & 1,
                    p2 == (pecc >> 2) & 1,
                    p1 == (pecc >> 1) & 1,
                    p0 == pecc & 1,
                    rw == 0 || rw == 1,
                    not_rw == rw ^ 1,
                    byte == (rw << 7) | (not_rw << 6) | ((p3 ^ p2) << 5) | (p3 << 4) | (p2 << 3) | ((p1 ^ p0) << 2)
                        | (p1 << 1) | p0,
            ;
        }
        byte
    }
}

/// The ID byte of a write whose data is covered by PECs over groups of 16 bytes.
pub const WRITE_ID: u8 = 0x5B;

/// The ID byte of a read whose data is covered by PECs over groups of 16 bytes.
pub const READ_ID: u8 = 0x9B;

/// The command byte, the register address and their PEC.
pub open spec fn header(addr: u8) -> Seq<u8> {
    seq![DCMD, addr] + crate::pec15::pec(seq![DCMD, addr])
}

/// The frame that writes `data` to the registers from `addr` on.
pub open spec fn write_frame(addr: u8, data: Seq<u8>) -> Seq<u8> {
    header(addr) + seq![WRITE_ID] + data + crate::pec15::pec(data)
}

/// The frame that reads `n` bytes from the registers from `addr` on: the header, then filler
/// for the data and its PEC.
pub open spec fn read_frame(addr: u8, n: nat) -> Seq<u8> {
    header(addr) + seq![READ_ID] + Seq::new(n + 2, |i: int| 0xFFu8)
}

/// The frame of a 16-bit command: the command, most significant byte first, and its PEC.
pub open spec fn cmd16_frame(cmd: u16) -> Seq<u8> {
    let bytes = seq![(cmd >> 8) as u8, cmd as u8];
    bytes + crate::pec15::pec(bytes)
}

/// The `n` bytes of a reply from index `start` on; a reply that ends early reads as zero.
pub open spec fn received(reply: Seq<u8>, start: int, n: nat) -> Seq<u8> {
    Seq::new(
        n,
        |i: int|
            if start + i < reply.len() {
                reply[start + i]
            } else {
                0u8
            },
    )
}

/// The data bytes in the reply to a read of `n` bytes.
pub open spec fn reply_data(reply: Seq<u8>, n: nat) -> Seq<u8> {
    received(reply, HEADER_LEN as int, n)
}

/// The PEC in the reply to a read of `n` bytes.
pub open spec fn reply_pec(reply: Seq<u8>, n: nat) -> Seq<u8> {
    received(reply, HEADER_LEN + n, 2)
}

fn build_header(addr: u8) -> (frame: Vec<u8>)
    ensures
        frame@ == header(addr),
{
    let start = [DCMD, addr];
    let pec = PEC15::calc(&start);
    proof {
        assert(start@ =~= seq![DCMD, addr]);
    }
    let mut frame: Vec<u8> = Vec::new();
    frame.push(start[0]);
    frame.push(start[1]);
    frame.push(pec[0]);
    frame.push(pec[1]);
    proof {
        assert(pec@ =~= seq![pec[0], pec[1]]);
        assert(frame@ =~= header(addr));
    }
    frame
}

/// Builds the frame that writes `data`, one PEC group of at least one byte, to the registers from
/// `addr` on.
pub fn build_write(addr: u8, data: &[u8]) -> (frame: Vec<u8>)
    requires
        1 <= data@.len() <= N_PER_PEC,
    ensures
        frame@ == write_frame(addr, data@),
{
    build_write_group(addr, data)
}

/// Builds the frame that writes `data`, which fits one PEC group and may be empty.
pub(crate) fn build_write_group(addr: u8, data: &[u8]) -> (frame: Vec<u8>)
    requires
        data@.len() <= N_PER_PEC,
    ensures
        frame@ == write_frame(addr, data@),
{
    let mut frame = build_header(addr);
    frame.push(DcmdId::write((N_PER_PEC - 1) as u8).into());
    let pec = PEC15::calc(data);
    frame.extend_from_slice(data);
    frame.push(pec[0]);
    frame.push(pec[1]);
    proof {
        assert(id_byte(false, 15u8 & 0x0F) == WRITE_ID) by (bit_vector);
        assert(pec@ =~= seq![pec[0], pec[1]]);
        assert(frame@ =~= write_frame(addr, data@));
    }
    frame
}

/// Builds the frame that reads `n` bytes, one PEC group of at least one, from the registers from
/// `addr` on.
pub fn build_read(addr: u8, n: usize) -> (frame: Vec<u8>)
    requires
        1 <= n <= N_PER_PEC,
    ensures
        frame@ == read_frame(addr, n as nat),
{
    build_read_group(addr, n)
}

/// Builds the frame that reads `n` bytes, which fit one PEC group and may be none.
pub(crate) fn build_read_group(addr: u8, n: usize) -> (frame: Vec<u8>)
    requires
        n <= N_PER_PEC,
    ensures
        frame@ == read_frame(addr, n as nat),
{
    let mut frame = build_header(addr);
    frame.push(DcmdId::read((N_PER_PEC - 1) as u8).into());
    proof {
        assert(id_byte(true, 15u8 & 0x0F) == READ_ID) by (bit_vector);
    }
    let ghost head = frame@;
    let mut i: usize = 0;
    while i < n + 2
        invariant
            i <= n + 2,
            n <= N_PER_PEC,
            frame@ == head + Seq::new(i as nat, |j: int| 0xFFu8),
        decreases n + 2 - i,
    {
        frame.push(0xFF);
        i = i + 1;
        proof {
            assert(frame@ =~= head + Seq::new(i as nat, |j: int| 0xFFu8));
        }
    }
    proof {
        assert(frame@ =~= read_frame(addr, n as nat));
    }
    frame
}

/// Builds a 4-byte LTC681X-style 16-bit command (CMD0, CMD1, PEC0, PEC1).
pub fn build_cmd16(cmd: u16) -> (frame: Vec<u8>)
    ensures
        frame@ == cmd16_frame(cmd),
{
    let start = [(cmd >> 8) as u8, cmd as u8];
    let pec = PEC15::calc(&start);
    proof {
        assert(start@ =~= seq![(cmd >> 8) as u8, cmd as u8]);
    }
    let mut frame: Vec<u8> = Vec::new();
    frame.push(start[0]);
    frame.push(start[1]);
    frame.push(pec[0]);
    frame.push(pec[1]);
    proof {
        assert(pec@ =~= seq![pec[0], pec[1]]);
        assert(frame@ =~= cmd16_frame(cmd));
    }
    frame
}

/// Copies the `n` bytes of a reply from index `start` on.
pub fn take_received(reply: &Vec<u8>, start: usize, n: usize) -> (bytes: Vec<u8>)
    requires
        start + n <= usize::MAX,
    ensures
        bytes@ == received(reply@, start as int, n as nat),
{
    let mut bytes: Vec<u8> = Vec::new();
    let mut i: usize = 0;
    while i < n
        invariant
            i <= n,
            start + n <= usize::MAX,
            bytes@ == received(reply@, start as int, i as nat),
        decreases n - i,
    {
        let byte = if start + i < reply.len() { reply[start + i] } else { 0 };
        bytes.push(byte);
        i = i + 1;
        proof {
            assert(bytes@ =~= received(reply@, start as int, i as nat));
        }
    }
    bytes
}

/// The ID byte has exactly one of `RW` and `!RW` set, and can be told apart for any two
/// different commands or PEC counts.
pub proof fn id_byte_is_injective(read1: bool, pecc1: u8, read2: bool, pecc2: u8)
    requires
        pecc1 <= 0x0F,
        pecc2 <= 0x0F,
        id_byte(read1, pecc1) == id_byte(read2, pecc2),
    ensures
        read1 == read2,
        pecc1 == pecc2,
{
    assert(pecc1 <= 0x0F && pecc2 <= 0x0F && id_byte(read1, pecc1) == id_byte(read2, pecc2) ==> read1 == read2 && pecc1
        == pecc2) by (bit_vector);
}

/// The ID byte shows `RW` and its inverse, the two halves of the PEC-count field, and the parity of
/// each half in front of it.
pub proof fn id_byte_shows_its_fields(read: bool, pecc: u8)
    requires
        pecc <= 0x0F,
    ensures
        ({
            let byte = id_byte(read, pecc);
            &&& byte / 128 == 1 <==> read
            &&& byte / 64 % 2 == 1 <==> !read
            &&& byte / 8 % 4 == pecc / 4
            &&& byte % 4 == pecc % 4
            &&& byte / 32 % 2 == (pecc / 8 + pecc / 4 % 2) % 2
            &&& byte / 4 % 2 == (pecc / 2 % 2 + pecc % 2) % 2
        }),
{
    assert(pecc <= 0x0F ==> (id_byte(read, pecc) / 128 == 1 <==> read) && (id_byte(read, pecc) / 64 % 2 == 1 <==> !read)
        && id_byte(read, pecc) / 8 % 4 == pecc / 4 && id_byte(read, pecc) % 4 == pecc % 4 && id_byte(read, pecc) / 32 % 2 == (
    pecc / 8 + pecc / 4 % 2) % 2 && id_byte(read, pecc) / 4 % 2 == (pecc / 2 % 2 + pecc % 2) % 2) by (bit_vector);
}

/// The frame of a 16-bit command is four bytes: the command, its high byte first, and the PEC of
/// these two.
pub proof fn command_frames_hold_the_command(cmd: u16)
    ensures
        ({
            let frame = cmd16_frame(cmd);
            &&& frame.len() == 4
            &&& frame[0] * 0x100 + frame[1] == cmd
            &&& frame.skip(2) == crate::pec15::pec(frame.take(2))
        }),
{
    let bytes = seq![(cmd >> 8) as u8, cmd as u8];
    assert(((cmd >> 8) as u8) * 0x100 + (cmd as u8) == cmd) by (bit_vector);
    assert(crate::pec15::pec(bytes).len() == 2);
    assert(cmd16_frame(cmd).take(2) =~= bytes);
    assert(cmd16_frame(cmd).skip(2) =~= crate::pec15::pec(bytes));
}

/// What is received is the reply from an index on, byte by byte, and zero behind its end.
pub proof fn received_bytes_are_those_of_the_reply(reply: Seq<u8>, start: int, n: nat)
    requires
        0 <= start,
    ensures
        received(reply, start, n).len() == n,
        start + n <= reply.len() ==> received(reply, start, n) == reply.subrange(start, start + n),
        reply.len() <= start ==> forall|i: int| 0 <= i < n ==> received(reply, start, n)[i] == 0,
        start <= reply.len() < start + n ==> received(reply, start, n) == reply.skip(start) + Seq::new(
            (start + n - reply.len()) as nat,
            |i: int| 0u8,
        ),
{
    if start + n <= reply.len() {
        assert(received(reply, start, n) =~= reply.subrange(start, start + n));
    } else if start <= reply.len() {
        assert(received(reply, start, n) =~= reply.skip(start) + Seq::new((start + n - reply.len()) as nat, |i: int| 0u8));
    }
}

} // verus!
