//! The framing of the commands the display accepts.
//!
//! A mode selection is a message of five bytes. A picture is carried in
//! blocks of at most 65535 bytes, each under a header of nine bytes that
//! holds a 16-bit tag and the length of the whole picture.

use vstd::prelude::*;

verus! {

/// Largest number of picture bytes carried under one header.
pub const UPLOAD_BLOCK_LEN: usize = 65535;

/// Number of bytes in the header of a block.
pub const UPLOAD_HEADER_LEN: usize = 9;

/// Largest picture the length field of a header can announce.
pub const MAX_UPLOAD_LEN: usize = 0xffff_ffff;

/// A command for the display.
#[derive(Debug)]
pub enum DeviceCommand {
    /// Select how the display treats pictures: 0 leaves picture mode, 1
    /// shows what is uploaded.
    ImageMode(u8),
    /// Show the picture held in these bytes, which are an encoded image.
    UploadImage(Vec<u8>),
}

/// Why a command has no wire form.
#[derive(Clone, Copy, Debug, PartialEq, Eq, Structural)]
pub enum CommandError {
    /// The picture is longer than a header can announce.
    PayloadTooLarge,
}

/// The two bytes of `v` as a 16-bit number, least significant first.
pub open spec fn u16_le(v: nat) -> Seq<u8> {
    seq![(v % 256) as u8, (v / 256 % 256) as u8]
}

/// The four bytes of `v` as a 32-bit number, least significant first.
pub open spec fn u32_le(v: nat) -> Seq<u8> {
    seq![
        (v % 256) as u8,
        (v / 256 % 256) as u8,
        (v / 65536 % 256) as u8,
        (v / 16777216 % 256) as u8,
    ]
}

/// The message that selects display mode `mode`: the length of the message,
/// the command group 4, the command 1 and the mode.
pub open spec fn image_mode_bytes(mode: u8) -> Seq<u8> {
    seq![5u8, 0u8, 4u8, 1u8, mode]
}

/// Number of blocks a picture of `len` bytes is carried in.
pub open spec fn block_count(len: nat) -> nat {
    (len + 65534) / 65535
}

/// The tag that opens every header of a picture of `total` bytes: the
/// length of the picture plus the number of its blocks, as far as sixteen
/// bits hold it.
pub open spec fn upload_tag(total: nat) -> nat {
    (total + block_count(total)) % 65536
}

/// The header of a block of a picture of `total` bytes: the tag of the
/// picture, two zero bytes, a byte that is 0 on the first block of a
/// picture and 2 on every later one, and the length of the picture.
pub open spec fn block_header(first: bool, total: nat) -> Seq<u8> {
    u16_le(upload_tag(total)) + seq![0u8, 0u8, if first { 0u8 } else { 2u8 }] + u32_le(total)
}

/// Length of the next block when `remaining` bytes are still to go.
pub open spec fn block_len(remaining: nat) -> nat {
    if remaining < 65535 {
        remaining
    } else {
        65535
    }
}

/// The blocks that carry `rest`, the yet unsent end of a picture of `total`
/// bytes, each under its header.
pub open spec fn upload_blocks(rest: Seq<u8>, first: bool, total: nat) -> Seq<u8>
    decreases rest.len(),
{
    if rest.len() == 0 {
        Seq::empty()
    } else {
        let n = block_len(rest.len()) as int;
        block_header(first, total) + rest.subrange(0, n) + upload_blocks(
            rest.subrange(n, rest.len() as int),
            false,
            total,
        )
    }
}

/// The message that uploads the picture `payload`.
pub open spec fn upload_image_bytes(payload: Seq<u8>) -> Seq<u8> {
    upload_blocks(payload, true, payload.len())
}

/// Length of the message that uploads a picture of `len` bytes: the picture
/// and nine bytes for each of its blocks. A picture whose length does not
/// fit the header's 32-bit field has no message.
pub fn upload_wire_len(len: usize) -> (wire_len: Result<u64, CommandError>)
    ensures
        len <= MAX_UPLOAD_LEN ==> wire_len is Ok && wire_len->Ok_0 == len + 9 * block_count(
            len as nat,
        ),
        len > MAX_UPLOAD_LEN ==> wire_len == Err::<u64, CommandError>(
            CommandError::PayloadTooLarge,
        ),
{
    if len > MAX_UPLOAD_LEN {
        return Err(CommandError::PayloadTooLarge);
    }
    let len = len as u64;
    let blocks = (len + 65534) / 65535;
    Ok(len + 9 * blocks)
}

impl DeviceCommand {
    /// The wire form of the command, where it has one.
    pub open spec fn wire(&self) -> Option<Seq<u8>> {
        match self {
            DeviceCommand::ImageMode(mode) => Some(image_mode_bytes(*mode)),
            DeviceCommand::UploadImage(payload) => if payload@.len() <= MAX_UPLOAD_LEN {
                Some(upload_image_bytes(payload@))
            } else {
                None
            },
        }
    }

    /// Serialises the command into the bytes the display expects. A mode
    /// selection is five bytes long. A picture of up to 65535 bytes becomes
    /// one header, which carries the length of the picture, followed by the
    /// picture; a longer one is cut into blocks with a header each, and a
    /// picture of no bytes gives no bytes. A picture whose length does not
    /// fit the header's 32-bit field is refused.
    pub fn to_bytes(&self) -> (bytes: Result<Vec<u8>, CommandError>)
        ensures
            match self.wire() {
                Some(wire) => bytes is Ok && bytes->Ok_0@ == wire,
                None => bytes == Err::<Vec<u8>, CommandError>(CommandError::PayloadTooLarge),
            },
    {
        match self {
            DeviceCommand::ImageMode(mode) => {
                let mut out: Vec<u8> = Vec::new();
                out.push(5);
                out.push(0);
                out.push(4);
                out.push(1);
                out.push(*mode);
                assert(out@ =~= image_mode_bytes(*mode));
                Ok(out)
            },
            DeviceCommand::UploadImage(payload) => {
                let total = payload.len();
                match upload_wire_len(total) {
                    Ok(_) => {},
                    Err(error) => { return Err(error); },
                }
                let blocks: u64 = (total as u64 + 65534) / 65535;
                let tag: u64 = (total as u64 + blocks) % 65536;
                let mut out: Vec<u8> = Vec::new();
                let mut start: usize = 0;
                assert(payload@.subrange(0, total as int) =~= payload@);
                while start < total
                    invariant
                        start <= total,
                        total == payload@.len(),
                        total <= MAX_UPLOAD_LEN,
                        tag == upload_tag(total as nat),
                        out@ + upload_blocks(
                            payload@.subrange(start as int, total as int),
                            start == 0,
                            total as nat,
                        ) == upload_image_bytes(payload@),
                    decreases total - start,
                {
                    let n: usize = if total - start < UPLOAD_BLOCK_LEN {
                        total - start
                    } else {
                        UPLOAD_BLOCK_LEN
                    };
                    let ghost rest = payload@.subrange(start as int, total as int);
                    let ghost before = out@;
                    let ghost header = block_header(start == 0, total as nat);
                    out.push((tag % 256) as u8);
                    out.push((tag / 256 % 256) as u8);
                    out.push(0);
                    out.push(0);
                    out.push(if start == 0 { 0 } else { 2 });
                    out.push((total % 256) as u8);
                    out.push((total / 256 % 256) as u8);
                    out.push((total / 65536 % 256) as u8);
                    out.push((total / 16777216 % 256) as u8);
                    assert(out@ =~= before + header);
                    let mut j: usize = 0;
                    while j < n
                        invariant
                            j <= n,
                            start + n <= total,
                            total == payload@.len(),
                            out@ == before + header + payload@.subrange(
                                start as int,
                                start as int + j as int,
                            ),
                        decreases n - j,
                    {
                        out.push(payload[start + j]);
                        assert(payload@.subrange(start as int, start as int + j as int).push(
                            payload@[start as int + j as int],
                        ) =~= payload@.subrange(start as int, start as int + j as int + 1));
                        j = j + 1;
                    }
                    proof {
                        assert(rest.subrange(0, n as int) =~= payload@.subrange(
                            start as int,
                            start as int + n as int,
                        ));
                        assert(rest.subrange(n as int, rest.len() as int) =~= payload@.subrange(
                            start as int + n as int,
                            total as int,
                        ));
                        let tail = upload_blocks(
                            payload@.subrange(start as int + n as int, total as int),
                            false,
                            total as nat,
                        );
                        assert(upload_blocks(rest, start == 0, total as nat) == header
                            + rest.subrange(0, n as int) + tail);
                        assert(out@ + tail =~= before + upload_blocks(
                            rest,
                            start == 0,
                            total as nat,
                        ));
                    }
                    start = start + n;
                }
                assert(out@ =~= out@ + upload_blocks(
                    payload@.subrange(start as int, total as int),
                    start == 0,
                    total as nat,
                ));
                Ok(out)
            },
        }
    }
}

/// A picture that fits one block is framed as one header followed by the
/// picture, unmodified, and the last four bytes of the header spell the
/// length of the picture.
pub proof fn law_single_block_upload(payload: Seq<u8>)
    requires
        0 < payload.len() <= 65535,
    ensures
        upload_image_bytes(payload) == block_header(true, payload.len()) + payload,
        upload_image_bytes(payload).len() == payload.len() + 9,
        upload_image_bytes(payload).subrange(5, 9) == u32_le(payload.len()),
        upload_image_bytes(payload).subrange(9, 9 + payload.len() as int) == payload,
{
    let n = payload.len() as int;
    let rest = payload.subrange(n, n);
    assert(rest.len() == 0);
    assert(upload_blocks(rest, false, payload.len()) =~= Seq::<u8>::empty());
    assert(payload.subrange(0, n) =~= payload);
    assert(upload_image_bytes(payload) =~= block_header(true, payload.len()) + payload);
    assert(upload_image_bytes(payload).subrange(5, 9) =~= u32_le(payload.len()));
    assert(upload_image_bytes(payload).subrange(9, 9 + payload.len() as int) =~= payload);
}

/// The framing adds nine bytes for every block and nothing else.
pub proof fn law_upload_len(rest: Seq<u8>, first: bool, total: nat)
    ensures
        upload_blocks(rest, first, total).len() == rest.len() + 9 * block_count(rest.len()),
    decreases rest.len(),
{
    if rest.len() > 0 {
        let n = block_len(rest.len()) as int;
        law_upload_len(rest.subrange(n, rest.len() as int), false, total);
    }
}

} // verus!
