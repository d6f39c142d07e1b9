//! PP16 command frames: the shared header/CRC assembly and one builder per
//! command kind (wakeup, image parameter, image data chunks, finalize).

use vstd::prelude::*;

verus! {

/// Seed and reversed polynomial of the protocol's CRC-16 variant.
pub const CRC16_SEED: u16 = 0x8408;

/// One shift round of the bit-serial CRC: shift right, folding in the
/// polynomial when the low bit was set.
pub open spec fn crc16_round(crc: u16) -> u16 {
    if crc & 1 == 1 {
        (crc >> 1) ^ CRC16_SEED
    } else {
        crc >> 1
    }
}

/// `n` shift rounds applied in sequence.
pub open spec fn crc16_rounds(crc: u16, n: nat) -> u16
    decreases n,
{
    if n == 0 {
        crc
    } else {
        crc16_rounds(crc16_round(crc), (n - 1) as nat)
    }
}

/// Folding one byte into the accumulator: XOR it into the low 8 bits,
/// then run 8 shift rounds.
pub open spec fn crc16_step(crc: u16, byte: u8) -> u16 {
    crc16_rounds(crc ^ (byte as u16), 8)
}

/// The protocol's CRC-16 over a byte sequence: seed 0x8408, polynomial
/// 0x8408 in reversed representation, no final inversion. The empty
/// sequence yields the seed unchanged.
pub open spec fn crc16_spec(data: Seq<u8>) -> u16
    decreases data.len(),
{
    if data.len() == 0 {
        CRC16_SEED
    } else {
        crc16_step(crc16_spec(data.drop_last()), data.last())
    }
}

/// The protocol's custom CRC-16 over `data`.
pub fn crc16(data: &[u8]) -> (crc: u16)
    ensures
        crc == crc16_spec(data@),
{
    let mut crc: u16 = CRC16_SEED;
    let mut i: usize = 0;
    while i < data.len()
        invariant
            i <= data@.len(),
            crc == crc16_spec(data@.subrange(0, i as int)),
        decreases data@.len() - i,
    {
        let byte = data[i];
        crc = crc ^ (byte as u16);
        let ghost folded: u16 = crc;
        let mut round: usize = 0;
        while round < 8
            invariant
                round <= 8,
                crc == crc16_rounds(folded, round as nat),
            decreases 8 - round,
        {
            proof {
                lemma_crc16_rounds_unfold(folded, round as nat);
            }
            if (crc & 0x0001) == 1 {
                crc = (crc >> 1) ^ CRC16_SEED;
            } else {
                crc = crc >> 1;
            }
            round = round + 1;
        }
        proof {
            let prefix = data@.subrange(0, i + 1);
            assert(prefix.drop_last() =~= data@.subrange(0, i as int));
            assert(prefix.last() == data@[i as int]);
        }
        i = i + 1;
    }
    proof {
        assert(data@.subrange(0, data@.len() as int) =~= data@);
    }
    crc
}

/// The fixed 4-byte header that opens every PP16 frame. It is excluded
/// from the CRC.
pub open spec fn header_spec() -> Seq<u8> {
    seq![0x00u8, 0x00u8, 0x00u8, 0x40u8]
}

/// Protocol version byte emitted for graphic shelf labels.
pub const FRAME_VERSION: u8 = 0x85;

/// A complete frame around `body`: the fixed header, then the body
/// (version byte through command payload), then the CRC-16 of the body
/// alone, low byte first.
pub open spec fn framed_spec(body: Seq<u8>) -> Seq<u8> {
    header_spec() + body + seq![
        (crc16_spec(body) & 0xFF) as u8,
        (crc16_spec(body) >> 8) as u8,
    ]
}

/// The version byte followed by the label identifier in reverse byte
/// order: the opening of every command body.
pub open spec fn body_prefix_spec(plid: Seq<u8>) -> Seq<u8> {
    seq![FRAME_VERSION, plid[3], plid[2], plid[1], plid[0]]
}

/// Wraps a command body into a complete frame: fixed header in front,
/// CRC-16 of the body appended low byte first.
fn assemble_frame(body: Vec<u8>) -> (frame: Vec<u8>)
    requires
        body@.len() + 6 <= usize::MAX,
    ensures
        frame@ == framed_spec(body@),
{
    let crc = crc16(body.as_slice());
    let mut frame: Vec<u8> = Vec::new();
    frame.push(0x00);
    frame.push(0x00);
    frame.push(0x00);
    frame.push(0x40);
    let mut i: usize = 0;
    while i < body.len()
        invariant
            i <= body@.len(),
            frame@ == header_spec() + body@.subrange(0, i as int),
        decreases body@.len() - i,
    {
        frame.push(body[i]);
        proof {
            assert(header_spec() + body@.subrange(0, i as int) + seq![body@[i as int]]
                =~= header_spec() + body@.subrange(0, i + 1));
        }
        i = i + 1;
    }
    frame.push((crc & 0xFF) as u8);
    frame.push((crc >> 8) as u8);
    proof {
        assert(body@.subrange(0, body@.len() as int) =~= body@);
        assert(frame@ =~= framed_spec(body@));
    }
    frame
}

/// The wakeup command's body: version, reversed label identifier, command
/// code 0x17, parameter 0x01, a zero 16-bit key, one reserved zero byte,
/// and 22 filler bytes of 0x01.
pub open spec fn wakeup_body_spec(plid: Seq<u8>) -> Seq<u8> {
    body_prefix_spec(plid) + seq![0x17u8, 0x01u8, 0x00u8, 0x00u8, 0x00u8]
        + Seq::new(22, |j: int| 0x01u8)
}

/// Builds the wakeup frame for the label `plid`: a fixed 38-byte frame
/// that differs between labels only in the identifier bytes and the CRC.
pub fn get_wakeup_command(plid: [u8; 4]) -> (frame: Vec<u8>)
    ensures
        frame@ == framed_spec(wakeup_body_spec(plid@)),
        frame@.len() == 38,
{
    let mut body: Vec<u8> = Vec::new();
    body.push(FRAME_VERSION);
    body.push(plid[3]);
    body.push(plid[2]);
    body.push(plid[1]);
    body.push(plid[0]);
    body.push(0x17);
    body.push(0x01);
    body.push(0x00);
    body.push(0x00);
    body.push(0x00);
    let mut filler: usize = 0;
    while filler < 22
        invariant
            filler <= 22,
            body@ == wakeup_body_spec(plid@).subrange(0, 10 + filler),
        decreases 22 - filler,
    {
        body.push(0x01);
        proof {
            assert(wakeup_body_spec(plid@).subrange(0, 10 + filler) + seq![0x01u8]
                =~= wakeup_body_spec(plid@).subrange(0, 10 + filler + 1));
        }
        filler = filler + 1;
    }
    proof {
        assert(body@ =~= wakeup_body_spec(plid@));
    }
    assemble_frame(body)
}

/// Command code shared by the image parameter, image data and finalize
/// commands.
pub const IMAGE_COMMAND: u8 = 0x34;

/// The image-parameter command's body: command code 0x34, the nominal
/// length constant 5, the image-data length big-endian, an unused byte,
/// type byte 0 (raw), page byte 1, width, height and the two offsets each
/// big-endian, a zero 16-bit key, marker byte 0x88, and 6 reserved zero
/// bytes.
pub open spec fn image_parameter_body_spec(
    plid: Seq<u8>,
    width: u16,
    height: u16,
    x_pos: u16,
    y_pos: u16,
    img_len: u16,
) -> Seq<u8> {
    body_prefix_spec(plid) + seq![
        IMAGE_COMMAND,
        0x00u8,
        0x00u8,
        0x00u8,
        0x05u8,
        (img_len >> 8) as u8,
        (img_len & 0xFF) as u8,
        0x00u8,
        0x00u8,
        0x01u8,
        (width >> 8) as u8,
        (width & 0xFF) as u8,
        (height >> 8) as u8,
        (height & 0xFF) as u8,
        (x_pos >> 8) as u8,
        (x_pos & 0xFF) as u8,
        (y_pos >> 8) as u8,
        (y_pos & 0xFF) as u8,
        0x00u8,
        0x00u8,
        0x88u8,
    ] + Seq::new(6, |j: int| 0x00u8)
}

/// Builds the image-parameter frame announcing an image of the given
/// pixel dimensions, position and packed byte length for the label
/// `plid`. The dimension and length values are emitted verbatim; their
/// consistency with the image data is the caller's concern.
pub fn get_image_parameter_frame(
    plid: [u8; 4],
    width: u16,
    height: u16,
    x_pos: u16,
    y_pos: u16,
    img_len: u16,
) -> (frame: Vec<u8>)
    ensures
        frame@ == framed_spec(image_parameter_body_spec(plid@, width, height, x_pos, y_pos, img_len)),
        frame@.len() == 38,
{
    let mut body: Vec<u8> = Vec::new();
    body.push(FRAME_VERSION);
    body.push(plid[3]);
    body.push(plid[2]);
    body.push(plid[1]);
    body.push(plid[0]);
    body.push(IMAGE_COMMAND);
    body.push(0x00);
    body.push(0x00);
    body.push(0x00);
    body.push(0x05);
    body.push((img_len >> 8) as u8);
    body.push((img_len & 0xFF) as u8);
    body.push(0x00);
    body.push(0x00);
    body.push(0x01);
    body.push((width >> 8) as u8);
    body.push((width & 0xFF) as u8);
    body.push((height >> 8) as u8);
    body.push((height & 0xFF) as u8);
    body.push((x_pos >> 8) as u8);
    body.push((x_pos & 0xFF) as u8);
    body.push((y_pos >> 8) as u8);
    body.push((y_pos & 0xFF) as u8);
    body.push(0x00);
    body.push(0x00);
    body.push(0x88);
    body.push(0x00);
    body.push(0x00);
    body.push(0x00);
    body.push(0x00);
    body.push(0x00);
    body.push(0x00);
    proof {
        assert(body@ =~= image_parameter_body_spec(plid@, width, height, x_pos, y_pos, img_len));
    }
    assemble_frame(body)
}

/// The finalize command's body: command code 0x34, the nominal length
/// constant 1, and a 22-byte zero payload.
pub open spec fn final_body_spec(plid: Seq<u8>) -> Seq<u8> {
    body_prefix_spec(plid) + seq![IMAGE_COMMAND, 0x00u8, 0x00u8, 0x00u8, 0x01u8]
        + Seq::new(22, |j: int| 0x00u8)
}

/// Builds the finalize frame that commits the transferred image on the
/// label `plid`: a fixed 38-byte frame.
pub fn get_final_frame(plid: [u8; 4]) -> (frame: Vec<u8>)
    ensures
        frame@ == framed_spec(final_body_spec(plid@)),
        frame@.len() == 38,
{
    let mut body: Vec<u8> = Vec::new();
    body.push(FRAME_VERSION);
    body.push(plid[3]);
    body.push(plid[2]);
    body.push(plid[1]);
    body.push(plid[0]);
    body.push(IMAGE_COMMAND);
    body.push(0x00);
    body.push(0x00);
    body.push(0x00);
    body.push(0x01);
    let mut filler: usize = 0;
    while filler < 22
        invariant
            filler <= 22,
            body@ == final_body_spec(plid@).subrange(0, 10 + filler),
        decreases 22 - filler,
    {
        body.push(0x00);
        proof {
            assert(final_body_spec(plid@).subrange(0, 10 + filler) + seq![0x00u8]
                =~= final_body_spec(plid@).subrange(0, 10 + filler + 1));
        }
        filler = filler + 1;
    }
    proof {
        assert(body@ =~= final_body_spec(plid@));
    }
    assemble_frame(body)
}

/// Image payload bytes carried by each data frame; only the last chunk of
/// an image may be shorter.
pub const CHUNK_SIZE: usize = 20;

/// The body of image-data chunk `index`: command code 0x34, the nominal
/// length constant 0x20, the chunk index big-endian, then the chunk's raw
/// payload.
pub open spec fn data_chunk_body_spec(plid: Seq<u8>, index: u16, chunk: Seq<u8>) -> Seq<u8> {
    body_prefix_spec(plid) + seq![
        IMAGE_COMMAND,
        0x00u8,
        0x00u8,
        0x00u8,
        0x20u8,
        (index >> 8) as u8,
        (index & 0xFF) as u8,
    ] + chunk
}

/// Payload of chunk `i` of `data`: bytes 20·i up to 20·(i+1), the last
/// chunk stopping at the end of the data.
pub open spec fn chunk_of(data: Seq<u8>, i: int) -> Seq<u8> {
    data.subrange(
        CHUNK_SIZE * i,
        if CHUNK_SIZE * i + CHUNK_SIZE <= data.len() {
            CHUNK_SIZE * i + CHUNK_SIZE
        } else {
            data.len() as int
        },
    )
}

/// Number of chunks an image of `len` bytes is split into: zero for an
/// empty image, otherwise the rounded-up quotient by the chunk size.
pub open spec fn num_chunks(len: nat) -> nat {
    ((len + CHUNK_SIZE - 1) / (CHUNK_SIZE as int)) as nat
}

/// Splits `img_data` into frames of at most 20 payload bytes each, with
/// sequential chunk indices starting at 0 on every call. An empty input
/// yields no frames. The length bound keeps every chunk index within its
/// 16-bit frame field.
pub fn build_data_frames(plid: [u8; 4], img_data: &[u8]) -> (frames: Vec<Vec<u8>>)
    requires
        img_data@.len() <= CHUNK_SIZE * 0x10000,
    ensures
        frames@.len() == num_chunks(img_data@.len()),
        forall|i: int| 0 <= i < frames@.len()
            ==> #[trigger] frames@[i]@ == framed_spec(
                data_chunk_body_spec(plid@, i as u16, chunk_of(img_data@, i)),
            ),
{
    let mut frames: Vec<Vec<u8>> = Vec::new();
    let mut offset: usize = 0;
    let mut index: usize = 0;
    while offset < img_data.len()
        invariant
            img_data@.len() <= CHUNK_SIZE * 0x10000,
            offset <= img_data@.len(),
            index == 0 ==> offset == 0,
            index > 0 ==> CHUNK_SIZE * (index - 1) < offset <= CHUNK_SIZE * index,
            offset < img_data@.len() ==> offset == CHUNK_SIZE * index,
            frames@.len() == index,
            forall|i: int| 0 <= i < frames@.len()
                ==> #[trigger] frames@[i]@ == framed_spec(
                    data_chunk_body_spec(plid@, i as u16, chunk_of(img_data@, i)),
                ),
        decreases img_data@.len() - offset,
    {
        assert(index < 0x10000);
        let chunk_index: u16 = index as u16;
        let end: usize = if offset + CHUNK_SIZE <= img_data.len() {
            offset + CHUNK_SIZE
        } else {
            img_data.len()
        };
        let mut body: Vec<u8> = Vec::new();
        body.push(FRAME_VERSION);
        body.push(plid[3]);
        body.push(plid[2]);
        body.push(plid[1]);
        body.push(plid[0]);
        body.push(IMAGE_COMMAND);
        body.push(0x00);
        body.push(0x00);
        body.push(0x00);
        body.push(0x20);
        body.push((chunk_index >> 8) as u8);
        body.push((chunk_index & 0xFF) as u8);
        let ghost prefix: Seq<u8> = body@;
        let mut j: usize = offset;
        while j < end
            invariant
                offset <= j <= end,
                end <= img_data@.len(),
                body@ == prefix + img_data@.subrange(offset as int, j as int),
            decreases end - j,
        {
            body.push(img_data[j]);
            proof {
                assert(prefix + img_data@.subrange(offset as int, j as int)
                    + seq![img_data@[j as int]]
                    =~= prefix + img_data@.subrange(offset as int, j + 1));
            }
            j = j + 1;
        }
        proof {
            assert(img_data@.subrange(offset as int, end as int)
                == chunk_of(img_data@, index as int));
            assert(body@ =~= data_chunk_body_spec(
                plid@,
                chunk_index,
                chunk_of(img_data@, index as int),
            ));
        }
        let frame = assemble_frame(body);
        frames.push(frame);
        offset = end;
        index = index + 1;
    }
    proof {
        if index == 0 {
            assert(num_chunks(img_data@.len()) == 0);
        } else {
            assert(CHUNK_SIZE * (index - 1) < img_data@.len() <= CHUNK_SIZE * index);
            assert(index == num_chunks(img_data@.len()));
        }
    }
    frames
}

/// Law: in every frame the builders produce, re-deriving the CRC-16 from
/// the frame's own body — the bytes between the 4-byte header and the
/// 2-byte trailer — matches the trailer, low byte first.
pub proof fn lemma_frame_crc_round_trip(body: Seq<u8>)
    ensures
        framed_spec(body).len() == body.len() + 6,
        framed_spec(body).subrange(4, framed_spec(body).len() - 2) == body,
        framed_spec(body)[framed_spec(body).len() - 2] == (crc16_spec(
            framed_spec(body).subrange(4, framed_spec(body).len() - 2),
        ) & 0xFF) as u8,
        framed_spec(body)[framed_spec(body).len() - 1] == (crc16_spec(
            framed_spec(body).subrange(4, framed_spec(body).len() - 2),
        ) >> 8) as u8,
{
    assert(framed_spec(body).subrange(4, framed_spec(body).len() - 2) =~= body);
}

/// Total payload bytes carried by the first `n` chunks of `data`.
pub open spec fn total_chunk_len(data: Seq<u8>, n: int) -> int
    decreases n,
{
    if n <= 0 {
        0
    } else {
        total_chunk_len(data, n - 1) + chunk_of(data, n - 1).len()
    }
}

/// The first `k` chunks of `data` together carry the first
/// `min(20·k, len)` bytes' worth of payload.
proof fn lemma_chunk_len_prefix(data: Seq<u8>, k: int)
    requires
        0 <= k <= num_chunks(data.len()),
    ensures
        total_chunk_len(data, k) == if CHUNK_SIZE * k <= data.len() {
            CHUNK_SIZE * k
        } else {
            data.len() as int
        },
    decreases k,
{
    if k > 0 {
        lemma_chunk_len_prefix(data, k - 1);
        assert(CHUNK_SIZE * k <= data.len() + CHUNK_SIZE - 1);
    }
}

/// Law: splitting an image into chunks loses and duplicates nothing; the
/// chunk payload lengths sum to the length of the image, across the
/// chunks of a single call.
pub proof fn lemma_chunk_lengths_sum(data: Seq<u8>)
    ensures
        total_chunk_len(data, num_chunks(data.len()) as int) == data.len(),
{
    lemma_chunk_len_prefix(data, num_chunks(data.len()) as int);
    assert(CHUNK_SIZE * num_chunks(data.len()) >= data.len());
}

/// Appending one more round to a run of rounds is the same as running one
/// round on the result so far.
proof fn lemma_crc16_rounds_unfold(crc: u16, n: nat)
    ensures
        crc16_rounds(crc, n + 1) == crc16_round(crc16_rounds(crc, n)),
    decreases n,
{
    assert(crc16_rounds(crc, n + 1) == crc16_rounds(crc16_round(crc), n));
    if n == 0 {
        assert(crc16_rounds(crc16_round(crc), 0) == crc16_round(crc));
    } else {
        lemma_crc16_rounds_unfold(crc16_round(crc), (n - 1) as nat);
        assert(crc16_rounds(crc, n) == crc16_rounds(crc16_round(crc), (n - 1) as nat));
    }
}

} // verus!

