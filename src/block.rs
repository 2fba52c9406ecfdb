use vstd::prelude::*;
use vstd::slice::slice_subrange;
use crate::bytes::{be_u32_at, read_be_u32};
use crate::error::FormatError;

verus! {

/// The length of the zstd frame at the front of a byte sequence, if one is there.
pub uninterp spec fn zstd_frame_len(s: Seq<u8>) -> Option<usize>;

/// The content that a zstd frame decompresses to, if it is a valid frame.
pub uninterp spec fn zstd_decoded(frame: Seq<u8>) -> Option<Seq<u8>>;

/// Relies on `zstd::zstd_safe::find_frame_compressed_size` (`ZSTD_findFrameCompressedSize`):
/// the compressed length of the first frame of `s`, a frame that lies within `s`.
#[verifier::external_body]
fn frame_len(s: &[u8]) -> (r: Option<usize>)
    ensures
        r == zstd_frame_len(s@),
        r matches Some(n) ==> 0 < n <= s@.len(),
{
    zstd::zstd_safe::find_frame_compressed_size(s).ok()
}

/// Relies on `zstd::stream::decode_all`: the decompressed content of `frame`.
#[verifier::external_body]
fn decompress_frame(frame: &[u8]) -> (r: Option<Vec<u8>>)
    ensures
        r matches Some(v) ==> zstd_decoded(frame@) == Some(v@),
        r is None ==> zstd_decoded(frame@) is None,
{
    zstd::stream::decode_all(frame).ok()
}

/// One framed record of a blueprint, with its payload decompressed.
#[derive(Debug, PartialEq, Eq)]
pub struct BlockData {
    pub size: u32,
    pub id: u32,
    pub data_size: u32,
    pub data: Vec<u8>,
}

/// The mathematical value of a block.
pub struct BlockView {
    pub size: u32,
    pub id: u32,
    pub data_size: u32,
    pub data: Seq<u8>,
}

impl View for BlockData {
    type V = BlockView;

    open spec fn view(&self) -> BlockView {
        BlockView { size: self.size, id: self.id, data_size: self.data_size, data: self.data@ }
    }
}

/// The bytes that an optional vector holds.
pub open spec fn opt_bytes(o: Option<Vec<u8>>) -> Option<Seq<u8>> {
    match o {
        Some(v) => Some(v@),
        None => None,
    }
}

/// The payload of block number `index` given what its frame decompressed to:
/// the first `data_size` bytes, or an error when there are fewer or the frame is bad.
pub open spec fn payload_from(decoded: Option<Seq<u8>>, data_size: u32, index: nat) -> Result<
    Seq<u8>,
    FormatError,
> {
    match decoded {
        None => Err(
            FormatError::DecompressionError {
                block_index: index as usize,
                expected_len: data_size,
                obtained_len: 0,
            },
        ),
        Some(d) => if d.len() < data_size {
            Err(
                FormatError::DecompressionError {
                    block_index: index as usize,
                    expected_len: data_size,
                    obtained_len: d.len() as usize,
                },
            )
        } else {
            Ok(d.take(data_size as int))
        },
    }
}

/// Reading block number `index` at position `pos` of `s`: `None` at the clean end of
/// the input, else the block and the position just after its compressed frame.
pub open spec fn block_at(s: Seq<u8>, pos: int, index: nat) -> Result<
    Option<(BlockView, int)>,
    FormatError,
> {
    if pos >= s.len() {
        Ok(None)
    } else if s.len() - pos < 12 {
        Err(FormatError::TruncatedBlock { offset: pos as usize })
    } else {
        let data_size = be_u32_at(s, pos + 8);
        let rest = s.subrange(pos + 12, s.len() as int);
        match zstd_frame_len(rest) {
            Some(n) if 0 < n <= rest.len() => match payload_from(
                zstd_decoded(rest.take(n as int)),
                data_size,
                index,
            ) {
                Ok(data) => Ok(
                    Some(
                        (
                            BlockView {
                                size: be_u32_at(s, pos),
                                id: be_u32_at(s, pos + 4),
                                data_size,
                                data,
                            },
                            pos + 12 + n,
                        ),
                    ),
                ),
                Err(e) => Err(e),
            },
            _ => Err(
                FormatError::DecompressionError {
                    block_index: index as usize,
                    expected_len: data_size,
                    obtained_len: 0,
                },
            ),
        }
    }
}

/// `pre` followed by the blocks of `r`, or the error of `r`.
pub open spec fn prepend(pre: Seq<BlockView>, r: Result<Seq<BlockView>, FormatError>) -> Result<
    Seq<BlockView>,
    FormatError,
> {
    match r {
        Ok(bs) => Ok(pre + bs),
        Err(e) => Err(e),
    }
}

/// All the blocks from position `pos` to the end of `s`, the first being number `index`.
pub open spec fn blocks_from(s: Seq<u8>, pos: int, index: nat) -> Result<
    Seq<BlockView>,
    FormatError,
>
    decreases s.len() - pos,
{
    match block_at(s, pos, index) {
        Err(e) => Err(e),
        Ok(None) => Ok(seq![]),
        Ok(Some((b, next))) => if pos < next <= s.len() {
            prepend(seq![b], blocks_from(s, next, index + 1))
        } else {
            Ok(seq![b])
        },
    }
}

/// Whether `bs` are complete blocks read one after another from `pos`, the first
/// being number `index`, the last ending at `end`.
pub open spec fn complete_blocks(
    s: Seq<u8>,
    pos: int,
    index: nat,
    bs: Seq<BlockView>,
    end: int,
) -> bool
    decreases bs.len(),
{
    if bs.len() == 0 {
        end == pos
    } else {
        match block_at(s, pos, index) {
            Ok(Some((b, next))) => b == bs[0] && complete_blocks(
                s,
                next,
                index + 1,
                bs.drop_first(),
                end,
            ),
            _ => false,
        }
    }
}

/// The value of what reading one block returned.
pub open spec fn step_view(r: Result<Option<(BlockData, usize)>, FormatError>) -> Result<
    Option<(BlockView, int)>,
    FormatError,
> {
    match r {
        Ok(Some((b, next))) => Ok(Some((b@, next as int))),
        Ok(None) => Ok(None),
        Err(e) => Err(e),
    }
}

/// The value of a payload result.
pub open spec fn payload_view(r: Result<Vec<u8>, FormatError>) -> Result<Seq<u8>, FormatError> {
    match r {
        Ok(v) => Ok(v@),
        Err(e) => Err(e),
    }
}

/// A step that yields a block moves past its 12-byte prefix and a non-empty frame.
pub proof fn lemma_block_at_advances(s: Seq<u8>, pos: int, index: nat)
    requires
        0 <= pos,
    ensures
        block_at(s, pos, index) matches Ok(Some((b, next))) ==> pos + 13 <= next <= s.len(),
{
}

/// Decoding blocks from a position where one block is read goes on after it.
pub proof fn lemma_blocks_from_step(s: Seq<u8>, pos: int, index: nat)
    requires
        0 <= pos,
    ensures
        block_at(s, pos, index) matches Ok(Some((b, next))) ==> blocks_from(s, pos, index)
            == prepend(seq![b], blocks_from(s, next, index + 1)),
{
    lemma_block_at_advances(s, pos, index);
}

/// The end of the input right after a block is a clean end; one to three bytes
/// left over there are a truncated block.
pub proof fn lemma_clean_termination(
    s: Seq<u8>,
    pos: int,
    index: nat,
    bs: Seq<BlockView>,
    end: int,
)
    requires
        0 <= pos,
        complete_blocks(s, pos, index, bs, end),
    ensures
        end == s.len() ==> blocks_from(s, pos, index) == Ok::<Seq<BlockView>, FormatError>(bs),
        1 <= s.len() - end <= 3 ==> blocks_from(s, pos, index) == Err::<Seq<BlockView>, FormatError>(
            FormatError::TruncatedBlock { offset: end as usize },
        ),
    decreases bs.len(),
{
    if bs.len() == 0 {
        assert(seq![] =~= bs);
    } else {
        let (b, next) = block_at(s, pos, index)->Ok_0->Some_0;
        lemma_block_at_advances(s, pos, index);
        lemma_blocks_from_step(s, pos, index);
        lemma_clean_termination(s, next, index + 1, bs.drop_first(), end);
        assert(seq![b] + bs.drop_first() =~= bs);
    }
}

/// The payload kept from what a frame decompressed to: its first `data_size`
/// bytes, or the error that names what was asked and what was obtained.
pub fn finish_payload(decoded: Option<Vec<u8>>, data_size: u32, block_index: usize) -> (r: Result<
    Vec<u8>,
    FormatError,
>)
    ensures
        payload_view(r) == payload_from(opt_bytes(decoded), data_size, block_index as nat),
{
    match decoded {
        None => Err(
            FormatError::DecompressionError {
                block_index,
                expected_len: data_size,
                obtained_len: 0,
            },
        ),
        Some(mut v) => {
            if v.len() < data_size as usize {
                Err(
                    FormatError::DecompressionError {
                        block_index,
                        expected_len: data_size,
                        obtained_len: v.len(),
                    },
                )
            } else {
                v.truncate(data_size as usize);
                assert(v@ =~= opt_bytes(decoded)->Some_0.take(data_size as int));
                Ok(v)
            }
        },
    }
}

impl BlockData {
    /// Reads block number `block_index` at position `pos` of `bytes`: its prefix
    /// (size, id and data size, big-endian), then one zstd frame of which the first
    /// `data_size` decompressed bytes are the payload. `None` where no byte is left.
    pub fn from_reader(bytes: &[u8], pos: usize, block_index: usize) -> (r: Result<
        Option<(BlockData, usize)>,
        FormatError,
    >)
        requires
            pos <= bytes@.len(),
        ensures
            step_view(r) == block_at(bytes@, pos as int, block_index as nat),
    {
        let len = bytes.len();
        if pos == len {
            return Ok(None);
        }
        if len - pos < 12 {
            return Err(FormatError::TruncatedBlock { offset: pos });
        }
        let size = read_be_u32(bytes, pos);
        let id = read_be_u32(bytes, pos + 4);
        let data_size = read_be_u32(bytes, pos + 8);
        let start = pos + 12;
        let rest = slice_subrange(bytes, start, len);
        assert(rest@ =~= bytes@.subrange(start as int, len as int));
        let n = match frame_len(rest) {
            Some(n) => n,
            None => {
                return Err(
                    FormatError::DecompressionError {
                        block_index,
                        expected_len: data_size,
                        obtained_len: 0,
                    },
                );
            },
        };
        let frame = slice_subrange(rest, 0, n);
        assert(frame@ =~= rest@.take(n as int));
        let decoded = decompress_frame(frame);
        match finish_payload(decoded, data_size, block_index) {
            Ok(data) => Ok(Some((BlockData { size, id, data_size, data }, start + n))),
            Err(e) => Err(e),
        }
    }
}

} // verus!
