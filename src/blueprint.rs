use vstd::prelude::*;
use crate::block::{BlockData, BlockView, blocks_from, lemma_block_at_advances, lemma_blocks_from_step, prepend};
use crate::error::FormatError;
use crate::header::{BlueprintHeader, HEADER_LEN};

verus! {

/// A decoded blueprint: its header and its blocks in the order of the input.
#[derive(Debug, PartialEq, Eq)]
pub struct BlueprintData {
    pub header: BlueprintHeader,
    pub blocks: Vec<BlockData>,
}

/// The views of a sequence of blocks.
pub open spec fn block_views(bs: Seq<BlockData>) -> Seq<BlockView> {
    bs.map_values(|b: BlockData| b@)
}

impl BlueprintData {
    /// Decodes a whole blueprint: the header, then blocks until the input ends
    /// right after one.
    pub fn from_reader(bytes: &[u8]) -> (r: Result<BlueprintData, FormatError>)
        ensures
            r matches Ok(d) ==> d.header.encoded_by(bytes@) && blocks_from(bytes@, 20, 0) == Ok::<
                Seq<BlockView>,
                FormatError,
            >(block_views(d.blocks@)),
            r matches Err(e) ==> if bytes@.len() < 20 {
                e == FormatError::TruncatedHeader
            } else {
                blocks_from(bytes@, 20, 0) == Err::<Seq<BlockView>, FormatError>(e)
            },
    {
        let header = match BlueprintHeader::from_reader(bytes) {
            Ok(h) => h,
            Err(e) => return Err(e),
        };
        let mut blocks: Vec<BlockData> = Vec::new();
        let mut pos: usize = HEADER_LEN;
        let mut index: usize = 0;
        assert(block_views(blocks@) =~= seq![]);
        assert(prepend(seq![], blocks_from(bytes@, 20, 0)) == blocks_from(bytes@, 20, 0)) by {
            if let Ok(bs) = blocks_from(bytes@, 20, 0) {
                assert(seq![] + bs =~= bs);
            }
        }
        loop
            invariant
                HEADER_LEN <= pos <= bytes@.len(),
                index <= pos,
                header.encoded_by(bytes@),
                blocks_from(bytes@, 20, 0) == prepend(
                    block_views(blocks@),
                    blocks_from(bytes@, pos as int, index as nat),
                ),
            decreases bytes@.len() - pos,
        {
            proof {
                lemma_block_at_advances(bytes@, pos as int, index as nat);
                lemma_blocks_from_step(bytes@, pos as int, index as nat);
            }
            match BlockData::from_reader(bytes, pos, index) {
                Err(e) => return Err(e),
                Ok(None) => {
                    assert(block_views(blocks@) + seq![] =~= block_views(blocks@));
                    return Ok(BlueprintData { header, blocks });
                },
                Ok(Some((b, next))) => {
                    let ghost old_views = block_views(blocks@);
                    let ghost bv = b@;
                    blocks.push(b);
                    assert(block_views(blocks@) =~= old_views + seq![bv]);
                    assert forall|bs: Seq<BlockView>| #[trigger]
                        (old_views + (seq![bv] + bs)) =~= (old_views + seq![bv]) + bs by {}
                    pos = next;
                    index = index + 1;
                },
            }
        }
    }
}

} // verus!
