use vstd::prelude::*;
use vstd::arithmetic::div_mod::lemma_fundamental_div_mod_converse;
use crate::blueprint::BlueprintData;
use crate::bytes::{be_u32_at, read_be_u32};
use crate::error::FormatError;
use crate::ink::{Ink, cell_ink, ink_of_code};

verus! {

/// A cell whose code is not in the table: the code, its row `y` and its column `x`.
#[derive(Debug, Clone, Copy, PartialEq, Eq, Structural)]
pub struct UnknownSymbolCode {
    pub code: u32,
    pub y: usize,
    pub x: usize,
}

/// The inks of a grid, row by row, with a note for each cell whose code is unknown.
#[derive(Debug, PartialEq, Eq)]
pub struct InkGrid {
    pub inks: Vec<Vec<Ink>>,
    pub unknown: Vec<UnknownSymbolCode>,
}

/// The code of cell `(y, x)` of a grid `w` cells wide: the big-endian word at
/// its place in row-major order.
pub open spec fn cell_code(p: Seq<u8>, w: int, y: int, x: int) -> u32 {
    be_u32_at(p, 4 * (y * w + x))
}

/// The notes on unknown codes among the first `k` cells, in row-major order.
pub open spec fn unknown_cells(p: Seq<u8>, w: nat, k: nat) -> Seq<UnknownSymbolCode>
    decreases k,
{
    if k == 0 {
        seq![]
    } else {
        let i = (k - 1) as nat;
        let c = be_u32_at(p, 4 * i as int);
        let pre = unknown_cells(p, w, i);
        if ink_of_code(c) is None {
            pre.push(UnknownSymbolCode { code: c, y: (i / w) as usize, x: (i % w) as usize })
        } else {
            pre
        }
    }
}

/// The number of payload bytes that a grid of `w` by `h` cells reads.
pub open spec fn grid_bytes(w: u32, h: u32) -> int {
    w * h * 4
}

impl InkGrid {
    /// Whether this grid is the `w` by `h` grid that payload `p` encodes.
    pub open spec fn decoded_from(self, p: Seq<u8>, w: u32, h: u32) -> bool {
        &&& self.inks@.len() == h
        &&& forall|y: int| 0 <= y < h ==> (#[trigger] self.inks@[y])@.len() == w
        &&& forall|y: int, x: int|
            0 <= y < h && 0 <= x < w ==> (#[trigger] self.inks@[y]@[x]) == cell_ink(
                cell_code(p, w as int, y, x),
            )
        &&& self.unknown@ == unknown_cells(p, w as nat, (w * h) as nat)
    }
}

/// What decoding payload `p` as a `w` by `h` grid gives.
pub open spec fn grid_outcome(r: Result<InkGrid, FormatError>, p: Seq<u8>, w: u32, h: u32) -> bool {
    match r {
        Ok(g) => p.len() >= grid_bytes(w, h) && g.decoded_from(p, w, h),
        Err(e) => p.len() < grid_bytes(w, h) && e == FormatError::GridSizeMismatch {
            expected: grid_bytes(w, h) as u128,
            actual: p.len() as usize,
        },
    }
}

proof fn lemma_cell_in_grid(y: int, x: int, w: int, h: int)
    requires
        0 <= y < h,
        0 <= x < w,
    ensures
        y * w + x + 1 <= w * h,
{
    assert(y * w + x + 1 <= w * h) by (nonlinear_arith)
        requires
            0 <= y < h,
            0 <= x < w,
    ;
}

proof fn lemma_next_row(y: int, w: int)
    ensures
        (y + 1) * w == y * w + w,
        y * w == w * y,
{
    assert((y + 1) * w == y * w + w) by (nonlinear_arith);
    assert(y * w == w * y) by (nonlinear_arith);
}

proof fn lemma_unknown_prefix(p: Seq<u8>, w: nat, t: nat, k: nat)
    requires
        w > 0,
        ink_of_code(be_u32_at(p, 4 * t as int)) is None,
        forall|i: nat| i < k && i != t ==> (#[trigger] ink_of_code(be_u32_at(p, 4 * i as int))) is Some,
    ensures
        unknown_cells(p, w, k) == if k <= t {
            Seq::<UnknownSymbolCode>::empty()
        } else {
            seq![
                UnknownSymbolCode {
                    code: be_u32_at(p, 4 * t as int),
                    y: (t / w) as usize,
                    x: (t % w) as usize,
                },
            ]
        },
    decreases k,
{
    if k > 0 {
        let i = (k - 1) as nat;
        lemma_unknown_prefix(p, w, t, i);
        if i != t {
            assert(ink_of_code(be_u32_at(p, 4 * i as int)) is Some);
        } else {
            assert(Seq::<UnknownSymbolCode>::empty().push(
                UnknownSymbolCode {
                    code: be_u32_at(p, 4 * t as int),
                    y: (t / w) as usize,
                    x: (t % w) as usize,
                },
            ) =~= seq![
                UnknownSymbolCode {
                    code: be_u32_at(p, 4 * t as int),
                    y: (t / w) as usize,
                    x: (t % w) as usize,
                },
            ]);
        }
    }
}

/// A payload with exactly one cell whose code is not in the table decodes to a grid
/// with `Invalid` in that cell and exactly one note, which gives its code, row and column.
pub proof fn lemma_single_unknown_code(p: Seq<u8>, w: u32, h: u32, y: int, x: int)
    requires
        p.len() >= grid_bytes(w, h),
        0 <= y < h,
        0 <= x < w,
        ink_of_code(cell_code(p, w as int, y, x)) is None,
        forall|yy: int, xx: int|
            0 <= yy < h && 0 <= xx < w && (yy != y || xx != x) ==> (#[trigger] ink_of_code(
                cell_code(p, w as int, yy, xx),
            )) is Some,
    ensures
        cell_ink(cell_code(p, w as int, y, x)) == Ink::Invalid,
        unknown_cells(p, w as nat, (w * h) as nat) == seq![
            UnknownSymbolCode { code: cell_code(p, w as int, y, x), y: y as usize, x: x as usize },
        ],
{
    let wi = w as int;
    let t = y * wi + x;
    lemma_cell_in_grid(y, x, wi, h as int);
    lemma_fundamental_div_mod_converse(t, wi, y, x);
    assert forall|i: nat| i < w * h && i != t implies (#[trigger] ink_of_code(
        be_u32_at(p, 4 * i as int),
    )) is Some by {
        let q = i as int / wi;
        let r = i as int % wi;
        vstd::arithmetic::div_mod::lemma_fundamental_div_mod(i as int, wi);
        assert(0 <= r < wi);
        assert(q * wi == wi * q) by (nonlinear_arith);
        assert(0 <= q < h) by (nonlinear_arith)
            requires
                i == wi * q + r,
                0 <= r < wi,
                0 <= i < wi * h,
                wi > 0,
        ;
        if q == y && r == x {
            assert(i == t);
        }
        assert(cell_code(p, wi, q, r) == be_u32_at(p, 4 * i as int));
    }
    lemma_unknown_prefix(p, w as nat, t as nat, (w * h) as nat);
}

/// Decodes a payload as a grid `width` cells wide and `height` high, row by row.
/// A cell whose code is not in the table shows `Invalid` and gets a note.
pub fn inks_from_payload(payload: &[u8], width: u32, height: u32) -> (r: Result<
    InkGrid,
    FormatError,
>)
    ensures
        grid_outcome(r, payload@, width, height),
{
    let len = payload.len();
    assert((width as int) * (height as int) <= 0xFFFF_FFFF * 0xFFFF_FFFF) by (nonlinear_arith)
        requires
            width <= 0xFFFF_FFFFu32,
            height <= 0xFFFF_FFFFu32,
    ;
    let cells: u64 = (width as u64) * (height as u64);
    let needed: u128 = (cells as u128) * 4;
    if (len as u128) < needed {
        return Err(FormatError::GridSizeMismatch { expected: needed, actual: len });
    }
    let w = width as usize;
    let h = height as usize;
    let ghost p = payload@;
    let mut inks: Vec<Vec<Ink>> = Vec::new();
    let mut unknown: Vec<UnknownSymbolCode> = Vec::new();
    let mut y: usize = 0;
    let mut k: usize = 0;
    while y < h
        invariant
            y <= h,
            w == width,
            h == height,
            p == payload@,
            grid_bytes(width, height) <= len,
            len == p.len(),
            k == y * w,
            inks@.len() == y,
            forall|yy: int| 0 <= yy < y ==> (#[trigger] inks@[yy])@.len() == w,
            forall|yy: int, x: int|
                0 <= yy < y && 0 <= x < w ==> (#[trigger] inks@[yy]@[x]) == cell_ink(
                    cell_code(p, w as int, yy, x),
                ),
            unknown@ == unknown_cells(p, w as nat, k as nat),
        decreases h - y,
    {
        let mut row: Vec<Ink> = Vec::new();
        let mut x: usize = 0;
        while x < w
            invariant
                x <= w,
                y < h,
                w == width,
                h == height,
                p == payload@,
                grid_bytes(width, height) <= len,
                len == p.len(),
                k == y * w + x,
                row@.len() == x,
                forall|xx: int| 0 <= xx < x ==> (#[trigger] row@[xx]) == cell_ink(
                    cell_code(p, w as int, y as int, xx),
                ),
                unknown@ == unknown_cells(p, w as nat, k as nat),
            decreases w - x,
        {
            proof {
                lemma_cell_in_grid(y as int, x as int, w as int, h as int);
                lemma_fundamental_div_mod_converse(k as int, w as int, y as int, x as int);
            }
            let code = read_be_u32(payload, 4 * k);
            match Ink::from_code(code) {
                Some(i) => row.push(i),
                None => {
                    row.push(Ink::Invalid);
                    unknown.push(UnknownSymbolCode { code, y, x });
                },
            }
            x = x + 1;
            k = k + 1;
        }
        proof {
            lemma_next_row(y as int, w as int);
        }
        inks.push(row);
        y = y + 1;
    }
    proof {
        lemma_next_row(h as int, w as int);
    }
    Ok(InkGrid { inks, unknown })
}

/// Decodes the payload of block number `block_index` of `bp` as the grid that
/// its header sizes.
pub fn block_to_inks(bp: &BlueprintData, block_index: usize) -> (r: Result<InkGrid, FormatError>)
    ensures
        block_index >= bp.blocks@.len() ==> r == Err::<InkGrid, FormatError>(
            FormatError::MissingBlock { block_index, count: bp.blocks@.len() as usize },
        ),
        block_index < bp.blocks@.len() ==> grid_outcome(
            r,
            bp.blocks@[block_index as int].data@,
            bp.header.width,
            bp.header.height,
        ),
{
    if block_index >= bp.blocks.len() {
        return Err(FormatError::MissingBlock { block_index, count: bp.blocks.len() });
    }
    inks_from_payload(bp.blocks[block_index].data.as_slice(), bp.header.width, bp.header.height)
}

} // verus!
