//! Render configuration: user-facing parameters, their alignment into a
//! padded, tile-aligned form, and tile addressing within that form.

use vstd::prelude::*;
use vstd::arithmetic::div_mod::lemma_fundamental_div_mod;
use vstd::arithmetic::div_mod::lemma_fundamental_div_mod_converse_div;
use vstd::arithmetic::div_mod::lemma_mod_division_less_than_divisor;
use vstd::arithmetic::div_mod::lemma_mod_is_zero;
use vstd::arithmetic::div_mod::lemma_mod_multiples_basic;
use vstd::arithmetic::mul::lemma_mul_inequality;

verus! {

/// Tile size forced when every configured tile size exceeds the image, so
/// that rendering is always possible. A policy constant: it matches the
/// finest entry of the default ladders.
pub const FALLBACK_TILE_SIZE: usize = 8;

pub open spec fn all_positive(tile_sizes: Seq<usize>) -> bool {
    forall|i: int| 0 <= i < tile_sizes.len() ==> tile_sizes[i] >= 1
}

pub open spec fn strictly_descending(tile_sizes: Seq<usize>) -> bool {
    forall|i: int, j: int| 0 <= i < j < tile_sizes.len() ==> tile_sizes[i] > tile_sizes[j]
}

/// The configured tile sizes with their oversized prefix removed. The list
/// is ordered coarsest first, so dropping leading entries larger than the
/// image keeps exactly the applicable sizes.
pub open spec fn skip_oversized(tile_sizes: Seq<usize>, image_size: int) -> Seq<usize>
    decreases tile_sizes.len(),
{
    if tile_sizes.len() == 0 {
        tile_sizes
    } else if tile_sizes[0] > image_size {
        skip_oversized(tile_sizes.drop_first(), image_size)
    } else {
        tile_sizes
    }
}

/// The tile sizes alignment retains: the applicable ones, or the fallback
/// size when none applies.
pub open spec fn effective_tile_sizes(tile_sizes: Seq<usize>, image_size: int) -> Seq<usize> {
    let kept = skip_oversized(tile_sizes, image_size);
    if kept.len() == 0 {
        seq![FALLBACK_TILE_SIZE]
    } else {
        kept
    }
}

/// `image_size` rounded up to the next multiple of `t0`.
pub open spec fn pad_to_multiple(image_size: int, t0: int) -> int {
    ((image_size + t0 - 1) / t0) * t0
}

/// The padded image size alignment produces.
pub open spec fn aligned_image_size(tile_sizes: Seq<usize>, image_size: int) -> int {
    pad_to_multiple(image_size, effective_tile_sizes(tile_sizes, image_size)[0] as int)
}

/// The precomputed scratch-buffer offset of a tile whose minimum corner is
/// `corner`, for coarsest tile size `t0`: row-major over the corner's
/// remainders modulo `t0`, with a third term of stride `t0 * t0` in three
/// dimensions.
pub open spec fn tile_offset(corner: Seq<usize>, t0: int) -> int {
    let planar = corner[0] as int % t0 + (corner[1] as int % t0) * t0;
    if corner.len() >= 3 {
        planar + (corner[2] as int % t0) * (t0 * t0)
    } else {
        planar
    }
}

/// The flat scratch-buffer index of intra-tile coordinates `(x, y, z)`
/// inside a tile with precomputed offset `offset`, row-major with stride
/// `t0` along the second axis and `t0 * t0` along the third; in two
/// dimensions `z` is zero.
pub open spec fn intra_tile_index(offset: int, x: int, y: int, z: int, t0: int) -> int {
    offset + x + y * t0 + z * (t0 * t0)
}

/// The largest offset a tile can precompute in `n` dimensions for coarsest
/// tile size `t0` stays within the machine word.
pub open spec fn tile_offset_fits(t0: int, n: usize) -> bool {
    if n >= 3 {
        (t0 - 1) + (t0 - 1) * t0 + (t0 - 1) * (t0 * t0) <= usize::MAX
    } else {
        (t0 - 1) + (t0 - 1) * t0 <= usize::MAX
    }
}

/// The default tile-size ladder: coarser evaluators get more levels in three
/// dimensions than in two.
pub open spec fn default_tile_sizes(n: usize) -> Seq<usize> {
    if n == 2 {
        seq![128usize, 32usize, 8usize]
    } else {
        seq![128usize, 64usize, 32usize, 16usize, 8usize]
    }
}

/// User-specified render parameters, dimension-generic over 2-D and 3-D.
///
/// The homogeneous model-to-pixel transform that accompanies these values is
/// floating-point data and lives with the rendering shell; alignment exposes
/// `image_size` and `orig_image_size` so the shell can compose the padding
/// correction itself.
pub struct RenderConfig<const N: usize> {
    /// Requested output resolution along every axis.
    pub image_size: usize,
    /// Tile sizes to use during evaluation, coarsest first, strictly
    /// descending.
    pub tile_sizes: Vec<usize>,
    /// Desired worker-thread count; logical, not checked against hardware.
    pub threads: usize,
}

impl<const N: usize> RenderConfig<N> {
    pub open spec fn wf(&self) -> bool {
        &&& self.image_size >= 1
        &&& self.tile_sizes@.len() >= 1
        &&& all_positive(self.tile_sizes@)
        &&& strictly_descending(self.tile_sizes@)
    }

    /// Pads the image size up to a whole multiple of the coarsest applicable
    /// tile size, dropping tile sizes larger than the image (or falling back
    /// to [`FALLBACK_TILE_SIZE`] when none applies), and keeps the original
    /// size so output can be cropped back.
    pub fn align(&self) -> (r: AlignedRenderConfig<N>)
        requires
            self.wf(),
            self.image_size <= usize::MAX / 2,
        ensures
            r.wf(),
            r.orig_image_size == self.image_size,
            r.threads == self.threads,
            r.tile_sizes@ == effective_tile_sizes(self.tile_sizes@, self.image_size as int),
            r.image_size as int == aligned_image_size(self.tile_sizes@, self.image_size as int),
            r.image_size >= self.image_size,
            r.image_size as int % r.tile_sizes@[0] as int == 0,
            (r.image_size as int - self.image_size as int) < r.tile_sizes@[0] as int,
    {
        let n = self.tile_sizes.len();
        let mut k: usize = 0;
        while k < n && self.tile_sizes[k] > self.image_size
            invariant
                k <= n,
                n == self.tile_sizes@.len(),
                forall|i: int| 0 <= i < k ==> self.tile_sizes@[i] > self.image_size,
            decreases n - k,
        {
            k = k + 1;
        }
        let mut tile_sizes: Vec<usize> = Vec::new();
        let mut j: usize = k;
        while j < n
            invariant
                k <= j <= n,
                n == self.tile_sizes@.len(),
                tile_sizes@ == self.tile_sizes@.subrange(k as int, j as int),
            decreases n - j,
        {
            let t = self.tile_sizes[j];
            tile_sizes.push(t);
            proof {
                assert(tile_sizes@ =~= self.tile_sizes@.subrange(k as int, j as int + 1));
            }
            j = j + 1;
        }
        let ghost kept = skip_oversized(self.tile_sizes@, self.image_size as int);
        let ghost eff = effective_tile_sizes(self.tile_sizes@, self.image_size as int);
        proof {
            lemma_skip_oversized_is_suffix(self.tile_sizes@, self.image_size as int, k as int);
        }
        if tile_sizes.len() == 0 {
            tile_sizes.push(FALLBACK_TILE_SIZE);
        }
        proof {
            assert(tile_sizes@ =~= eff);
        }
        let t0 = tile_sizes[0];
        proof {
            if kept.len() == 0 {
                assert(t0 == FALLBACK_TILE_SIZE);
            } else {
                assert(eff[0] == self.tile_sizes@[k as int]);
                assert(t0 <= self.image_size);
                assert(t0 >= 1);
            }
            lemma_pad_properties(self.image_size as int, t0 as int);
        }
        let q = (self.image_size + t0 - 1) / t0;
        proof {
            assert(q as int * (t0 as int) == pad_to_multiple(self.image_size as int, t0 as int));
        }
        let padded = q * t0;
        let r = AlignedRenderConfig {
            image_size: padded,
            orig_image_size: self.image_size,
            tile_sizes,
            threads: self.threads,
        };
        proof {
            assert forall|i: int| 0 <= i < eff.len() implies eff[i] >= 1 by {
                if kept.len() != 0 {
                    assert(eff[i] == self.tile_sizes@[k + i]);
                }
            }
            assert forall|i: int, j2: int| 0 <= i < j2 < eff.len() implies eff[i] > eff[j2] by {
                if kept.len() != 0 {
                    assert(eff[i] == self.tile_sizes@[k + i]);
                    assert(eff[j2] == self.tile_sizes@[k + j2]);
                }
            }
        }
        r
    }
}

impl<const N: usize> Default for RenderConfig<N> {
    /// The stock configuration: a 512-pixel image, eight worker threads, and
    /// the default tile-size ladder for the dimension.
    fn default() -> (r: Self)
        ensures
            r.image_size == 512,
            r.threads == 8,
            r.tile_sizes@ == default_tile_sizes(N),
            r.wf(),
    {
        let mut tile_sizes: Vec<usize> = Vec::new();
        if N == 2 {
            tile_sizes.push(128);
            tile_sizes.push(32);
            tile_sizes.push(8);
        } else {
            tile_sizes.push(128);
            tile_sizes.push(64);
            tile_sizes.push(32);
            tile_sizes.push(16);
            tile_sizes.push(8);
        }
        proof {
            assert(tile_sizes@ =~= default_tile_sizes(N));
            assert forall|i: int, j: int|
                0 <= i < j < tile_sizes@.len() implies tile_sizes@[i] > tile_sizes@[j] by {}
        }
        RenderConfig { image_size: 512, tile_sizes, threads: 8 }
    }
}

/// Facts about rounding up to a multiple: the result is a multiple of `t0`,
/// at least `image_size`, and less than one whole tile beyond it.
pub proof fn lemma_pad_properties(image_size: int, t0: int)
    requires
        image_size >= 0,
        t0 >= 1,
    ensures
        pad_to_multiple(image_size, t0) % t0 == 0,
        image_size <= pad_to_multiple(image_size, t0) <= image_size + t0 - 1,
{
    let x = image_size + t0 - 1;
    lemma_fundamental_div_mod(x, t0);
    lemma_mod_division_less_than_divisor(x, t0);
    lemma_mod_multiples_basic(x / t0, t0);
    assert(x == t0 * (x / t0) + (x % t0));
    assert(t0 * (x / t0) == (x / t0) * t0) by (nonlinear_arith);
    assert(pad_to_multiple(image_size, t0) == x - (x % t0));
}

/// Rounding a value that is already a multiple of `t0` changes nothing.
pub proof fn lemma_pad_of_multiple(x: int, t0: int)
    requires
        x >= 0,
        t0 >= 1,
        x % t0 == 0,
    ensures
        pad_to_multiple(x, t0) == x,
{
    lemma_fundamental_div_mod(x, t0);
    let q = x / t0;
    assert(x == t0 * q);
    assert(t0 * q == q * t0) by (nonlinear_arith);
    lemma_fundamental_div_mod_converse_div(x + t0 - 1, t0, q, t0 - 1);
    assert((x + t0 - 1) / t0 == q);
    assert(pad_to_multiple(x, t0) == q * t0);
}

/// The retained tile sizes stay positive, and when the skip kept anything
/// its first entry fits the image.
proof fn lemma_skip_oversized_props(tile_sizes: Seq<usize>, image_size: int)
    requires
        all_positive(tile_sizes),
    ensures
        all_positive(skip_oversized(tile_sizes, image_size)),
        skip_oversized(tile_sizes, image_size).len() > 0 ==> skip_oversized(
            tile_sizes,
            image_size,
        )[0] <= image_size,
    decreases tile_sizes.len(),
{
    if tile_sizes.len() == 0 {
    } else if tile_sizes[0] > image_size {
        let rest = tile_sizes.drop_first();
        assert forall|i: int| 0 <= i < rest.len() implies rest[i] >= 1 by {
            assert(rest[i] == tile_sizes[i + 1]);
        }
        lemma_skip_oversized_props(rest, image_size);
    }
}

/// Skipping the oversized prefix leaves exactly the suffix that starts at
/// the first applicable entry.
proof fn lemma_skip_oversized_is_suffix(tile_sizes: Seq<usize>, image_size: int, k: int)
    requires
        0 <= k <= tile_sizes.len(),
        forall|i: int| 0 <= i < k ==> tile_sizes[i] > image_size,
        k < tile_sizes.len() ==> tile_sizes[k] <= image_size,
    ensures
        skip_oversized(tile_sizes, image_size) =~= tile_sizes.subrange(k, tile_sizes.len() as int),
    decreases k,
{
    if k == 0 {
        assert(tile_sizes.subrange(0, tile_sizes.len() as int) =~= tile_sizes);
    } else {
        let rest = tile_sizes.drop_first();
        lemma_skip_oversized_is_suffix(rest, image_size, k - 1);
        assert(rest.subrange(k - 1, rest.len() as int)
            =~= tile_sizes.subrange(k, tile_sizes.len() as int));
    }
}

/// Law: alignment is idempotent. Feeding an aligned configuration's padded
/// image size and retained tile sizes back through alignment keeps the tile
/// sizes whole and grows the image size no further.
pub proof fn lemma_align_idempotent(tile_sizes: Seq<usize>, image_size: int)
    requires
        image_size >= 1,
        all_positive(tile_sizes),
    ensures
        ({
            let kept = effective_tile_sizes(tile_sizes, image_size);
            let padded = aligned_image_size(tile_sizes, image_size);
            effective_tile_sizes(kept, padded) == kept
                && aligned_image_size(kept, padded) == padded
        }),
{
    let skipped = skip_oversized(tile_sizes, image_size);
    let kept = effective_tile_sizes(tile_sizes, image_size);
    let t0 = kept[0] as int;
    let padded = aligned_image_size(tile_sizes, image_size);
    lemma_skip_oversized_props(tile_sizes, image_size);
    assert(t0 >= 1);
    lemma_pad_properties(image_size, t0);
    if skipped.len() == 0 {
        // the fallback: the padded size is a positive multiple of it
        lemma_mod_is_zero(padded as nat, t0 as nat);
    } else {
        // the first retained size already fits the unpadded image
        assert(t0 <= image_size);
    }
    assert(kept[0] <= padded);
    assert(skip_oversized(kept, padded) == kept);
    lemma_pad_of_multiple(padded, t0);
}

/// Law: a freshly built tile's offset is exactly the intra-tile index of
/// its corner's remainders, taken from a zero base offset; in two
/// dimensions the third coordinate is zero.
pub proof fn lemma_tile_offset_is_intra_index(corner: Seq<usize>, t0: int)
    requires
        t0 >= 1,
        corner.len() >= 2,
    ensures
        tile_offset(corner, t0) == intra_tile_index(
            0,
            corner[0] as int % t0,
            corner[1] as int % t0,
            if corner.len() >= 3 {
                corner[2] as int % t0
            } else {
                0
            },
            t0,
        ),
{
}

/// Law: for any positive image size and positive tile sizes, the aligned
/// image size is a whole multiple of the first retained tile size, no
/// smaller than the request, and less than one whole tile larger.
pub proof fn lemma_alignment_bounds(tile_sizes: Seq<usize>, image_size: int)
    requires
        image_size >= 1,
        all_positive(tile_sizes),
    ensures
        ({
            let t0 = effective_tile_sizes(tile_sizes, image_size)[0] as int;
            let padded = aligned_image_size(tile_sizes, image_size);
            &&& padded % t0 == 0
            &&& image_size <= padded
            &&& padded - image_size < t0
        }),
{
    let t0 = effective_tile_sizes(tile_sizes, image_size)[0] as int;
    lemma_skip_oversized_props(tile_sizes, image_size);
    if skip_oversized(tile_sizes, image_size).len() != 0 {
        assert(skip_oversized(tile_sizes, image_size)[0] >= 1);
    }
    lemma_pad_properties(image_size, t0);
}

/// The validated configuration handed to evaluators: image size padded to a
/// whole multiple of the coarsest retained tile size.
#[derive(Debug)]
pub struct AlignedRenderConfig<const N: usize> {
    /// Padded output resolution, a multiple of `tile_sizes[0]`.
    pub image_size: usize,
    /// The pre-padding resolution, kept so output can be cropped back.
    pub orig_image_size: usize,
    /// The retained tile sizes, coarsest first, strictly descending.
    pub tile_sizes: Vec<usize>,
    /// Desired worker-thread count, copied unchanged.
    pub threads: usize,
}

impl<const N: usize> AlignedRenderConfig<N> {
    pub open spec fn wf(&self) -> bool {
        &&& self.tile_sizes@.len() >= 1
        &&& all_positive(self.tile_sizes@)
        &&& strictly_descending(self.tile_sizes@)
        &&& self.image_size as int % self.tile_sizes@[0] as int == 0
        &&& self.orig_image_size <= self.image_size
    }

    /// Builds the tile at `corner`, precomputing its scratch-buffer offset
    /// from the corner's remainders modulo the coarsest tile size; in three
    /// dimensions the third axis contributes with stride `t0 * t0`.
    pub fn new_tile(&self, corner: [usize; N]) -> (r: Tile<N>)
        requires
            N >= 2,
            self.wf(),
            tile_offset_fits(self.tile_sizes@[0] as int, N),
        ensures
            r.spec_corner() == corner@,
            r.spec_offset() as int == tile_offset(corner@, self.tile_sizes@[0] as int),
    {
        let t0 = self.tile_sizes[0];
        proof {
            assert(self.tile_sizes@[0] >= 1);
        }
        let x = corner[0] % t0;
        let y = corner[1] % t0;
        proof {
            lemma_mod_division_less_than_divisor(corner@[0] as int, t0 as int);
            lemma_mod_division_less_than_divisor(corner@[1] as int, t0 as int);
            lemma_mul_inequality(y as int, t0 as int - 1, t0 as int);
        }
        let offset = if N >= 3 {
            let z = corner[2] % t0;
            proof {
                let t0i = t0 as int;
                lemma_mod_division_less_than_divisor(corner@[2] as int, t0i);
                assert(t0i * t0i >= t0i) by (nonlinear_arith)
                    requires
                        t0i >= 1,
                ;
                if t0 >= 2 {
                    assert((t0i - 1) * t0i >= 0) by (nonlinear_arith)
                        requires
                            t0i >= 2,
                    ;
                    lemma_mul_inequality(1, t0i - 1, t0i * t0i);
                } else {
                    assert(t0i * t0i == 1) by (nonlinear_arith)
                        requires
                            t0i == 1,
                    ;
                }
                lemma_mul_inequality(z as int, t0i - 1, t0i * t0i);
            }
            x + y * t0 + z * (t0 * t0)
        } else {
            x + y * t0
        };
        Tile { corner, offset }
    }
}

impl AlignedRenderConfig<2> {
    /// Maps intra-tile coordinates `(x, y)`, each below the coarsest tile
    /// size, to a flat scratch-buffer index: the tile's own offset plus a
    /// row-major step. This layout is a contract with the renderer's
    /// per-tile scratch buffers.
    pub fn tile_to_offset(&self, tile: Tile<2>, x: usize, y: usize) -> (r: usize)
        requires
            self.wf(),
            x < self.tile_sizes@[0],
            y < self.tile_sizes@[0],
            tile.spec_offset() + x + y * self.tile_sizes@[0] <= usize::MAX,
        ensures
            r as int == intra_tile_index(
                tile.spec_offset() as int,
                x as int,
                y as int,
                0,
                self.tile_sizes@[0] as int,
            ),
    {
        tile.offset + x + y * self.tile_sizes[0]
    }
}

impl AlignedRenderConfig<3> {
    /// Maps intra-tile coordinates `(x, y, z)`, each below the coarsest tile
    /// size, to a flat scratch-buffer index: the tile's own offset plus
    /// row-major steps of stride `t0` and `t0 * t0`. This layout is a
    /// contract with the renderer's per-tile scratch buffers.
    pub fn tile_to_offset(&self, tile: Tile<3>, x: usize, y: usize, z: usize) -> (r: usize)
        requires
            self.wf(),
            x < self.tile_sizes@[0],
            y < self.tile_sizes@[0],
            z < self.tile_sizes@[0],
            self.tile_sizes@[0] * self.tile_sizes@[0] <= usize::MAX,
            tile.spec_offset() + x + y * self.tile_sizes@[0] + z * (self.tile_sizes@[0]
                * self.tile_sizes@[0]) <= usize::MAX,
        ensures
            r as int == intra_tile_index(
                tile.spec_offset() as int,
                x as int,
                y as int,
                z as int,
                self.tile_sizes@[0] as int,
            ),
    {
        tile.offset + x + y * self.tile_sizes[0] + z * (self.tile_sizes[0] * self.tile_sizes[0])
    }
}

/// A fixed-size hypercube of the output grid: its minimum corner in padded
/// pixel space and a precomputed linear offset into a per-tile scratch
/// buffer.
#[derive(Copy, Clone, Debug)]
pub struct Tile<const N: usize> {
    /// The tile's minimum corner in padded pixel space.
    pub corner: [usize; N],
    offset: usize,
}

impl<const N: usize> Tile<N> {
    /// The tile's minimum corner, as a sequence of pixel coordinates.
    pub closed spec fn spec_corner(&self) -> Seq<usize> {
        self.corner@
    }

    /// The precomputed linear offset into the per-tile scratch buffer.
    pub closed spec fn spec_offset(&self) -> usize {
        self.offset
    }
}

} // verus!
