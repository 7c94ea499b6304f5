//! The pooling rules that turn a model output tensor into one embedding.
//! They decide which values are kept or averaged; the averaging itself, in
//! floating point, is done by the caller following the returned plan.

use vstd::prelude::*;
use crate::cli::Pool;

verus! {

/// How the values of an output tensor (row-major) become the embedding. The
/// caller slices and averages as described, which panics where the plan does
/// not fit the data (see `plan_fits`).
#[derive(Clone, Copy, Debug, PartialEq, Eq, Structural)]
pub enum PoolPlan {
    /// Every value, in order.
    Whole,
    /// The first `len` values: the first token of a `[1, T, D]` output.
    Prefix { len: usize },
    /// `width` sums: over each whole row of `width` values after the first
    /// `skip * width` values, the row's value in that column divided by
    /// `tokens - skip`. When the shape describes the data this is the mean of
    /// tokens `skip..tokens`.
    MeanRows { skip: usize, tokens: usize, width: usize },
    /// The mean of each whole run of `area` values, for at most `channels` runs.
    ChannelMeans { channels: usize, area: usize },
}

/// Why an output cannot be pooled.
#[derive(Clone, Copy, Debug, PartialEq, Eq, Structural)]
pub enum PoolError {
    /// The output is empty or holds a value that is not finite.
    EmptyOrNonfinite,
    /// Mean pooling would skip every token.
    SkipTooLarge,
    /// The shape does not suit the pooling mode.
    UnsupportedShape,
}

/// The number of values a tensor of this shape holds.
pub open spec fn shape_product(shape: Seq<i64>) -> int
    decreases shape.len(),
{
    if shape.len() == 0 {
        1
    } else {
        shape_product(shape.drop_last()) * shape.last()
    }
}

/// A shape whose dimensions are all non-negative.
pub open spec fn dims_nonnegative(shape: Seq<i64>) -> bool {
    forall|i: int| 0 <= i < shape.len() ==> 0 <= #[trigger] shape[i]
}

/// The pooling plan for an output of `len` values with the given shape: flatten
/// takes everything; auto accepts only `[1, D]`; cls takes the first token of
/// `[1, T, D]`; mean averages the tokens of `[1, T, D]` after the first `skip`;
/// spatial averages each channel of `[1, C, H, W]`. Dimensions are taken as
/// `usize` the way `as` converts them, and `H * W` is an `i64` product that wraps.
pub open spec fn spec_pool_plan(len: int, all_finite: bool, shape: Seq<i64>, mode: Pool, skip: usize) -> Result<
    PoolPlan,
    PoolError,
> {
    if len == 0 || !all_finite {
        Err(PoolError::EmptyOrNonfinite)
    } else if mode == Pool::Flatten {
        Ok(PoolPlan::Whole)
    } else if shape.len() == 2 && shape[0] == 1 && mode == Pool::Auto {
        Ok(PoolPlan::Whole)
    } else if shape.len() == 3 && shape[0] == 1 && (mode == Pool::Cls || mode == Pool::Mean) {
        if mode == Pool::Cls {
            Ok(PoolPlan::Prefix { len: shape[2] as usize })
        } else if skip < shape[1] as usize {
            Ok(PoolPlan::MeanRows { skip: skip, tokens: shape[1] as usize, width: shape[2] as usize })
        } else {
            Err(PoolError::SkipTooLarge)
        }
    } else if shape.len() == 4 && shape[0] == 1 && mode == Pool::Spatial {
        Ok(PoolPlan::ChannelMeans {
            channels: shape[1] as usize,
            area: vstd::wrapping::i64_specs::wrapping_mul(shape[2], shape[3]) as usize,
        })
    } else {
        Err(PoolError::UnsupportedShape)
    }
}

/// The plan can be carried out on `len` values: every slice it takes lies
/// inside them and every run has a length; otherwise carrying it out panics.
pub open spec fn plan_fits(plan: PoolPlan, len: int) -> bool {
    match plan {
        PoolPlan::Whole => true,
        PoolPlan::Prefix { len: d } => d <= len,
        PoolPlan::MeanRows { skip, tokens, width } => 0 < width && skip * width <= len,
        PoolPlan::ChannelMeans { channels, area } => 0 < area,
    }
}

/// Chooses how to pool an output of `len` values (`all_finite` telling whether
/// each is finite) with the given shape.
pub fn pool_plan(len: usize, all_finite: bool, shape: &Vec<i64>, mode: Pool, skip: usize) -> (r: Result<PoolPlan, PoolError>)
    ensures
        r == spec_pool_plan(len as int, all_finite, shape@, mode, skip),
{
    if len == 0 || !all_finite {
        return Err(PoolError::EmptyOrNonfinite);
    }
    if mode == Pool::Flatten {
        return Ok(PoolPlan::Whole);
    }
    if shape.len() == 2 && shape[0] == 1 && mode == Pool::Auto {
        return Ok(PoolPlan::Whole);
    }
    if shape.len() == 3 && shape[0] == 1 && (mode == Pool::Cls || mode == Pool::Mean) {
        let n = shape[1] as usize;
        let d = shape[2] as usize;
        if mode == Pool::Cls {
            return Ok(PoolPlan::Prefix { len: d });
        }
        if skip < n {
            return Ok(PoolPlan::MeanRows { skip: skip, tokens: n, width: d });
        }
        return Err(PoolError::SkipTooLarge);
    }
    if shape.len() == 4 && shape[0] == 1 && mode == Pool::Spatial {
        let area = shape[2].wrapping_mul(shape[3]) as usize;
        return Ok(PoolPlan::ChannelMeans { channels: shape[1] as usize, area: area });
    }
    Err(PoolError::UnsupportedShape)
}

/// What each pooling mode takes from the shape and the arguments, for a
/// non-empty finite output: flatten keeps everything; cls on `[1, T, D]`
/// keeps the first `D` values; mean on `[1, T, D]` averages over `T` tokens of
/// width `D` after skipping exactly the requested `skip` tokens, and refuses
/// when `skip` is not below `T`; spatial on `[1, C, H, W]` averages `C` runs of
/// `H * W` values.
pub proof fn lemma_pool_plan_parameters(len: int, shape: Seq<i64>, skip: usize)
    requires
        len > 0,
    ensures
        spec_pool_plan(len, true, shape, Pool::Flatten, skip) == Ok::<PoolPlan, PoolError>(PoolPlan::Whole),
        shape.len() == 3 && shape[0] == 1 ==> spec_pool_plan(len, true, shape, Pool::Cls, skip)
            == Ok::<PoolPlan, PoolError>(PoolPlan::Prefix { len: shape[2] as usize }),
        shape.len() == 3 && shape[0] == 1 && skip < shape[1] as usize ==> spec_pool_plan(len, true, shape, Pool::Mean, skip)
            == Ok::<PoolPlan, PoolError>(
            PoolPlan::MeanRows { skip: skip, tokens: shape[1] as usize, width: shape[2] as usize },
        ),
        shape.len() == 3 && shape[0] == 1 && skip >= shape[1] as usize ==> spec_pool_plan(len, true, shape, Pool::Mean, skip)
            == Err::<PoolPlan, PoolError>(PoolError::SkipTooLarge),
        forall|all_finite: bool| (#[trigger] spec_pool_plan(len, all_finite, shape, Pool::Mean, skip)
            matches Ok(PoolPlan::MeanRows { skip: s, .. }) ==> s == skip),
        shape.len() == 4 && shape[0] == 1 ==> (spec_pool_plan(len, true, shape, Pool::Spatial, skip)
            matches Ok(PoolPlan::ChannelMeans { channels, area }) && channels == shape[1] as usize),
{
}

/// When the shape describes the data (non-negative dimensions whose product is
/// the number of values), every plan fits the data, and each pooled token or
/// channel is a whole run: the plan reads exactly the values it describes.
pub proof fn lemma_plan_fits_described_data(len: usize, all_finite: bool, shape: Seq<i64>, mode: Pool, skip: usize)
    requires
        dims_nonnegative(shape),
        shape_product(shape) == len,
        len <= i64::MAX,
        spec_pool_plan(len as int, all_finite, shape, mode, skip) is Ok,
    ensures
        plan_fits(spec_pool_plan(len as int, all_finite, shape, mode, skip)->Ok_0, len as int),
        spec_pool_plan(len as int, all_finite, shape, mode, skip) matches Ok(PoolPlan::MeanRows { skip, tokens, width })
            ==> tokens * width == len,
        spec_pool_plan(len as int, all_finite, shape, mode, skip) matches Ok(PoolPlan::ChannelMeans { channels, area })
            ==> channels * area == len,
{
    if shape.len() == 3 && shape[0] == 1 && (mode == Pool::Cls || mode == Pool::Mean) && mode != Pool::Flatten {
        let n = shape[1];
        let d = shape[2];
        assert(shape.drop_last().drop_last().drop_last() =~= Seq::<i64>::empty());
        assert(shape.drop_last().drop_last() =~= seq![1i64]);
        assert(shape.drop_last() =~= seq![1i64, n]);
        assert(shape_product(seq![1i64]) == 1) by {
            assert(seq![1i64].drop_last() =~= Seq::<i64>::empty());
            assert(shape_product(Seq::<i64>::empty()) == 1);
        }
        assert(shape_product(shape.drop_last()) == n);
        assert(shape_product(shape) == n * d);
        assert(n >= 0 && d >= 0);
        assert(n > 0 && d > 0 && n <= len && d <= len) by (nonlinear_arith)
            requires
                n * d == len as int,
                len > 0,
                n >= 0,
                d >= 0,
        ;
        if mode == Pool::Mean && skip < n as usize {
            assert(skip * d <= n * d) by (nonlinear_arith)
                requires
                    skip < n,
                    d > 0,
            ;
        }
    } else if shape.len() == 4 && shape[0] == 1 && mode == Pool::Spatial {
        let c = shape[1];
        let h = shape[2];
        let w = shape[3];
        assert(shape.drop_last().drop_last().drop_last().drop_last() =~= Seq::<i64>::empty());
        assert(shape.drop_last().drop_last().drop_last() =~= seq![1i64]);
        assert(shape.drop_last().drop_last() =~= seq![1i64, c]);
        assert(shape.drop_last() =~= seq![1i64, c, h]);
        assert(shape_product(seq![1i64]) == 1) by {
            assert(seq![1i64].drop_last() =~= Seq::<i64>::empty());
            assert(shape_product(Seq::<i64>::empty()) == 1);
        }
        assert(shape_product(shape.drop_last().drop_last()) == c);
        assert(shape_product(shape.drop_last()) == c * h);
        assert(shape_product(shape) == c * h * w);
        assert(c >= 0 && h >= 0 && w >= 0);
        assert(c > 0 && c <= len && h * w > 0 && h * w <= len && c * (h * w) == len) by (nonlinear_arith)
            requires
                c * h * w == len as int,
                len > 0,
                c >= 0,
                h >= 0,
                w >= 0,
        ;
        assert((h * w) % 0x1_0000_0000_0000_0000int == h * w);
        assert(vstd::wrapping::i64_specs::wrapping_mul(h, w) == h * w);
        assert(vstd::wrapping::i64_specs::wrapping_mul(h, w) as usize == h * w);
        assert(c as usize == c);
    }
}

} // verus!
