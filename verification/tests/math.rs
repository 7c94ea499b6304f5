use dino_cli::cli::Pool;
use dino_cli::math::{pool_plan, PoolError, PoolPlan};

/// Averages the rows of a mean plan the way the application does.
fn mean_rows(data: &[f32], skip: usize, tokens: usize, width: usize) -> Vec<f32> {
    let mut out = vec![0.; width];
    for row in data[skip * width..].chunks_exact(width) {
        for (o, x) in out.iter_mut().zip(row) {
            *o += x / (tokens - skip) as f32;
        }
    }
    out
}

#[test]
fn tokens() {
    let data = [9., 9., 1., 3., 3., 5.];
    let plan = pool_plan(data.len(), true, &vec![1, 3, 2], Pool::Mean, 1).unwrap();
    assert_eq!(plan, PoolPlan::MeanRows { skip: 1, tokens: 3, width: 2 });
    if let PoolPlan::MeanRows { skip, tokens, width } = plan {
        assert_eq!(mean_rows(&data, skip, tokens, width), vec![2., 4.]);
    }
    assert!(pool_plan(2, true, &vec![1, 1, 2], Pool::Auto, 0).is_err());
}

#[test]
fn pooling_table() {
    assert_eq!(pool_plan(4, true, &vec![1, 4], Pool::Auto, 0), Ok(PoolPlan::Whole));
    assert_eq!(pool_plan(6, true, &vec![1, 3, 2], Pool::Cls, 0), Ok(PoolPlan::Prefix { len: 2 }));
    assert_eq!(
        pool_plan(24, true, &vec![1, 2, 3, 4], Pool::Spatial, 0),
        Ok(PoolPlan::ChannelMeans { channels: 2, area: 12 })
    );
    assert_eq!(pool_plan(24, true, &vec![2, 3, 4], Pool::Flatten, 0), Ok(PoolPlan::Whole));
}

#[test]
fn pooling_errors() {
    assert_eq!(pool_plan(0, true, &vec![1, 0], Pool::Flatten, 0), Err(PoolError::EmptyOrNonfinite));
    assert_eq!(pool_plan(4, false, &vec![1, 4], Pool::Auto, 0), Err(PoolError::EmptyOrNonfinite));
    assert_eq!(pool_plan(6, true, &vec![1, 3, 2], Pool::Mean, 3), Err(PoolError::SkipTooLarge));
    assert_eq!(pool_plan(6, true, &vec![1, 3, 2], Pool::Spatial, 0), Err(PoolError::UnsupportedShape));
    assert_eq!(pool_plan(24, true, &vec![1, 2, 3, 4], Pool::Auto, 0), Err(PoolError::UnsupportedShape));
    assert_eq!(pool_plan(4, true, &vec![1, 4], Pool::Cls, 0), Err(PoolError::UnsupportedShape));
    assert_eq!(pool_plan(8, true, &vec![2, 4], Pool::Auto, 0), Err(PoolError::UnsupportedShape));
}

#[test]
fn shape_only_matters_where_values_are_read() {
    // flatten and the error cases answer whatever the shape says
    assert_eq!(pool_plan(5, true, &vec![7, -2], Pool::Flatten, 9), Ok(PoolPlan::Whole));
    assert_eq!(pool_plan(5, true, &vec![1, 3], Pool::Auto, 0), Ok(PoolPlan::Whole));
    assert_eq!(pool_plan(0, true, &vec![1, 4, 4], Pool::Cls, 0), Err(PoolError::EmptyOrNonfinite));
    assert_eq!(pool_plan(3, false, &vec![1, 2, 2, 2], Pool::Spatial, 0), Err(PoolError::EmptyOrNonfinite));
    assert_eq!(pool_plan(5, true, &vec![1, 9, 9, 9], Pool::Cls, 0), Err(PoolError::UnsupportedShape));
    assert_eq!(pool_plan(5, true, &vec![2, 9], Pool::Spatial, 0), Err(PoolError::UnsupportedShape));
    assert_eq!(pool_plan(5, true, &vec![1, 9, 9], Pool::Auto, 0), Err(PoolError::UnsupportedShape));
}

#[test]
fn dimensions_convert_like_as_casts() {
    // negative dimensions become huge, as `as usize` makes them
    assert_eq!(pool_plan(6, true, &vec![1, 3, -2], Pool::Cls, 0), Ok(PoolPlan::Prefix { len: usize::MAX - 1 }));
    assert_eq!(
        pool_plan(6, true, &vec![1, -1, 2], Pool::Mean, 4),
        Ok(PoolPlan::MeanRows { skip: 4, tokens: usize::MAX, width: 2 })
    );
    assert_eq!(
        pool_plan(6, true, &vec![1, 2, 0, 5], Pool::Spatial, 0),
        Ok(PoolPlan::ChannelMeans { channels: 2, area: 0 })
    );
    // H * W is an i64 product that wraps
    assert_eq!(
        pool_plan(6, true, &vec![1, 1, 1 << 32, 1 << 32], Pool::Spatial, 0),
        Ok(PoolPlan::ChannelMeans { channels: 1, area: 0 })
    );
    // a shape that does not describe the data is still planned
    assert_eq!(
        pool_plan(7, true, &vec![1, 2, 3], Pool::Mean, 1),
        Ok(PoolPlan::MeanRows { skip: 1, tokens: 2, width: 3 })
    );
}
