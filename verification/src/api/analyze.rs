//! Parameters of the chaos-analysis endpoints (analyze, embed, FTLE
//! field): embedding defaults and the series-length checks made before the
//! analysis runs.

use vstd::prelude::*;

verus! {

/// Default embedding dimension (delay-embedding `m`).
pub const DEFAULT_DIMENSION: usize = 3;

/// Default embedding delay (`tau`).
pub const DEFAULT_TAU: usize = 1;

/// Theiler window of the Lyapunov estimator.
pub const THEILER_WINDOW: usize = 20;

/// The embedding dimension and delay of a request: the requested values,
/// or 3 and 1.
pub fn embedding_params(dimension: Option<usize>, tau: Option<usize>) -> (r: (usize, usize))
    ensures
        r.0 == (match dimension {
            Some(d) => d,
            None => DEFAULT_DIMENSION,
        }),
        r.1 == (match tau {
            Some(t) => t,
            None => DEFAULT_TAU,
        }),
{
    let d = match dimension {
        Some(d) => d,
        None => DEFAULT_DIMENSION,
    };
    let t = match tau {
        Some(t) => t,
        None => DEFAULT_TAU,
    };
    (d, t)
}

/// The smallest embedding dimension the analysis endpoints accept.
pub const MIN_DIMENSION: usize = 2;

/// The smallest embedding delay the analysis endpoints accept.
pub const MIN_TAU: usize = 1;

/// Why embedding parameters are refused.
#[derive(Debug, Clone, Copy, PartialEq, Eq, Structural)]
pub enum EmbeddingParamError {
    /// The dimension is below 2.
    DimensionTooSmall,
    /// The delay is below 1.
    DelayTooSmall,
}

/// Whether a request's embedding parameters are acceptable: a dimension of
/// at least 2 and a delay of at least 1. A too small dimension is reported
/// first.
pub fn check_embedding_params(dim: usize, tau: usize) -> (r: Result<(), EmbeddingParamError>)
    ensures
        match r {
            Ok(()) => dim >= MIN_DIMENSION && tau >= MIN_TAU,
            Err(EmbeddingParamError::DimensionTooSmall) => dim < MIN_DIMENSION,
            Err(EmbeddingParamError::DelayTooSmall) => dim >= MIN_DIMENSION && tau < MIN_TAU,
        },
{
    if dim < MIN_DIMENSION {
        Err(EmbeddingParamError::DimensionTooSmall)
    } else if tau < MIN_TAU {
        Err(EmbeddingParamError::DelayTooSmall)
    } else {
        Ok(())
    }
}

/// The fewest points a delay embedding of dimension `dim` and delay `tau`
/// takes: `(dim - 1) * tau + 1`.
pub open spec fn min_embedding_len(dim: int, tau: int) -> int {
    (dim - 1) * tau + 1
}

/// Whether a series of `len` points can be embedded: `Ok` when it has at
/// least `(dim - 1) * tau + 1` points, else `Err` with that number.
pub fn check_series_len(len: usize, dim: usize, tau: usize) -> (r: Result<(), usize>)
    requires
        dim >= 1,
        min_embedding_len(dim as int, tau as int) <= usize::MAX,
    ensures
        match r {
            Ok(()) => len >= min_embedding_len(dim as int, tau as int),
            Err(m) => m == min_embedding_len(dim as int, tau as int) && len < m,
        },
{
    proof {
        assert(0 <= (dim - 1) * tau) by (nonlinear_arith)
            requires
                dim >= 1,
        ;
    }
    let min_required = (dim - 1) * tau + 1;
    if len < min_required {
        Err(min_required)
    } else {
        Ok(())
    }
}

/// Whether `embedded_len` vectors are too few for the Theiler window: the
/// estimator needs more than twice the window. When they are too few, the
/// number of series points that would suffice is returned:
/// `(dim - 1) * tau + 2 * theiler + 1`.
pub fn check_theiler(embedded_len: usize, dim: usize, tau: usize, theiler: usize) -> (r: Result<(), usize>)
    requires
        dim >= 1,
        min_embedding_len(dim as int, tau as int) + 2 * theiler <= usize::MAX,
    ensures
        match r {
            Ok(()) => embedded_len > 2 * theiler,
            Err(need) => embedded_len <= 2 * theiler && need == min_embedding_len(dim as int, tau as int)
                + 2 * theiler,
        },
{
    proof {
        assert(0 <= (dim - 1) * tau) by (nonlinear_arith)
            requires
                dim >= 1,
        ;
    }
    if embedded_len <= theiler * 2 {
        Err((dim - 1) * tau + theiler * 2 + 1)
    } else {
        Ok(())
    }
}

} // verus!
