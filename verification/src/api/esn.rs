//! Parameters of the echo-state network endpoints (train, predict): the
//! minimum series, the washout, and the forecast horizon.

use vstd::prelude::*;

verus! {

/// The shortest series an echo-state network is trained on.
pub const MIN_ESN_SERIES: usize = 22;

/// Warm-up steps whose outputs are not scored.
pub const ESN_WASHOUT: usize = 10;

/// Forecast steps when none are asked for.
pub const DEFAULT_HORIZON: usize = 10;

/// The most forecast steps served.
pub const MAX_HORIZON: usize = 200;

/// The number of scored training samples for a series of `len` points
/// (one-step-ahead pairs after the washout), or `None` when the series is
/// too short to train on.
pub fn esn_training_samples(len: usize) -> (r: Option<usize>)
    ensures
        match r {
            Some(s) => len >= MIN_ESN_SERIES && s == len - 1 - ESN_WASHOUT,
            None => len < MIN_ESN_SERIES,
        },
{
    if len < MIN_ESN_SERIES {
        None
    } else {
        Some(len - 1 - ESN_WASHOUT)
    }
}

/// The forecast horizon of a request: the requested number of steps (10
/// by default) capped at 200, or `None` when that is zero.
pub fn forecast_horizon(requested: Option<usize>) -> (r: Option<usize>)
    ensures
        ({
            let h = match requested {
                Some(h) => if h < MAX_HORIZON {
                    h
                } else {
                    MAX_HORIZON
                },
                None => DEFAULT_HORIZON,
            };
            match r {
                Some(x) => x == h && h > 0,
                None => h == 0,
            }
        }),
{
    let h = match requested {
        Some(h) => if h < MAX_HORIZON {
            h
        } else {
            MAX_HORIZON
        },
        None => DEFAULT_HORIZON,
    };
    if h == 0 {
        None
    } else {
        Some(h)
    }
}

} // verus!
