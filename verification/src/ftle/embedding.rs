//! Delay embedding: reconstructs a phase space from a univariate series by
//! stacking `m` samples spaced `tau` apart into each state vector.

use vstd::prelude::*;

verus! {

/// Settings of the delay embedding.
#[derive(Debug, Clone, Copy, PartialEq, Eq, Structural)]
pub struct EmbeddingConfig {
    pub default_tau: usize,
    pub default_dimension: usize,
    pub min_points_required: usize,
}

impl Default for EmbeddingConfig {
    /// Delay 1, dimension 3, and 100 points required.
    fn default() -> (c: Self)
        ensures
            c.default_tau == 1,
            c.default_dimension == 3,
            c.min_points_required == 100,
    {
        EmbeddingConfig { default_tau: 1, default_dimension: 3, min_points_required: 100 }
    }
}

/// Why a series cannot be embedded.
#[derive(Debug, Clone, Copy, PartialEq, Eq, Structural)]
pub enum EmbeddingError {
    /// The series has fewer than `required` points.
    InsufficientData { required: usize },
}

/// `v` is the delay embedding of `s` with dimension `m` and delay `tau`:
/// one state vector per start index `i` whose last sample is in range,
/// holding `s[i], s[i + tau], ..., s[i + (m - 1) * tau]`.
pub open spec fn is_delay_embedding<T>(s: Seq<T>, m: nat, tau: nat, v: Seq<Vec<T>>) -> bool {
    &&& v.len() == s.len() - (m - 1) * tau
    &&& forall|i: int| 0 <= i < v.len() ==> (#[trigger] v[i])@.len() == m
    &&& forall|i: int, j: int|
        0 <= i < v.len() && 0 <= j < m ==> #[trigger] v[i]@[j] == s[i + j * tau]
}

/// The delay embedder.
#[derive(Debug, Clone, Copy, PartialEq, Eq, Structural)]
pub struct DelayEmbedding {
    pub config: EmbeddingConfig,
}

impl DelayEmbedding {
    pub fn new(config: EmbeddingConfig) -> (d: DelayEmbedding)
        ensures
            d.config == config,
    {
        DelayEmbedding { config }
    }

    /// Embed `series` with dimension `m` and delay `tau`. The series must
    /// hold at least `m * tau + 1` points; otherwise the error names that
    /// number.
    pub fn delay_embed<T: Copy>(&self, series: &[T], m: usize, tau: usize) -> (r: Result<
        Vec<Vec<T>>,
        EmbeddingError,
    >)
        requires
            m >= 1,
            m * tau + 1 <= usize::MAX,
        ensures
            match r {
                Ok(v) => series@.len() >= m * tau + 1 && is_delay_embedding(
                    series@,
                    m as nat,
                    tau as nat,
                    v@,
                ),
                Err(e) => series@.len() < m * tau + 1 && e == EmbeddingError::InsufficientData {
                    required: (m * tau + 1) as usize,
                },
            },
    {
        let required = m * tau + 1;
        if series.len() < required {
            return Err(EmbeddingError::InsufficientData { required });
        }
        let ghost s = series@;
        proof {
            assert((m - 1) * tau <= m * tau) by (nonlinear_arith)
                requires
                    m >= 1,
            ;
            assert((m - 1) * tau + tau == m * tau) by (nonlinear_arith)
                requires
                    m >= 1,
            ;
        }
        let span = (m - 1) * tau;
        let n_vectors = series.len() - span;
        let mut embedded: Vec<Vec<T>> = Vec::new();
        let mut i: usize = 0;
        while i < n_vectors
            invariant
                s == series@,
                m >= 1,
                span == (m - 1) * tau,
                n_vectors == s.len() - span,
                span + tau <= s.len(),
                i <= n_vectors,
                embedded@.len() == i,
                forall|a: int| 0 <= a < i ==> (#[trigger] embedded@[a])@.len() == m,
                forall|a: int, j: int|
                    0 <= a < i && 0 <= j < m ==> #[trigger] embedded@[a]@[j] == s[a + j * tau],
            decreases n_vectors - i,
        {
            let mut vector: Vec<T> = Vec::new();
            let mut j: usize = 0;
            while j < m
                invariant
                    s == series@,
                    m >= 1,
                    span == (m - 1) * tau,
                    n_vectors == s.len() - span,
                    span <= s.len(),
                    s.len() == series.len(),
                    i < n_vectors,
                    j <= m,
                    vector@.len() == j,
                    forall|k: int| 0 <= k < j ==> vector@[k] == s[i + k * tau],
                decreases m - j,
            {
                proof {
                    assert(j * tau <= (m - 1) * tau) by (nonlinear_arith)
                        requires
                            j < m,
                    ;
                    assert(i + j * tau < s.len());
                }
                vector.push(series[i + j * tau]);
                j = j + 1;
            }
            embedded.push(vector);
            i = i + 1;
        }
        Ok(embedded)
    }
}

} // verus!
