//! The checks around each index call: building the factory description,
//! accepting what the factory returns, and the shapes of vector buffers
//! and search results.

use vstd::prelude::*;
use crate::text::{decimal, signed_decimal, append_decimal, append_signed_decimal};
use crate::error::FaissError;

verus! {

/// The index families that the library builds.
#[derive(Debug, Clone, Copy, PartialEq, Eq, Structural)]
pub enum IndexKind {
    /// `IVF{nlist},RaBitQ`: an inverted file of `nlist` lists with RaBitQ codes.
    IvfRaBitQ,
    /// `IVF{nlist},SQ8`: an inverted file of `nlist` lists with 8-bit scalar codes.
    IvfSq8,
    /// `HNSW{m}`: a graph with `m` neighbours per node.
    Hnsw,
}

/// The factory description of an index of the given kind and size
/// parameter (`nlist` or `M`).
pub open spec fn description_text(kind: IndexKind, param: nat) -> Seq<char> {
    match kind {
        IndexKind::IvfRaBitQ => "IVF"@ + decimal(param) + ",RaBitQ"@,
        IndexKind::IvfSq8 => "IVF"@ + decimal(param) + ",SQ8"@,
        IndexKind::Hnsw => "HNSW"@ + decimal(param),
    }
}

/// The message for a size parameter of zero.
pub open spec fn zero_param_text(kind: IndexKind) -> Seq<char> {
    match kind {
        IndexKind::Hnsw => "hnsw M must be greater than 0"@,
        _ => "nlist must be greater than 0"@,
    }
}

/// Whether indexes of this kind need a library release that has them
/// (IVF-RaBitQ came with 1.11.0).
pub open spec fn spec_needs_rabitq_support(kind: IndexKind) -> bool {
    kind == IndexKind::IvfRaBitQ
}

/// Whether building an index of this kind first checks the library release.
pub fn needs_rabitq_support(kind: IndexKind) -> (b: bool)
    ensures
        b == spec_needs_rabitq_support(kind),
{
    match kind {
        IndexKind::IvfRaBitQ => true,
        _ => false,
    }
}

/// The factory description for an index of `kind` with size parameter
/// `param` (`nlist` for the IVF kinds, `M` for HNSW), which must not be 0.
pub fn index_description(kind: IndexKind, param: usize) -> (r: Result<String, FaissError>)
    ensures
        param == 0 ==> (r matches Err(FaissError::InvalidArgument(m)) && m@ == zero_param_text(
            kind,
        )),
        param != 0 ==> (r matches Ok(s) && s@ == description_text(kind, param as nat)),
{
    if param == 0 {
        return match kind {
            IndexKind::Hnsw => Err(
                FaissError::InvalidArgument(String::from_str("hnsw M must be greater than 0")),
            ),
            _ => Err(FaissError::InvalidArgument(String::from_str("nlist must be greater than 0"))),
        };
    }
    match kind {
        IndexKind::IvfRaBitQ => {
            let mut s = String::from_str("IVF");
            append_decimal(&mut s, param as u64);
            s.append(",RaBitQ");
            Ok(s)
        },
        IndexKind::IvfSq8 => {
            let mut s = String::from_str("IVF");
            append_decimal(&mut s, param as u64);
            s.append(",SQ8");
            Ok(s)
        },
        IndexKind::Hnsw => {
            let mut s = String::from_str("HNSW");
            append_decimal(&mut s, param as u64);
            Ok(s)
        },
    }
}

/// What the factory is given for a requested dimension: it must be
/// positive and fit in a C `int`.
pub open spec fn dimension_outcome(dimension: nat, r: Result<i32, FaissError>) -> bool {
    if dimension == 0 {
        r matches Err(FaissError::InvalidArgument(m)) && m@ == "dimension must be greater than 0"@
    } else if dimension > i32::MAX {
        r matches Err(FaissError::InvalidArgument(m)) && m@ == "dimension "@ + decimal(dimension)
            + " exceeds c_int::MAX"@
    } else {
        r == Ok::<i32, FaissError>(dimension as i32)
    }
}

/// The dimension that is handed to the factory, which takes a C `int`.
pub fn check_factory_dimension(dimension: usize) -> (r: Result<i32, FaissError>)
    ensures
        dimension_outcome(dimension as nat, r),
{
    if dimension == 0 {
        return Err(FaissError::InvalidArgument(String::from_str("dimension must be greater than 0")));
    }
    if dimension > 2147483647usize {
        let mut m = String::from_str("dimension ");
        append_decimal(&mut m, dimension as u64);
        m.append(" exceeds c_int::MAX");
        return Err(FaissError::InvalidArgument(m));
    }
    Ok(dimension as i32)
}

/// The factory reported success; its index pointer must not be null.
pub fn check_created(index_is_null: bool) -> (r: Result<(), FaissError>)
    ensures
        index_is_null ==> (r matches Err(FaissError::NullPointer(m)) && m@
            == "faiss_index_factory succeeded but returned a null index pointer"@),
        !index_is_null ==> r is Ok,
{
    if index_is_null {
        Err(FaissError::NullPointer("faiss_index_factory succeeded but returned a null index pointer"))
    } else {
        Ok(())
    }
}

/// Asking an index for its IVF part failed when the answer is null: the
/// index is not an inverted file.
pub fn check_ivf(ivf_is_null: bool) -> (r: Result<(), FaissError>)
    ensures
        ivf_is_null ==> (r matches Err(FaissError::UnsupportedIndexType(m)) && m@
            == "factory result is not an IVF index"@),
        !ivf_is_null ==> r is Ok,
{
    if ivf_is_null {
        Err(FaissError::UnsupportedIndexType("factory result is not an IVF index"))
    } else {
        Ok(())
    }
}

/// The number of inverted lists probed per query must not be 0.
pub fn check_nprobe(nprobe: usize) -> (r: Result<(), FaissError>)
    ensures
        nprobe == 0 ==> (r matches Err(FaissError::InvalidArgument(m)) && m@
            == "nprobe must be greater than 0"@),
        nprobe != 0 ==> r is Ok,
{
    if nprobe == 0 {
        Err(FaissError::InvalidArgument(String::from_str("nprobe must be greater than 0")))
    } else {
        Ok(())
    }
}

/// The vector count that the library reports, as a `usize` (the C value is
/// converted as Rust's `as` converts an `i64`).
pub fn count_from_raw(raw: i64) -> (n: usize)
    ensures
        n == raw as usize,
{
    raw as usize
}

/// What a reported index dimension gives: the shape of the index when it is
/// positive.
pub open spec fn reported_outcome(reported: i32, r: Result<IndexShape, FaissError>) -> bool {
    if reported <= 0 {
        r matches Err(FaissError::InvalidArgument(m)) && m@
            == "factory returned invalid index dimension: "@ + signed_decimal(reported as int)
    } else {
        r matches Ok(s) && s.spec_dimension() == reported
    }
}

/// The shape of a built index: its dimension, which is positive and fits in
/// a C `int`.
pub struct IndexShape {
    dimension: usize,
}

impl IndexShape {
    #[verifier::type_invariant]
    spec fn shape_ok(self) -> bool {
        0 < self.dimension <= i32::MAX
    }

    /// The dimension of the index.
    pub closed spec fn spec_dimension(self) -> nat {
        self.dimension as nat
    }

    /// The dimension of the index.
    pub fn dimension(&self) -> (d: usize)
        ensures
            d == self.spec_dimension(),
            0 < d <= i32::MAX,
    {
        proof { use_type_invariant(self); }
        self.dimension
    }

    /// The shape of an index whose dimension the library reports as
    /// `reported`, which must be positive.
    pub fn from_reported(reported: i32) -> (r: Result<IndexShape, FaissError>)
        ensures
            reported_outcome(reported, r),
    {
        if reported <= 0 {
            let mut m = String::from_str("factory returned invalid index dimension: ");
            append_signed_decimal(&mut m, reported as i64);
            return Err(FaissError::InvalidArgument(m));
        }
        Ok(IndexShape { dimension: reported as usize })
    }

    /// What `validate_vector_matrix` answers for a buffer of `len` values.
    pub open spec fn matrix_outcome(self, len: nat, r: Result<i64, FaissError>) -> bool {
        let d = self.spec_dimension();
        if len == 0 {
            r matches Err(FaissError::InvalidArgument(m)) && m@
                == "input vector buffer must not be empty"@
        } else if len % d != 0 {
            r matches Err(FaissError::DimensionMismatch { expected_multiple_of, actual_len })
                && expected_multiple_of == d && actual_len == len
        } else if len / d > i64::MAX {
            r matches Err(FaissError::InvalidArgument(m)) && m@ == "number of vectors "@
                + decimal(len / d) + " exceeds i64::MAX"@
        } else {
            r == Ok::<i64, FaissError>((len / d) as i64)
        }
    }

    /// The number of vectors in a buffer of `len` values: the buffer must
    /// not be empty, must hold whole vectors, and their number must fit in
    /// the C API's `i64` count.
    pub fn validate_vector_matrix(&self, len: usize) -> (r: Result<i64, FaissError>)
        ensures
            self.matrix_outcome(len as nat, r),
            r matches Ok(n) ==> n > 0 && n * self.spec_dimension() == len,
    {
        proof { use_type_invariant(self); }
        let d = self.dimension;
        if len == 0 {
            return Err(
                FaissError::InvalidArgument(String::from_str("input vector buffer must not be empty")),
            );
        }
        if len % d != 0 {
            return Err(FaissError::DimensionMismatch { expected_multiple_of: d, actual_len: len });
        }
        let n = len / d;
        if (n as u64) > 9223372036854775807u64 {
            let mut m = String::from_str("number of vectors ");
            append_decimal(&mut m, n as u64);
            m.append(" exceeds i64::MAX");
            return Err(FaissError::InvalidArgument(m));
        }
        assert(n * d == len) by (nonlinear_arith)
            requires n == len / d, len % d == 0, d > 0;
        assert(n > 0) by (nonlinear_arith)
            requires n == len / d, len > 0, len % d == 0, d > 0;
        Ok(n as i64)
    }

    /// Whether the result buffers of a search fit in memory's address
    /// range: where `plan_search` gets as far as sizing them, `queries * k`
    /// values must fit in a `usize`.
    pub open spec fn search_fits(self, query_len: nat, k: nat) -> bool {
        let d = self.spec_dimension();
        k == 0 || k > i64::MAX || query_len == 0 || query_len % d != 0 || query_len / d > i64::MAX
            || (query_len / d) * k <= usize::MAX
    }

    /// Whether `search_fits` holds: callers test it before `plan_search`.
    pub fn search_buffers_fit(&self, query_len: usize, k: usize) -> (b: bool)
        ensures
            b == self.search_fits(query_len as nat, k as nat),
    {
        proof { use_type_invariant(self); }
        let d = self.dimension;
        if k == 0 || (k as u64) > 9223372036854775807u64 || query_len == 0 || query_len % d != 0 {
            return true;
        }
        let nq = query_len / d;
        if (nq as u64) > 9223372036854775807u64 {
            return true;
        }
        nq.checked_mul(k).is_some()
    }

    /// The plan of a search for the `k` nearest neighbours of the queries
    /// in a buffer of `query_len` values: `k` must be positive and fit in an
    /// `i64`, and the buffer must pass `validate_vector_matrix`.
    pub fn plan_search(&self, query_len: usize, k: usize) -> (r: Result<SearchPlan, FaissError>)
        requires
            self.search_fits(query_len as nat, k as nat),
        ensures
            k == 0 ==> (r matches Err(FaissError::InvalidArgument(m)) && m@
                == "k must be greater than 0"@),
            k > i64::MAX ==> (r matches Err(FaissError::InvalidArgument(m)) && m@ == "k "@
                + decimal(k as nat) + " exceeds i64::MAX"@),
            0 < k <= i64::MAX ==> match r {
                Err(e) => self.matrix_outcome(query_len as nat, Err(e)),
                Ok(p) => self.matrix_outcome(query_len as nat, Ok(p.queries)) && p.k == k
                    && p.result_len == p.queries * k,
            },
            r matches Ok(p) ==> p.queries > 0 && p.queries * self.spec_dimension() == query_len,
    {
        if k == 0 {
            return Err(FaissError::InvalidArgument(String::from_str("k must be greater than 0")));
        }
        if (k as u64) > 9223372036854775807u64 {
            let mut m = String::from_str("k ");
            append_decimal(&mut m, k as u64);
            m.append(" exceeds i64::MAX");
            return Err(FaissError::InvalidArgument(m));
        }
        let nq = self.validate_vector_matrix(query_len)?;
        proof { use_type_invariant(self); }
        let nq_usize = nq as usize;
        assert(nq_usize == (query_len as nat) / self.spec_dimension()) by (nonlinear_arith)
            requires nq * self.spec_dimension() == query_len, self.spec_dimension() > 0,
                nq_usize == nq;
        let result_len = nq_usize * k;
        Ok(SearchPlan { queries: nq, k: k as i64, result_len })
    }

}

/// A search that passed its checks: the number of queries, the number of
/// neighbours per query, and the length of each result buffer.
pub struct SearchPlan {
    pub queries: i64,
    pub k: i64,
    pub result_len: usize,
}

/// The labels of the neighbours of query `query_idx`, in a result buffer
/// that holds `k` labels per query.
pub fn labels_for_query(labels: &[i64], k: usize, query_idx: usize) -> (row: &[i64])
    requires
        query_idx * k + k <= labels@.len(),
    ensures
        row@ == labels@.subrange(query_idx * k, query_idx * k + k),
{
    let n = labels.len();
    assert(query_idx * k <= query_idx * k + k <= n);
    let start = query_idx * k;
    let end = start + k;
    &labels[start..end]
}

/// Every query of a search has its row inside the result buffer: with
/// `queries` rows of `k` labels, row `q < queries` ends by `queries * k`.
pub proof fn lemma_rows_within_result(queries: int, k: int, q: int)
    requires
        0 <= q < queries,
        0 <= k,
    ensures
        q * k + k <= queries * k,
{
    assert(q * k + k == (q + 1) * k) by (nonlinear_arith);
    assert((q + 1) * k <= queries * k) by (nonlinear_arith)
        requires q + 1 <= queries, 0 <= k;
}

/// The rows of a result buffer cover it: label `p` is entry `p % k` of row
/// `p / k`.
pub proof fn lemma_label_in_row(labels: Seq<i64>, k: int, p: int)
    requires
        k > 0,
        0 <= p < labels.len(),
        (labels.len() as int) % k == 0,
    ensures
        (p / k) * k + k <= labels.len(),
        labels.subrange((p / k) * k, (p / k) * k + k)[p % k] == labels[p],
{
    let q = p / k;
    assert(q * k + p % k == p) by (nonlinear_arith)
        requires q == p / k, k > 0;
    assert(0 <= p % k < k) by (nonlinear_arith)
        requires k > 0;
    let len = labels.len() as int;
    let n = len / k;
    assert(n * k == len) by (nonlinear_arith)
        requires n == len / k, len % k == 0, k > 0;
    assert(q < n) by (nonlinear_arith)
        requires q == p / k, n * k == len, p < len, k > 0, p >= 0;
    lemma_rows_within_result(n, k, q);
}

} // verus!
