//! Message passing in the style of MPI, for teaching: ranks, point-to-point
//! sends, barriers, collective layouts and reductions over 32-bit integers.
use vstd::prelude::*;
use vstd::arithmetic::div_mod::lemma_fundamental_div_mod;
use crate::ids::{fresh_id, now_millis};
use crate::text::{decimal_text, duration_debug, duration_debug_text, push_decimal, push_text, string_of};

verus! {

/// MPI rank identifier (equivalent to a process id).
pub type Rank = usize;

/// Number of processes in a communicator.
pub type Size = usize;

/// MPI communication tag.
pub type Tag = i32;

/// Matches any tag.
pub const MPI_ANY_TAG: Tag = -1;

/// Largest tag value.
pub const MPI_TAG_UB: Tag = 32767;

/// Errors of MPI operations. Durations are in milliseconds.
pub enum MPIError {
    InvalidRank(Rank, Size),
    Timeout(u64),
    NotSupported(String),
    BufferTooSmall(usize, usize),
    NoMessage,
    Communication(String),
}

/// The message of an MPI error.
pub open spec fn mpi_error_text(e: MPIError) -> Seq<char> {
    match e {
        MPIError::InvalidRank(r, s) => "Invalid rank: "@ + decimal_text(r as nat) + " (valid range: 0.."@
            + decimal_text(s as nat) + ")"@,
        MPIError::Timeout(ms) => "Communication timeout after "@ + duration_debug_text(ms),
        MPIError::NotSupported(m) => "Operation not supported: "@ + m@,
        MPIError::BufferTooSmall(a, b) => "Buffer too small: required "@ + decimal_text(a as nat)
            + ", available "@ + decimal_text(b as nat),
        MPIError::NoMessage => "No matching message found"@,
        MPIError::Communication(m) => "Communication failed: "@ + m@,
    }
}

impl MPIError {
    /// The message of this error.
    pub fn to_string(&self) -> (s: String)
        ensures
            s@ == mpi_error_text(*self),
    {
        let mut s = String::new();
        match self {
            MPIError::InvalidRank(r, n) => {
                push_text(&mut s, "Invalid rank: ");
                push_decimal(&mut s, *r as u64);
                push_text(&mut s, " (valid range: 0..");
                push_decimal(&mut s, *n as u64);
                push_text(&mut s, ")");
            },
            MPIError::Timeout(ms) => {
                push_text(&mut s, "Communication timeout after ");
                let d = duration_debug(*ms);
                push_text(&mut s, d.as_str());
            },
            MPIError::NotSupported(m) => {
                push_text(&mut s, "Operation not supported: ");
                push_text(&mut s, m.as_str());
            },
            MPIError::BufferTooSmall(a, b) => {
                push_text(&mut s, "Buffer too small: required ");
                push_decimal(&mut s, *a as u64);
                push_text(&mut s, ", available ");
                push_decimal(&mut s, *b as u64);
            },
            MPIError::NoMessage => {
                push_text(&mut s, "No matching message found");
            },
            MPIError::Communication(m) => {
                push_text(&mut s, "Communication failed: ");
                push_text(&mut s, m.as_str());
            },
        }
        assert(s@ =~= mpi_error_text(*self));
        s
    }
}

/// Status of a completed receive.
pub struct Status {
    pub source: Rank,
    pub tag: Tag,
    pub count: usize,
    pub error: Option<MPIError>,
}

/// MPI data types.
pub enum MPIType {
    Int8,
    Int16,
    Int32,
    Int64,
    UInt8,
    UInt16,
    UInt32,
    UInt64,
    Float32,
    Float64,
    Char,
    Bool,
}

/// Kinds of MPI operations.
#[derive(Clone, Copy)]
pub enum MPIOperationType {
    Send,
    Receive,
    Broadcast,
    Scatter,
    Gather,
    Reduce,
    AllReduce,
    Barrier,
}

/// Reduction operations for collective communication.
pub enum ReductionOp {
    Sum,
    Product,
    Max,
    Min,
    BitwiseAnd,
    BitwiseOr,
    LogicalAnd,
    LogicalOr,
}

/// The name of a reduction operation, as `Debug` renders it.
pub open spec fn reduction_op_name(op: ReductionOp) -> Seq<char> {
    match op {
        ReductionOp::Sum => "Sum"@,
        ReductionOp::Product => "Product"@,
        ReductionOp::Max => "Max"@,
        ReductionOp::Min => "Min"@,
        ReductionOp::BitwiseAnd => "BitwiseAnd"@,
        ReductionOp::BitwiseOr => "BitwiseOr"@,
        ReductionOp::LogicalAnd => "LogicalAnd"@,
        ReductionOp::LogicalOr => "LogicalOr"@,
    }
}

fn reduction_op_name_string(op: &ReductionOp) -> (s: String)
    ensures
        s@ == reduction_op_name(*op),
{
    match op {
        ReductionOp::Sum => string_of("Sum"),
        ReductionOp::Product => string_of("Product"),
        ReductionOp::Max => string_of("Max"),
        ReductionOp::Min => string_of("Min"),
        ReductionOp::BitwiseAnd => string_of("BitwiseAnd"),
        ReductionOp::BitwiseOr => string_of("BitwiseOr"),
        ReductionOp::LogicalAnd => string_of("LogicalAnd"),
        ReductionOp::LogicalOr => string_of("LogicalOr"),
    }
}

/// MPI operations queued for delivery.
pub enum MPIOperation {
    Send { data: Vec<u8>, dest: Rank, tag: Tag },
    Receive { source: Rank, tag: Tag, buffer: Vec<u8> },
    Broadcast { data: Vec<u8>, root: Rank },
    Scatter { sendbuf: Vec<u8>, recvbuf: Vec<u8>, root: Rank },
    Gather { sendbuf: Vec<u8>, recvbuf: Vec<u8>, root: Rank },
    Reduce { sendbuf: Vec<u8>, recvbuf: Vec<u8>, root: Rank, op: ReductionOp },
    AllReduce { sendbuf: Vec<u8>, recvbuf: Vec<u8>, op: ReductionOp },
    Barrier,
}

// ---------------------------------------------------------------------------
// Reductions over little-endian 32-bit integers
// ---------------------------------------------------------------------------

/// The unsigned value of four little-endian bytes.
pub open spec fn le_u32_value(b0: u8, b1: u8, b2: u8, b3: u8) -> int {
    b0 + 256 * b1 + 65536 * b2 + 16777216 * b3
}

/// The signed 32-bit integer stored little-endian at `data[4k..4k+4]`.
pub open spec fn i32_at(data: Seq<u8>, k: int) -> int {
    let u = le_u32_value(data[4 * k], data[4 * k + 1], data[4 * k + 2], data[4 * k + 3]);
    if u >= 0x8000_0000 {
        u - 0x1_0000_0000
    } else {
        u
    }
}

/// The integers held by `data`, four bytes each; trailing bytes are ignored.
pub open spec fn chunk_values(data: Seq<u8>) -> Seq<int> {
    Seq::new(data.len() / 4, |k: int| i32_at(data, k))
}

/// The little-endian bytes of a signed 32-bit value.
pub open spec fn i32_le_bytes(v: int) -> Seq<u8> {
    let u = if v < 0 {
        v + 0x1_0000_0000
    } else {
        v
    };
    seq![(u % 256) as u8, ((u / 256) % 256) as u8, ((u / 65536) % 256) as u8, ((u / 16777216) % 256) as u8]
}

pub open spec fn seq_sum(s: Seq<int>) -> int
    decreases s.len(),
{
    if s.len() == 0 {
        0
    } else {
        seq_sum(s.drop_last()) + s.last()
    }
}

pub open spec fn seq_product(s: Seq<int>) -> int
    decreases s.len(),
{
    if s.len() == 0 {
        1
    } else {
        seq_product(s.drop_last()) * s.last()
    }
}

/// The largest value, starting from `i32::MIN`.
pub open spec fn seq_max(s: Seq<int>) -> int
    decreases s.len(),
{
    if s.len() == 0 {
        i32::MIN as int
    } else if s.last() > seq_max(s.drop_last()) {
        s.last()
    } else {
        seq_max(s.drop_last())
    }
}

/// The smallest value, starting from `i32::MAX`.
pub open spec fn seq_min(s: Seq<int>) -> int
    decreases s.len(),
{
    if s.len() == 0 {
        i32::MAX as int
    } else if s.last() < seq_min(s.drop_last()) {
        s.last()
    } else {
        seq_min(s.drop_last())
    }
}

proof fn lemma_seq_extremes(s: Seq<int>)
    requires
        s.len() > 0,
        forall|i: int| 0 <= i < s.len() ==> fits_i32(#[trigger] s[i]),
    ensures
        exists|k: int| 0 <= k < s.len() && s[k] == seq_max(s),
        forall|j: int| 0 <= j < s.len() ==> #[trigger] s[j] <= seq_max(s),
        exists|k: int| 0 <= k < s.len() && s[k] == seq_min(s),
        forall|j: int| 0 <= j < s.len() ==> #[trigger] s[j] >= seq_min(s),
    decreases s.len(),
{
    let r = s.drop_last();
    let n = s.len() - 1;
    if s.len() == 1 {
        assert(r.len() == 0);
        assert(fits_i32(s[0]));
        if s[0] > seq_max(r) {
        } else {
            assert(s[0] == seq_max(r));
        }
        if s[0] < seq_min(r) {
        } else {
            assert(s[0] == seq_min(r));
        }
        assert(s[n] == seq_max(s));
        assert(s[n] == seq_min(s));
    } else {
        assert forall|i: int| 0 <= i < r.len() implies fits_i32(#[trigger] r[i]) by {
            assert(r[i] == s[i]);
        }
        lemma_seq_extremes(r);
        let km = choose|k: int| 0 <= k < r.len() && r[k] == seq_max(r);
        let kn = choose|k: int| 0 <= k < r.len() && r[k] == seq_min(r);
        if s[n] > seq_max(r) {
            assert(s[n] == seq_max(s));
        } else {
            assert(s[km] == seq_max(s));
        }
        if s[n] < seq_min(r) {
            assert(s[n] == seq_min(s));
        } else {
            assert(s[kn] == seq_min(s));
        }
        assert forall|j: int| 0 <= j < s.len() implies #[trigger] s[j] <= seq_max(s) && s[j] >= seq_min(s) by {
            if j < n {
                assert(s[j] == r[j]);
            }
        }
    }
}

/// Every value that `data` holds is a 32-bit signed integer.
proof fn lemma_chunk_values_fit(data: Seq<u8>)
    ensures
        forall|i: int| 0 <= i < chunk_values(data).len() ==> fits_i32(#[trigger] chunk_values(data)[i]),
{
}

/// A maximum reduction gives the largest of the values, and a minimum
/// reduction the smallest: on a buffer holding at least one value, each
/// is one of the values, no value exceeds the maximum and none lies below
/// the minimum.
pub proof fn lemma_max_min_reductions(data: Seq<u8>)
    requires
        data.len() >= 4,
    ensures
        reduction_value(ReductionOp::Max, chunk_values(data)) matches Some(v) && (exists|k: int|
            0 <= k < chunk_values(data).len() && chunk_values(data)[k] == v) && (forall|j: int|
            0 <= j < chunk_values(data).len() ==> #[trigger] chunk_values(data)[j] <= v),
        reduction_value(ReductionOp::Min, chunk_values(data)) matches Some(v) && (exists|k: int|
            0 <= k < chunk_values(data).len() && chunk_values(data)[k] == v) && (forall|j: int|
            0 <= j < chunk_values(data).len() ==> #[trigger] chunk_values(data)[j] >= v),
{
    lemma_chunk_values_fit(data);
    lemma_seq_extremes(chunk_values(data));
}

/// Taking one value out of a sequence and folding it in last gives the
/// same sum, product, maximum and minimum.
proof fn lemma_fold_remove(s: Seq<int>, i: int)
    requires
        0 <= i < s.len(),
    ensures
        seq_sum(s) == seq_sum(s.remove(i)) + s[i],
        seq_product(s) == seq_product(s.remove(i)) * s[i],
        seq_max(s) == (if s[i] > seq_max(s.remove(i)) {
            s[i]
        } else {
            seq_max(s.remove(i))
        }),
        seq_min(s) == (if s[i] < seq_min(s.remove(i)) {
            s[i]
        } else {
            seq_min(s.remove(i))
        }),
    decreases s.len(),
{
    if i == s.len() - 1 {
        assert(s.remove(i) =~= s.drop_last());
    } else {
        let t = s.drop_last();
        let r = s.remove(i);
        assert(r.drop_last() =~= t.remove(i));
        assert(r.last() == s.last());
        assert(t[i] == s[i]);
        lemma_fold_remove(t, i);
        let p = seq_product(t.remove(i));
        let x = s[i];
        let l = s.last();
        assert((p * x) * l == (p * l) * x) by (nonlinear_arith);
    }
}

/// A reduction does not depend on the order of its values: two sequences
/// holding the same values, each as often, reduce to the same result.
pub proof fn lemma_reduction_order_free(op: ReductionOp, a: Seq<int>, b: Seq<int>)
    requires
        a.to_multiset() == b.to_multiset(),
    ensures
        reduction_value(op, a) == reduction_value(op, b),
{
    lemma_folds_order_free(a, b);
}

proof fn lemma_folds_order_free(a: Seq<int>, b: Seq<int>)
    requires
        a.to_multiset() == b.to_multiset(),
    ensures
        seq_sum(a) == seq_sum(b),
        seq_product(a) == seq_product(b),
        seq_max(a) == seq_max(b),
        seq_min(a) == seq_min(b),
    decreases a.len(),
{
    broadcast use vstd::seq_lib::group_to_multiset_ensures;

    if a.len() == 0 {
        assert(b.to_multiset().len() == 0);
        assert(b =~= a);
    } else {
        let x = a.last();
        let a1 = a.drop_last();
        assert(a.contains(x)) by {
            assert(a[a.len() - 1] == x);
        }
        assert(a.to_multiset().count(x) > 0);
        assert(b.contains(x));
        let j = choose|j: int| 0 <= j < b.len() && b[j] == x;
        let b1 = b.remove(j);
        assert(b1.to_multiset() == b.to_multiset().remove(x));
        assert(a.remove(a.len() - 1) =~= a1);
        assert(a1.to_multiset() == a.to_multiset().remove(a[a.len() - 1]));
        assert(a1.len() < a.len());
        lemma_folds_order_free(a1, b1);
        lemma_fold_remove(b, j);
        lemma_fold_remove(a, a.len() - 1);
    }
}

pub open spec fn fits_i32(v: int) -> bool {
    i32::MIN <= v <= i32::MAX
}

/// Every running sum of `s` fits in an `i32`.
pub open spec fn sums_fit(s: Seq<int>) -> bool {
    forall|k: int| 0 <= k <= s.len() ==> fits_i32(#[trigger] seq_sum(s.take(k)))
}

/// Every running product of `s` fits in an `i32`.
pub open spec fn products_fit(s: Seq<int>) -> bool {
    forall|k: int| 0 <= k <= s.len() ==> fits_i32(#[trigger] seq_product(s.take(k)))
}

/// The value a reduction computes, or `None` for the operations that are not implemented.
pub open spec fn reduction_value(op: ReductionOp, vals: Seq<int>) -> Option<int> {
    match op {
        ReductionOp::Sum => Some(seq_sum(vals)),
        ReductionOp::Product => Some(seq_product(vals)),
        ReductionOp::Max => Some(seq_max(vals)),
        ReductionOp::Min => Some(seq_min(vals)),
        _ => None,
    }
}

/// The inputs on which a reduction does not overflow.
pub open spec fn reduction_fits(op: ReductionOp, vals: Seq<int>) -> bool {
    match op {
        ReductionOp::Sum => sums_fit(vals),
        ReductionOp::Product => products_fit(vals),
        _ => true,
    }
}

/// Reads the little-endian `i32` number `k` of `data`.
pub fn read_i32_le(data: &[u8], k: usize) -> (v: i32)
    requires
        4 * k + 4 <= data@.len(),
    ensures
        v == i32_at(data@, k as int),
{
    assert(data@.len() == data.len());
    let i = 4 * k;
    let u: u64 = data[i] as u64 + (data[i + 1] as u64) * 256 + (data[i + 2] as u64) * 65536 + (data[i
        + 3] as u64) * 16777216;
    if u >= 0x8000_0000 {
        let w: i64 = (u as i64) - 0x1_0000_0000i64;
        w as i32
    } else {
        u as i32
    }
}

/// The little-endian bytes of `v` (`i32::to_le_bytes`).
pub fn i32_to_le(v: i32) -> (b: Vec<u8>)
    ensures
        b@ == i32_le_bytes(v as int),
{
    let u: u64 = if v < 0 {
        ((v as i64) + 0x1_0000_0000i64) as u64
    } else {
        v as u64
    };
    let b = vec![(u % 256) as u8, ((u / 256) % 256) as u8, ((u / 65536) % 256) as u8, ((u / 16777216) % 256) as u8];
    assert(b@ =~= i32_le_bytes(v as int));
    b
}

proof fn lemma_take_last(s: Seq<int>, k: int)
    requires
        0 <= k < s.len(),
    ensures
        s.take(k + 1).drop_last() == s.take(k),
        s.take(k + 1).last() == s[k],
{
    assert(s.take(k + 1).drop_last() =~= s.take(k));
}

/// Reduces the little-endian `i32` values of `data` with `op`; the result is
/// the reduced value's four little-endian bytes. Sum, product, maximum and
/// minimum are implemented; the other operations fail with `NotSupported`.
pub fn perform_reduction(data: &[u8], op: &ReductionOp) -> (r: Result<Vec<u8>, MPIError>)
    requires
        reduction_fits(*op, chunk_values(data@)),
    ensures
        match reduction_value(*op, chunk_values(data@)) {
            Some(v) => r matches Ok(b) && b@ == i32_le_bytes(v),
            None => r matches Err(MPIError::NotSupported(m)) && m@ == "Reduction operation "@
                + reduction_op_name(*op) + " not implemented"@,
        },
        *op == ReductionOp::Max && data@.len() >= 4 ==> (r matches Ok(b) && exists|k: int|
            0 <= k < chunk_values(data@).len() && b@ == i32_le_bytes(chunk_values(data@)[k]) && (forall|j: int|
                0 <= j < chunk_values(data@).len() ==> #[trigger] chunk_values(data@)[j] <= chunk_values(data@)[k])),
        *op == ReductionOp::Min && data@.len() >= 4 ==> (r matches Ok(b) && exists|k: int|
            0 <= k < chunk_values(data@).len() && b@ == i32_le_bytes(chunk_values(data@)[k]) && (forall|j: int|
                0 <= j < chunk_values(data@).len() ==> #[trigger] chunk_values(data@)[j] >= chunk_values(data@)[k])),
{
    proof {
        if data@.len() >= 4 {
            lemma_max_min_reductions(data@);
        }
    }
    let n = data.len() / 4;
    let ghost vals = chunk_values(data@);
    match op {
        ReductionOp::Sum => {
            let mut acc: i32 = 0;
            let mut k: usize = 0;
            while k < n
                invariant
                    n == vals.len(),
                    vals == chunk_values(data@),
                    k <= n,
                    sums_fit(vals),
                    acc == seq_sum(vals.take(k as int)),
                decreases n - k,
            {
                let v = read_i32_le(data, k);
                proof {
                    lemma_take_last(vals, k as int);
                    assert(fits_i32(seq_sum(vals.take(k + 1))));
                }
                acc = acc + v;
                k = k + 1;
            }
            assert(vals.take(n as int) =~= vals);
            Ok(i32_to_le(acc))
        },
        ReductionOp::Product => {
            let mut acc: i32 = 1;
            let mut k: usize = 0;
            while k < n
                invariant
                    n == vals.len(),
                    vals == chunk_values(data@),
                    k <= n,
                    products_fit(vals),
                    acc == seq_product(vals.take(k as int)),
                decreases n - k,
            {
                let v = read_i32_le(data, k);
                proof {
                    lemma_take_last(vals, k as int);
                    assert(fits_i32(seq_product(vals.take(k + 1))));
                }
                acc = acc * v;
                k = k + 1;
            }
            assert(vals.take(n as int) =~= vals);
            Ok(i32_to_le(acc))
        },
        ReductionOp::Max => {
            let mut acc: i32 = i32::MIN;
            let mut k: usize = 0;
            while k < n
                invariant
                    n == vals.len(),
                    vals == chunk_values(data@),
                    k <= n,
                    acc == seq_max(vals.take(k as int)),
                decreases n - k,
            {
                let v = read_i32_le(data, k);
                proof {
                    lemma_take_last(vals, k as int);
                }
                if v > acc {
                    acc = v;
                }
                k = k + 1;
            }
            assert(vals.take(n as int) =~= vals);
            Ok(i32_to_le(acc))
        },
        ReductionOp::Min => {
            let mut acc: i32 = i32::MAX;
            let mut k: usize = 0;
            while k < n
                invariant
                    n == vals.len(),
                    vals == chunk_values(data@),
                    k <= n,
                    acc == seq_min(vals.take(k as int)),
                decreases n - k,
            {
                let v = read_i32_le(data, k);
                proof {
                    lemma_take_last(vals, k as int);
                }
                if v < acc {
                    acc = v;
                }
                k = k + 1;
            }
            assert(vals.take(n as int) =~= vals);
            Ok(i32_to_le(acc))
        },
        _ => {
            let mut m = string_of("Reduction operation ");
            let name = reduction_op_name_string(op);
            push_text(&mut m, name.as_str());
            push_text(&mut m, " not implemented");
            Err(MPIError::NotSupported(m))
        },
    }
}

// ---------------------------------------------------------------------------
// Scatter layout
// ---------------------------------------------------------------------------

/// The number of bytes rank `rank` receives when `len` bytes are scattered
/// over `size` ranks: an even share, plus one for the first `len % size` ranks.
pub open spec fn scatter_chunk(len: nat, size: nat, rank: nat) -> nat {
    len / size + if rank < len % size {
        1nat
    } else {
        0nat
    }
}

/// Where the chunk of `rank` starts.
pub open spec fn scatter_offset(len: nat, size: nat, rank: nat) -> nat {
    rank * (len / size) + if rank < len % size {
        rank
    } else {
        len % size
    }
}

/// Scattered chunks follow one another without gap or overlap and together
/// cover the whole send buffer.
pub proof fn lemma_scatter_partition(len: nat, size: nat, rank: nat)
    requires
        size > 0,
        rank < size,
    ensures
        scatter_offset(len, size, rank) + scatter_chunk(len, size, rank) == scatter_offset(
            len,
            size,
            rank + 1,
        ),
        scatter_offset(len, size, 0) == 0,
        scatter_offset(len, size, size) == len,
{
    let q = len / size;
    let r = len % size;
    assert(len == size * q + r) by (nonlinear_arith)
        requires
            size > 0,
            q == len / size,
            r == len % size,
    ;
    assert((rank + 1) * q == rank * q + q) by (nonlinear_arith);
    assert(size * q == q * size) by (nonlinear_arith);
    assert(r < size) by (nonlinear_arith)
        requires
            size > 0,
            r == len % size,
    ;
}

/// The (offset, length) of each rank's chunk when `total_len` bytes are
/// scattered over `size` ranks.
pub fn scatter_layout(total_len: usize, size: Size) -> (chunks: Vec<(usize, usize)>)
    requires
        size > 0,
    ensures
        chunks.len() == size,
        forall|r: int|
            0 <= r < size ==> #[trigger] chunks[r] == (
                scatter_offset(total_len as nat, size as nat, r as nat) as usize,
                scatter_chunk(total_len as nat, size as nat, r as nat) as usize,
            ),
{
    let base = total_len / size;
    let remaining = total_len % size;
    let mut chunks: Vec<(usize, usize)> = Vec::new();
    let mut offset: usize = 0;
    let mut rank: usize = 0;
    while rank < size
        invariant
            rank <= size,
            size > 0,
            base == total_len / size,
            remaining == total_len % size,
            chunks.len() == rank,
            offset == scatter_offset(total_len as nat, size as nat, rank as nat),
            forall|r: int|
                0 <= r < rank ==> #[trigger] chunks[r] == (
                    scatter_offset(total_len as nat, size as nat, r as nat) as usize,
                    scatter_chunk(total_len as nat, size as nat, r as nat) as usize,
                ),
        decreases size - rank,
    {
        proof {
            lemma_scatter_partition(total_len as nat, size as nat, rank as nat);
            lemma_offsets_bounded(total_len as nat, size as nat, (rank + 1) as nat);
        }
        let chunk_size = if rank < remaining {
            base + 1
        } else {
            base
        };
        chunks.push((offset, chunk_size));
        offset = offset + chunk_size;
        rank = rank + 1;
    }
    chunks
}

/// Offsets never pass the end of the buffer.
proof fn lemma_offsets_bounded(len: nat, size: nat, rank: nat)
    requires
        size > 0,
        rank <= size,
    ensures
        scatter_offset(len, size, rank) <= len,
    decreases size - rank,
{
    if rank < size {
        lemma_offsets_bounded(len, size, rank + 1);
        lemma_scatter_partition(len, size, rank);
    } else {
        lemma_scatter_partition(len, size, 0);
    }
}

// ---------------------------------------------------------------------------
// The teaching MPI environment
// ---------------------------------------------------------------------------

/// A communicator: the group of processes of a computation. Times are in
/// milliseconds since the Unix epoch; `processes[r]` is the node of rank `r`.
pub struct Communicator {
    pub id: u128,
    pub name: String,
    pub rank: Rank,
    pub size: Size,
    pub processes: Vec<u128>,
    pub created_at: u64,
}

/// Counters of an MPI environment. The latency is in milliseconds.
pub struct MPIStatistics {
    pub total_messages_sent: u64,
    pub total_bytes_sent: u64,
    pub total_operations: u64,
    pub average_latency: u64,
    pub barrier_count: u64,
    pub collective_count: u64,
    pub point_to_point_count: u64,
}

impl MPIStatistics {
    /// All counters at zero.
    pub fn new() -> (s: Self)
        ensures
            s.total_messages_sent == 0,
            s.total_bytes_sent == 0,
            s.total_operations == 0,
            s.average_latency == 0,
            s.barrier_count == 0,
            s.collective_count == 0,
            s.point_to_point_count == 0,
    {
        MPIStatistics {
            total_messages_sent: 0,
            total_bytes_sent: 0,
            total_operations: 0,
            average_latency: 0,
            barrier_count: 0,
            collective_count: 0,
            point_to_point_count: 0,
        }
    }
}

/// An MPI environment for teaching: one process of a communicator, the
/// operations it has queued, its counters, and the ranks that have arrived at
/// the barrier it has open.
pub struct EducationalMPI {
    pub communicator: Communicator,
    pub message_queue: Vec<MPIOperation>,
    pub statistics: MPIStatistics,
    pub barrier: Option<Vec<Rank>>,
    pub requests: RequestLog,
}

/// Whether the counters can take `messages` more sends of `bytes` bytes in all.
pub open spec fn send_room(s: MPIStatistics, messages: nat, bytes: nat) -> bool {
    &&& s.total_messages_sent + messages <= u64::MAX
    &&& s.point_to_point_count + messages <= u64::MAX
    &&& s.total_bytes_sent + bytes <= u64::MAX
}

impl EducationalMPI {
    /// A fresh environment: communicator `EDU_WORLD` with one process of rank 0.
    pub fn init() -> (mpi: Self)
        ensures
            mpi.communicator.name@ == "EDU_WORLD"@,
            mpi.communicator.rank == 0,
            mpi.communicator.size == 1,
            mpi.communicator.processes@.len() == 0,
            mpi.message_queue@.len() == 0,
            mpi.statistics == MPIStatistics::new_spec(),
            mpi.barrier is None,
            mpi.requests.active@.len() == 0,
            mpi.requests.completed@.len() == 0,
    {
        let communicator = Communicator {
            id: fresh_id(),
            name: string_of("EDU_WORLD"),
            rank: 0,
            size: 1,
            processes: Vec::new(),
            created_at: now_millis(),
        };
        EducationalMPI {
            communicator,
            message_queue: Vec::new(),
            statistics: MPIStatistics::new(),
            barrier: None,
            requests: RequestLog { active: Vec::new(), completed: Vec::new() },
        }
    }

    /// The rank of this process.
    pub fn rank(&self) -> (r: Rank)
        ensures
            r == self.communicator.rank,
    {
        self.communicator.rank
    }

    /// The number of processes.
    pub fn size(&self) -> (n: Size)
        ensures
            n == self.communicator.size,
    {
        self.communicator.size
    }

    /// Queues `data` for rank `dest`. A destination outside the communicator
    /// is refused with `InvalidRank`; otherwise the send is queued and counted.
    pub fn send(&mut self, data: &[u8], dest: Rank, tag: Tag) -> (r: Result<(), MPIError>)
        requires
            send_room(old(self).statistics, 1, data@.len()),
        ensures
            dest >= old(self).communicator.size ==> r == Err::<(), MPIError>(
                MPIError::InvalidRank(dest, old(self).communicator.size),
            ) && *final(self) == *old(self),
            dest < old(self).communicator.size ==> {
                &&& r is Ok
                &&& final(self).communicator == old(self).communicator
                &&& final(self).barrier == old(self).barrier
                &&& final(self).requests == old(self).requests
                &&& final(self).message_queue@.len() == old(self).message_queue@.len() + 1
                &&& final(self).message_queue@.drop_last() == old(self).message_queue@
                &&& final(self).message_queue@.last() matches MPIOperation::Send { data: d, dest: dd, tag: t }
                    && d@ == data@ && dd == dest && t == tag
                &&& final(self).statistics == MPIStatistics {
                    total_messages_sent: (old(self).statistics.total_messages_sent + 1) as u64,
                    total_bytes_sent: (old(self).statistics.total_bytes_sent + data@.len()) as u64,
                    point_to_point_count: (old(self).statistics.point_to_point_count + 1) as u64,
                    ..old(self).statistics
                }
            },
    {
        if dest >= self.communicator.size {
            return Err(MPIError::InvalidRank(dest, self.communicator.size));
        }
        let mut copy: Vec<u8> = Vec::new();
        let mut i: usize = 0;
        while i < data.len()
            invariant
                i <= data@.len(),
                copy@ == data@.subrange(0, i as int),
            decreases data@.len() - i,
        {
            copy.push(data[i]);
            i = i + 1;
            assert(copy@ =~= data@.subrange(0, i as int));
        }
        assert(copy@ =~= data@);
        self.message_queue.push(MPIOperation::Send { data: copy, dest, tag });
        assert(self.message_queue@.drop_last() =~= old(self).message_queue@);
        self.statistics.total_messages_sent = self.statistics.total_messages_sent + 1;
        self.statistics.total_bytes_sent = self.statistics.total_bytes_sent + data.len() as u64;
        self.statistics.point_to_point_count = self.statistics.point_to_point_count + 1;
        Ok(())
    }

    /// Receives into `data` from `source` (`usize::MAX` meaning any source).
    /// A source outside the communicator is refused with `InvalidRank`;
    /// otherwise the buffer is filled with what arrived (zeros in this
    /// simulation) and the status reports the whole buffer.
    pub fn recv(&self, data: &mut Vec<u8>, source: Rank, tag: Tag) -> (r: Result<Status, MPIError>)
        ensures
            source >= self.communicator.size && source != usize::MAX ==> r == Err::<Status, MPIError>(
                MPIError::InvalidRank(source, self.communicator.size),
            ) && final(data)@ == old(data)@,
            !(source >= self.communicator.size && source != usize::MAX) ==> {
                &&& r matches Ok(st) && st.source == (if source == usize::MAX { 0 } else { source })
                    && st.tag == tag && st.count == old(data)@.len() && st.error is None
                &&& final(data)@ == Seq::new(old(data)@.len(), |i: int| 0u8)
            },
    {
        if source >= self.communicator.size && source != usize::MAX {
            return Err(MPIError::InvalidRank(source, self.communicator.size));
        }
        let n = data.len();
        let mut i: usize = 0;
        while i < n
            invariant
                n == data@.len(),
                i <= n,
                forall|j: int| 0 <= j < i ==> data@[j] == 0u8,
            decreases n - i,
        {
            data.set(i, 0u8);
            i = i + 1;
        }
        assert(data@ =~= Seq::new(n as nat, |i: int| 0u8));
        Ok(Status { source: if source == usize::MAX { 0 } else { source }, tag, count: n, error: None })
    }

    /// Synchronisation barrier. If a barrier is open, this rank's arrival is
    /// recorded and, when every rank has arrived, the barrier is released and
    /// closed. Otherwise a new barrier is opened with this rank as its only
    /// arrival, and the barrier is counted.
    pub fn barrier(&mut self) -> (r: Result<(), MPIError>)
        requires
            old(self).statistics.barrier_count < u64::MAX,
        ensures
            r is Ok,
            final(self).communicator == old(self).communicator,
            final(self).message_queue == old(self).message_queue,
            final(self).requests == old(self).requests,
            ({
                let me = old(self).communicator.rank;
                let released = old(self).barrier matches Some(a) && arrivals_with(a@, me).len()
                    == old(self).communicator.size;
                if released {
                    final(self).barrier is None && final(self).statistics == old(self).statistics
                } else {
                    &&& final(self).barrier matches Some(a) && a@ == seq![me]
                    &&& final(self).statistics == MPIStatistics {
                        barrier_count: (old(self).statistics.barrier_count + 1) as u64,
                        ..old(self).statistics
                    }
                }
            }),
    {
        let me = self.communicator.rank;
        let total = self.communicator.size;
        let released = match &self.barrier {
            Some(arrivals) => {
                let joined = add_arrival(arrivals, me);
                joined.len() == total
            },
            None => false,
        };
        if released {
            self.barrier = None;
            return Ok(());
        }
        self.barrier = Some(vec![me]);
        self.statistics.barrier_count = self.statistics.barrier_count + 1;
        Ok(())
    }
}

/// The destination of the `j`-th send a root makes when it sends to every
/// other rank in order.
pub open spec fn other_rank(j: int, root: Rank) -> int {
    if j < root {
        j
    } else {
        j + 1
    }
}

/// Whether `q` is `q0` followed by one send of `data` with tag 0 to each of
/// the first `n` ranks other than `root`, in rank order.
pub open spec fn sends_to_others(q: Seq<MPIOperation>, q0: Seq<MPIOperation>, data: Seq<u8>, root: Rank, n: int) -> bool {
    &&& q.len() == q0.len() + n
    &&& q.take(q0.len() as int) == q0
    &&& forall|j: int|
        0 <= j < n ==> (#[trigger] q[q0.len() + j] matches MPIOperation::Send { data: d, dest, tag } && d@ == data
            && dest == other_rank(j, root) && tag == 0)
}

/// Whether the counters can take the sends and the count of a broadcast of
/// `len` bytes from this rank to the `size - 1` others.
pub open spec fn broadcast_room(s: MPIStatistics, size: nat, len: nat) -> bool {
    &&& s.total_messages_sent + size <= u64::MAX
    &&& s.point_to_point_count + size <= u64::MAX
    &&& s.total_bytes_sent + 2 * size * len <= u64::MAX
    &&& size * len <= usize::MAX
}

/// Products grow with their first factor.
proof fn lemma_mul_mono(a: int, b: int, c: int)
    requires
        0 <= a <= b,
        0 <= c,
    ensures
        a * c <= b * c,
{
    assert(a * c <= b * c) by (nonlinear_arith)
        requires
            0 <= a <= b,
            0 <= c,
    ;
}

impl EducationalMPI {
    /// Broadcasts `data` from rank `root`. A root outside the communicator
    /// is refused with `InvalidRank`. The root sends the data with tag 0 to
    /// every other rank in order and counts its bytes once more for the
    /// broadcast; another rank receives into `data` what arrived (zeros in
    /// this simulation). Either way one collective is counted.
    pub fn broadcast(&mut self, data: &mut Vec<u8>, root: Rank) -> (r: Result<(), MPIError>)
        requires
            old(self).statistics.collective_count < u64::MAX,
            root < old(self).communicator.size && old(self).communicator.rank == root ==> broadcast_room(
                old(self).statistics,
                old(self).communicator.size as nat,
                old(data)@.len(),
            ),
        ensures
            root >= old(self).communicator.size ==> r == Err::<(), MPIError>(
                MPIError::InvalidRank(root, old(self).communicator.size),
            ) && *final(self) == *old(self) && final(data)@ == old(data)@,
            root < old(self).communicator.size ==> {
                let n = old(self).communicator.size - 1;
                let len = old(data)@.len();
                &&& r is Ok
                &&& final(self).communicator == old(self).communicator
                &&& final(self).barrier == old(self).barrier
                &&& final(self).requests == old(self).requests
                &&& if old(self).communicator.rank == root {
                    &&& final(data)@ == old(data)@
                    &&& sends_to_others(final(self).message_queue@, old(self).message_queue@, old(data)@, root, n)
                    &&& final(self).statistics == MPIStatistics {
                        total_messages_sent: (old(self).statistics.total_messages_sent + n) as u64,
                        point_to_point_count: (old(self).statistics.point_to_point_count + n) as u64,
                        total_bytes_sent: (old(self).statistics.total_bytes_sent + 2 * n * len) as u64,
                        collective_count: (old(self).statistics.collective_count + 1) as u64,
                        ..old(self).statistics
                    }
                } else {
                    &&& final(data)@ == Seq::new(len, |i: int| 0u8)
                    &&& final(self).message_queue == old(self).message_queue
                    &&& final(self).statistics == MPIStatistics {
                        collective_count: (old(self).statistics.collective_count + 1) as u64,
                        ..old(self).statistics
                    }
                }
            },
    {
        let size = self.communicator.size;
        if root >= size {
            return Err(MPIError::InvalidRank(root, size));
        }
        let len = data.len();
        if self.communicator.rank == root {
            let ghost q0 = self.message_queue@;
            let ghost s0 = self.statistics;
            let ghost c0 = self.communicator;
            let ghost b0 = self.barrier;
            let ghost l0 = self.requests;
            assert(q0.take(q0.len() as int) =~= q0);
            let mut rank: usize = 0;
            let mut sent: usize = 0;
            while rank < size
                invariant
                    size == c0.size,
                    root < size,
                    c0.rank == root,
                    rank <= size,
                    sent == (if rank <= root {
                        rank as int
                    } else {
                        rank - 1
                    }),
                    len == data@.len(),
                    self.communicator == c0,
                    self.barrier == b0,
                    self.requests == l0,
                    broadcast_room(s0, size as nat, len as nat),
                    sends_to_others(self.message_queue@, q0, data@, root, sent as int),
                    self.statistics.total_messages_sent == s0.total_messages_sent + sent,
                    self.statistics.point_to_point_count == s0.point_to_point_count + sent,
                    self.statistics.total_bytes_sent == s0.total_bytes_sent + sent * len,
                    self.statistics.total_operations == s0.total_operations,
                    self.statistics.average_latency == s0.average_latency,
                    self.statistics.barrier_count == s0.barrier_count,
                    self.statistics.collective_count == s0.collective_count,
                decreases size - rank,
            {
                if rank != root {
                    let ghost before = self.message_queue@;
                    proof {
                        lemma_mul_mono(sent + 1, size as int, len as int);
                        assert((sent + 1) * len == sent * len + len) by (nonlinear_arith);
                        assert(2 * size * len == size * len + size * len) by (nonlinear_arith);
                    }
                    let _ = self.send(data.as_slice(), rank, 0);
                    proof {
                        let q = self.message_queue@;
                        assert(q.take(q0.len() as int) =~= q0) by {
                            assert(before.take(q0.len() as int) == q0);
                            assert(q.drop_last() == before);
                        }
                        assert forall|j: int| 0 <= j < sent + 1 implies (#[trigger] q[q0.len() + j] matches MPIOperation::Send {
                            data: d,
                            dest,
                            tag,
                        } && d@ == data@ && dest == other_rank(j, root) && tag == 0) by {
                            if j < sent {
                                assert(q[q0.len() + j] == before[q0.len() + j]);
                            }
                        }
                    }
                    sent = sent + 1;
                }
                rank = rank + 1;
            }
            proof {
                lemma_mul_mono((size - 1) as int, size as int, len as int);
                assert(2 * size * len == size * len + size * len) by (nonlinear_arith);
                assert(sent == size - 1);
            }
            let extra = (len * (size - 1)) as u64;
            self.statistics.total_bytes_sent = self.statistics.total_bytes_sent + extra;
            self.statistics.collective_count = self.statistics.collective_count + 1;
            proof {
                assert(len * (size - 1) == (size - 1) * len) by (nonlinear_arith);
                assert((size - 1) * len + (size - 1) * len == 2 * (size - 1) * len) by (nonlinear_arith);
            }
        } else {
            let mut received: Vec<u8> = vec![0u8; len];
            let _ = self.recv(&mut received, root, 0);
            *data = received;
            assert(data@ =~= Seq::new(len as nat, |i: int| 0u8));
            self.statistics.collective_count = self.statistics.collective_count + 1;
        }
        Ok(())
    }

    /// Scatters `sendbuf` from rank `root`: rank `r` gets its chunk (see
    /// `scatter_chunk` and `scatter_offset`). A root outside the
    /// communicator is refused with `InvalidRank`. The root sends each other
    /// rank its chunk with tag 0, in rank order, and puts its own chunk at
    /// the start of `recvbuf` when it fits; another rank puts what arrived
    /// for its chunk (zeros in this simulation) at the start of `recvbuf`
    /// when it fits. Either way one collective is counted.
    pub fn scatter(&mut self, sendbuf: &[u8], recvbuf: &mut Vec<u8>, root: Rank) -> (r: Result<(), MPIError>)
        requires
            old(self).statistics.collective_count < u64::MAX,
            root < old(self).communicator.size && old(self).communicator.rank == root ==> {
                &&& old(self).statistics.total_messages_sent + old(self).communicator.size <= u64::MAX
                &&& old(self).statistics.point_to_point_count + old(self).communicator.size <= u64::MAX
                &&& old(self).statistics.total_bytes_sent + sendbuf@.len() <= u64::MAX
            },
        ensures
            root >= old(self).communicator.size ==> r == Err::<(), MPIError>(
                MPIError::InvalidRank(root, old(self).communicator.size),
            ) && *final(self) == *old(self) && final(recvbuf)@ == old(recvbuf)@,
            root < old(self).communicator.size ==> {
                let size = old(self).communicator.size;
                let me = old(self).communicator.rank;
                let len = sendbuf@.len();
                &&& r is Ok
                &&& final(self).communicator == old(self).communicator
                &&& final(self).barrier == old(self).barrier
                &&& final(self).requests == old(self).requests
                &&& if me == root {
                    &&& final(recvbuf)@ == put_front(old(recvbuf)@, scatter_piece(sendbuf@, size as nat, root as int))
                    &&& scatter_sends(
                        final(self).message_queue@,
                        old(self).message_queue@,
                        sendbuf@,
                        size as nat,
                        root,
                        size - 1,
                    )
                    &&& final(self).statistics == MPIStatistics {
                        total_messages_sent: (old(self).statistics.total_messages_sent + size - 1) as u64,
                        point_to_point_count: (old(self).statistics.point_to_point_count + size - 1) as u64,
                        total_bytes_sent: (old(self).statistics.total_bytes_sent + len - scatter_chunk(
                            len,
                            size as nat,
                            root as nat,
                        )) as u64,
                        collective_count: (old(self).statistics.collective_count + 1) as u64,
                        ..old(self).statistics
                    }
                } else {
                    &&& final(recvbuf)@ == put_front(
                        old(recvbuf)@,
                        Seq::new(scatter_chunk(len, size as nat, me as nat), |i: int| 0u8),
                    )
                    &&& final(self).message_queue == old(self).message_queue
                    &&& final(self).statistics == MPIStatistics {
                        collective_count: (old(self).statistics.collective_count + 1) as u64,
                        ..old(self).statistics
                    }
                }
            },
    {
        let size = self.communicator.size;
        if root >= size {
            return Err(MPIError::InvalidRank(root, size));
        }
        let len = sendbuf.len();
        let chunk_size = len / size;
        let remaining = len % size;
        if self.communicator.rank == root {
            let ghost q0 = self.message_queue@;
            let ghost s0 = self.statistics;
            let ghost c0 = self.communicator;
            let ghost b0 = self.barrier;
            let ghost l0 = self.requests;
            let ghost r0 = recvbuf@;
            assert(q0.take(q0.len() as int) =~= q0);
            let mut offset: usize = 0;
            let mut rank: usize = 0;
            let mut sent: usize = 0;
            proof {
                lemma_scatter_partition(len as nat, size as nat, 0);
            }
            while rank < size
                invariant
                    size == c0.size,
                    root < size,
                    c0.rank == root,
                    rank <= size,
                    len == sendbuf@.len(),
                    chunk_size == len / size,
                    remaining == len % size,
                    offset == scatter_offset(len as nat, size as nat, rank as nat),
                    sent == (if rank <= root {
                        rank as int
                    } else {
                        rank - 1
                    }),
                    self.communicator == c0,
                    self.barrier == b0,
                    self.requests == l0,
                    s0.total_messages_sent + size <= u64::MAX,
                    s0.point_to_point_count + size <= u64::MAX,
                    s0.total_bytes_sent + len <= u64::MAX,
                    scatter_sends(self.message_queue@, q0, sendbuf@, size as nat, root, sent as int),
                    recvbuf@ == (if rank <= root {
                        r0
                    } else {
                        put_front(r0, scatter_piece(sendbuf@, size as nat, root as int))
                    }),
                    self.statistics.total_messages_sent == s0.total_messages_sent + sent,
                    self.statistics.point_to_point_count == s0.point_to_point_count + sent,
                    self.statistics.total_bytes_sent == s0.total_bytes_sent + offset - (if rank > root {
                        scatter_chunk(len as nat, size as nat, root as nat) as int
                    } else {
                        0
                    }),
                    self.statistics.total_operations == s0.total_operations,
                    self.statistics.average_latency == s0.average_latency,
                    self.statistics.barrier_count == s0.barrier_count,
                    self.statistics.collective_count == s0.collective_count,
                decreases size - rank,
            {
                proof {
                    lemma_scatter_partition(len as nat, size as nat, rank as nat);
                    lemma_offsets_bounded(len as nat, size as nat, (rank + 1) as nat);
                    lemma_offsets_bounded(len as nat, size as nat, rank as nat);
                }
                let this_chunk = if rank < remaining {
                    chunk_size + 1
                } else {
                    chunk_size
                };
                let chunk = copy_range(sendbuf, offset, offset + this_chunk);
                if rank != root {
                    let ghost before = self.message_queue@;
                    let _ = self.send(chunk.as_slice(), rank, 0);
                    proof {
                        let q = self.message_queue@;
                        assert(q.take(q0.len() as int) =~= q0) by {
                            assert(before.take(q0.len() as int) == q0);
                            assert(q.drop_last() == before);
                        }
                        assert forall|j: int| 0 <= j < sent + 1 implies (#[trigger] q[q0.len() + j] matches MPIOperation::Send {
                            data: d,
                            dest,
                            tag,
                        } && d@ == scatter_piece(sendbuf@, size as nat, other_rank(j, root)) && dest == other_rank(
                            j,
                            root,
                        ) && tag == 0) by {
                            if j < sent {
                                assert(q[q0.len() + j] == before[q0.len() + j]);
                            } else {
                                assert(other_rank(j, root) == rank);
                            }
                        }
                    }
                    sent = sent + 1;
                } else {
                    if recvbuf.len() >= chunk.len() {
                        overwrite_front(recvbuf, chunk.as_slice());
                    }
                }
                offset = offset + this_chunk;
                rank = rank + 1;
            }
            self.statistics.collective_count = self.statistics.collective_count + 1;
        } else {
            let me = self.communicator.rank;
            proof {
                if me < size {
                    lemma_scatter_partition(len as nat, size as nat, me as nat);
                    lemma_offsets_bounded(len as nat, size as nat, (me + 1) as nat);
                } else {
                    lemma_scatter_partition(len as nat, size as nat, 0);
                }
            }
            let mine = chunk_size + if me < remaining {
                1
            } else {
                0
            };
            let mut received: Vec<u8> = vec![0u8; mine];
            let _ = self.recv(&mut received, root, 0);
            if received.len() <= recvbuf.len() {
                overwrite_front(recvbuf, received.as_slice());
            }
            assert(received@ =~= Seq::new(scatter_chunk(len as nat, size as nat, me as nat), |i: int| 0u8));
            self.statistics.collective_count = self.statistics.collective_count + 1;
        }
        Ok(())
    }
}

impl EducationalMPI {
    /// Gathers at rank `root`. A root outside the communicator is refused
    /// with `InvalidRank`. The root copies its own `sendbuf` to the start of
    /// `recvbuf`, which must hold it, then for every other rank `r` puts what
    /// arrived from it (zeros in this simulation) into the block of
    /// `sendbuf.len() / size` bytes at `r * (sendbuf.len() / size)` when the
    /// block fits; another rank sends its `sendbuf` to the root with tag 0.
    /// Either way one collective is counted.
    pub fn gather(&mut self, sendbuf: &[u8], recvbuf: &mut Vec<u8>, root: Rank) -> (r: Result<(), MPIError>)
        requires
            old(self).statistics.collective_count < u64::MAX,
            root < old(self).communicator.size && old(self).communicator.rank == root ==> sendbuf@.len()
                <= old(recvbuf)@.len(),
            root < old(self).communicator.size && old(self).communicator.rank != root ==> send_room(
                old(self).statistics,
                1,
                sendbuf@.len(),
            ),
        ensures
            root >= old(self).communicator.size ==> r == Err::<(), MPIError>(
                MPIError::InvalidRank(root, old(self).communicator.size),
            ) && *final(self) == *old(self) && final(recvbuf)@ == old(recvbuf)@,
            root < old(self).communicator.size ==> {
                let size = old(self).communicator.size;
                &&& r is Ok
                &&& final(self).communicator == old(self).communicator
                &&& final(self).barrier == old(self).barrier
                &&& final(self).requests == old(self).requests
                &&& if old(self).communicator.rank == root {
                    &&& final(recvbuf)@ == gather_result(old(recvbuf)@, sendbuf@, size as nat, root)
                    &&& final(self).message_queue == old(self).message_queue
                    &&& final(self).statistics == MPIStatistics {
                        collective_count: (old(self).statistics.collective_count + 1) as u64,
                        ..old(self).statistics
                    }
                } else {
                    &&& final(recvbuf)@ == old(recvbuf)@
                    &&& final(self).message_queue@.drop_last() == old(self).message_queue@
                    &&& final(self).message_queue@.len() == old(self).message_queue@.len() + 1
                    &&& final(self).message_queue@.last() matches MPIOperation::Send { data: d, dest, tag }
                        && d@ == sendbuf@ && dest == root && tag == 0
                    &&& final(self).statistics == MPIStatistics {
                        total_messages_sent: (old(self).statistics.total_messages_sent + 1) as u64,
                        total_bytes_sent: (old(self).statistics.total_bytes_sent + sendbuf@.len()) as u64,
                        point_to_point_count: (old(self).statistics.point_to_point_count + 1) as u64,
                        collective_count: (old(self).statistics.collective_count + 1) as u64,
                        ..old(self).statistics
                    }
                }
            },
    {
        let size = self.communicator.size;
        if root >= size {
            return Err(MPIError::InvalidRank(root, size));
        }
        if self.communicator.rank == root {
            let len = sendbuf.len();
            let chunk_size = len / size;
            let ghost start = sendbuf@ + recvbuf@.skip(len as int);
            let ghost total = recvbuf@.len();
            overwrite_front(recvbuf, sendbuf);
            proof {
                lemma_fundamental_div_mod(len as int, size as int);
                assert(size * chunk_size == chunk_size * size) by (nonlinear_arith);
            }
            let mut rank: usize = 0;
            while rank < size
                invariant
                    rank <= size,
                    root < size,
                    len == sendbuf@.len(),
                    len <= total,
                    chunk_size == len / size,
                    chunk_size * size <= len,
                    recvbuf@.len() == total,
                    start.len() == total,
                    forall|i: int| 0 <= i < len ==> #[trigger] start[i] == sendbuf@[i],
                    forall|i: int|
                        0 <= i < total ==> #[trigger] recvbuf@[i] == (if gathered_block(
                            i,
                            chunk_size as nat,
                            rank as nat,
                            root,
                            total,
                        ) {
                            0u8
                        } else {
                            start[i]
                        }),
                decreases size - rank,
            {
                if rank != root {
                    proof {
                        lemma_mul_mono(rank as int, size as int, chunk_size as int);
                        assert(chunk_size * size == size * chunk_size) by (nonlinear_arith);
                        assert(rank * chunk_size == chunk_size * rank) by (nonlinear_arith);
                    }
                    let offset = rank * chunk_size;
                    if offset <= recvbuf.len() && chunk_size <= recvbuf.len() - offset {
                        zero_range(recvbuf, offset, offset + chunk_size);
                        proof {
                            assert forall|i: int| 0 <= i < total implies #[trigger] recvbuf@[i] == (if gathered_block(
                                i,
                                chunk_size as nat,
                                (rank + 1) as nat,
                                root,
                                total,
                            ) {
                                0u8
                            } else {
                                start[i]
                            }) by {
                                if chunk_size > 0 {
                                    lemma_block_of(i, chunk_size as int, rank as int);
                                }
                            }
                        }
                    } else {
                        proof {
                            assert forall|i: int| 0 <= i < total implies #[trigger] recvbuf@[i] == (if gathered_block(
                                i,
                                chunk_size as nat,
                                (rank + 1) as nat,
                                root,
                                total,
                            ) {
                                0u8
                            } else {
                                start[i]
                            }) by {
                                if chunk_size > 0 {
                                    lemma_block_of(i, chunk_size as int, rank as int);
                                }
                            }
                        }
                    }
                } else {
                    proof {
                        assert forall|i: int| 0 <= i < total implies #[trigger] recvbuf@[i] == (if gathered_block(
                            i,
                            chunk_size as nat,
                            (rank + 1) as nat,
                            root,
                            total,
                        ) {
                            0u8
                        } else {
                            start[i]
                        }) by {
                            if chunk_size > 0 {
                                lemma_block_of(i, chunk_size as int, rank as int);
                            }
                        }
                    }
                }
                rank = rank + 1;
            }
            assert(recvbuf@ =~= gather_result(old(recvbuf)@, sendbuf@, size as nat, root));
            self.statistics.collective_count = self.statistics.collective_count + 1;
        } else {
            let _ = self.send(sendbuf, root, 0);
            self.statistics.collective_count = self.statistics.collective_count + 1;
        }
        Ok(())
    }
}

impl EducationalMPI {
    /// Reduces with `op` and hands the result to every rank. Rank 0 gathers
    /// its `sendbuf` followed by what arrived from each other rank (zeros of
    /// the same length in this simulation), reduces the whole with
    /// `perform_reduction` (an operation it does not implement fails with
    /// `NotSupported`), copies the first `recvbuf.len()` bytes of the result
    /// into `recvbuf` and sends the result with tag 0 to ranks `1..size` in
    /// order. Another rank sends its `sendbuf` to rank 0 with tag 0 (refused
    /// with `InvalidRank` when the communicator is empty) and receives into
    /// `recvbuf` what arrived (zeros in this simulation). On success one
    /// collective is counted.
    pub fn all_reduce(&mut self, sendbuf: &[u8], recvbuf: &mut Vec<u8>, op: ReductionOp) -> (r: Result<(), MPIError>)
        requires
            old(self).statistics.collective_count < u64::MAX,
            old(self).communicator.rank == 0 ==> {
                let input = all_reduce_input(sendbuf@, old(self).communicator.size as nat);
                &&& sendbuf@.len() * old(self).communicator.size <= usize::MAX
                &&& reduction_fits(op, chunk_values(input))
                &&& reduction_value(op, chunk_values(input)) is Some ==> old(recvbuf)@.len() <= 4
                &&& old(self).statistics.total_messages_sent + old(self).communicator.size <= u64::MAX
                &&& old(self).statistics.point_to_point_count + old(self).communicator.size <= u64::MAX
                &&& old(self).statistics.total_bytes_sent + 4 * old(self).communicator.size <= u64::MAX
            },
            old(self).communicator.rank != 0 ==> send_room(old(self).statistics, 1, sendbuf@.len()),
        ensures
            old(self).communicator.rank == 0 ==> {
                let size = old(self).communicator.size;
                let input = all_reduce_input(sendbuf@, size as nat);
                match reduction_value(op, chunk_values(input)) {
                    None => r matches Err(MPIError::NotSupported(m)) && m@ == "Reduction operation "@
                        + reduction_op_name(op) + " not implemented"@ && *final(self) == *old(self)
                        && final(recvbuf)@ == old(recvbuf)@,
                    Some(v) => {
                        let n = if size > 0 {
                            size - 1
                        } else {
                            0
                        };
                        &&& r is Ok
                        &&& final(recvbuf)@ == i32_le_bytes(v).take(old(recvbuf)@.len() as int)
                        &&& final(self).communicator == old(self).communicator
                        &&& final(self).barrier == old(self).barrier
                        &&& final(self).requests == old(self).requests
                &&& final(self).requests == old(self).requests
                        &&& sends_to_others(final(self).message_queue@, old(self).message_queue@, i32_le_bytes(v), 0, n)
                        &&& final(self).statistics == MPIStatistics {
                            total_messages_sent: (old(self).statistics.total_messages_sent + n) as u64,
                            point_to_point_count: (old(self).statistics.point_to_point_count + n) as u64,
                            total_bytes_sent: (old(self).statistics.total_bytes_sent + 4 * n) as u64,
                            collective_count: (old(self).statistics.collective_count + 1) as u64,
                            ..old(self).statistics
                        }
                    },
                }
            },
            old(self).communicator.rank != 0 && old(self).communicator.size == 0 ==> r == Err::<(), MPIError>(
                MPIError::InvalidRank(0, 0),
            ) && *final(self) == *old(self) && final(recvbuf)@ == old(recvbuf)@,
            old(self).communicator.rank != 0 && old(self).communicator.size > 0 ==> {
                &&& r is Ok
                &&& final(recvbuf)@ == Seq::new(old(recvbuf)@.len(), |i: int| 0u8)
                &&& final(self).communicator == old(self).communicator
                &&& final(self).barrier == old(self).barrier
                &&& final(self).requests == old(self).requests
                &&& final(self).message_queue@.drop_last() == old(self).message_queue@
                &&& final(self).message_queue@.len() == old(self).message_queue@.len() + 1
                &&& final(self).message_queue@.last() matches MPIOperation::Send { data: d, dest, tag }
                    && d@ == sendbuf@ && dest == 0 && tag == 0
                &&& final(self).statistics == MPIStatistics {
                    total_messages_sent: (old(self).statistics.total_messages_sent + 1) as u64,
                    total_bytes_sent: (old(self).statistics.total_bytes_sent + sendbuf@.len()) as u64,
                    point_to_point_count: (old(self).statistics.point_to_point_count + 1) as u64,
                    collective_count: (old(self).statistics.collective_count + 1) as u64,
                    ..old(self).statistics
                }
            },
    {
        let size = self.communicator.size;
        let len = sendbuf.len();
        if self.communicator.rank == 0 {
            let mut gathered: Vec<u8> = Vec::new();
            gathered.extend_from_slice(sendbuf);
            assert(gathered@ =~= sendbuf@ + Seq::new(0nat, |i: int| 0u8));
            let mut rank: usize = 1;
            while rank < size
                invariant
                    1 <= rank,
                    rank <= (if size > 0 { size } else { 1 }),
                    size == self.communicator.size,
                    len == sendbuf@.len(),
                    len * size <= usize::MAX,
                    gathered@ == sendbuf@ + Seq::new(((rank - 1) * len) as nat, |i: int| 0u8),
                decreases size - rank,
            {
                let mut chunk: Vec<u8> = vec![0u8; len];
                let status = self.recv(&mut chunk, rank, 0);
                proof {
                    lemma_mul_mono((rank + 1) as int, size as int, len as int);
                    assert(rank * len == (rank - 1) * len + len) by (nonlinear_arith);
                }
                let ghost g0 = gathered@;
                assert(chunk@ =~= Seq::new(len as nat, |i: int| 0u8));
                if let Ok(st) = status {
                    if st.count == len {
                        gathered.append(&mut chunk);
                    }
                }
                assert(gathered@ == g0 + Seq::new(len as nat, |i: int| 0u8));
                assert(gathered@ =~= sendbuf@ + Seq::new((rank * len) as nat, |i: int| 0u8));
                rank = rank + 1;
            }
            proof {
                if size > 0 {
                    assert(rank == size);
                } else {
                    assert(rank == 1);
                }
                assert(gathered@ =~= all_reduce_input(sendbuf@, size as nat));
            }
            let result = match perform_reduction(gathered.as_slice(), &op) {
                Ok(b) => b,
                Err(e) => {
                    return Err(e);
                },
            };
            let keep = recvbuf.len();
            let front = copy_range(result.as_slice(), 0, keep);
            overwrite_front(recvbuf, front.as_slice());
            assert(recvbuf@ =~= result@.take(keep as int));
            let ghost q0 = self.message_queue@;
            let ghost s0 = self.statistics;
            let ghost c0 = self.communicator;
            let ghost b0 = self.barrier;
            let ghost l0 = self.requests;
            assert(q0.take(q0.len() as int) =~= q0);
            let mut rank: usize = 1;
            while rank < size
                invariant
                    1 <= rank,
                    rank <= (if size > 0 { size } else { 1 }),
                    c0.rank == 0,
                    size == c0.size,
                    result@.len() == 4,
                    self.communicator == c0,
                    self.barrier == b0,
                    self.requests == l0,
                    s0.total_messages_sent + size <= u64::MAX,
                    s0.point_to_point_count + size <= u64::MAX,
                    s0.total_bytes_sent + 4 * size <= u64::MAX,
                    sends_to_others(self.message_queue@, q0, result@, 0, rank - 1),
                    self.statistics.total_messages_sent == s0.total_messages_sent + rank - 1,
                    self.statistics.point_to_point_count == s0.point_to_point_count + rank - 1,
                    self.statistics.total_bytes_sent == s0.total_bytes_sent + 4 * (rank - 1),
                    self.statistics.total_operations == s0.total_operations,
                    self.statistics.average_latency == s0.average_latency,
                    self.statistics.barrier_count == s0.barrier_count,
                    self.statistics.collective_count == s0.collective_count,
                decreases size - rank,
            {
                let ghost before = self.message_queue@;
                let _ = self.send(result.as_slice(), rank, 0);
                proof {
                    let q = self.message_queue@;
                    assert(q.take(q0.len() as int) =~= q0) by {
                        assert(before.take(q0.len() as int) == q0);
                        assert(q.drop_last() == before);
                    }
                    assert forall|j: int| 0 <= j < rank implies (#[trigger] q[q0.len() + j] matches MPIOperation::Send {
                        data: d,
                        dest,
                        tag,
                    } && d@ == result@ && dest == other_rank(j, 0) && tag == 0) by {
                        if j < rank - 1 {
                            assert(q[q0.len() + j] == before[q0.len() + j]);
                        }
                    }
                }
                rank = rank + 1;
            }
            self.statistics.collective_count = self.statistics.collective_count + 1;
        } else {
            let sent = self.send(sendbuf, 0, 0);
            if sent.is_err() {
                return sent;
            }
            let mut result: Vec<u8> = vec![0u8; recvbuf.len()];
            let status = self.recv(&mut result, 0, 0);
            if let Ok(st) = status {
                if st.count <= recvbuf.len() {
                    overwrite_front(recvbuf, result.as_slice());
                }
            }
            assert(recvbuf@ =~= Seq::new(old(recvbuf)@.len(), |i: int| 0u8));
            self.statistics.collective_count = self.statistics.collective_count + 1;
        }
        Ok(())
    }
}

/// What rank 0 of an all-reduce over `size` ranks reduces: its own send
/// buffer followed by one buffer of zeros of the same length for each other
/// rank.
pub open spec fn all_reduce_input(sendbuf: Seq<u8>, size: nat) -> Seq<u8> {
    let others: nat = if size > 0 {
        (size - 1) as nat
    } else {
        0
    };
    sendbuf + Seq::new(others * sendbuf.len(), |i: int| 0u8)
}

// ---------------------------------------------------------------------------
// Non-blocking requests
// ---------------------------------------------------------------------------

/// The handle of a non-blocking operation. `start_time` is in milliseconds
/// since the Unix epoch.
pub struct Request {
    pub id: u128,
    pub source_rank: Rank,
    pub target_rank: Option<Rank>,
    pub tag: Tag,
    pub operation_type: MPIOperationType,
    pub buffer: Option<Vec<u8>>,
    pub start_time: u64,
}

/// The requests of an environment: those still running and those done, in
/// the order they completed.
pub struct RequestLog {
    pub active: Vec<Request>,
    pub completed: Vec<Request>,
}

/// The bytes a request holds, if any.
pub open spec fn request_bytes(b: Option<Vec<u8>>) -> Option<Seq<u8>> {
    match b {
        Some(v) => Some(v@),
        None => None,
    }
}

/// Whether two requests hold the same values.
pub open spec fn same_request(a: Request, b: Request) -> bool {
    &&& a.id == b.id
    &&& a.source_rank == b.source_rank
    &&& a.target_rank == b.target_rank
    &&& a.tag == b.tag
    &&& a.operation_type == b.operation_type
    &&& request_bytes(a.buffer) == request_bytes(b.buffer)
    &&& a.start_time == b.start_time
}

/// The status a request reports: its source, its tag and the length of its
/// buffer (0 without one).
pub open spec fn request_status(r: Request) -> Status {
    Status {
        source: r.source_rank,
        tag: r.tag,
        count: match r.buffer {
            Some(b) => b@.len() as usize,
            None => 0,
        },
        error: None,
    }
}

/// Whether a request with this id has completed.
pub open spec fn has_completed(log: RequestLog, id: u128) -> bool {
    exists|i: int| 0 <= i < log.completed@.len() && #[trigger] log.completed@[i].id == id
}

/// The handle that `send_init` returns has completed: `wait` on it answers
/// with its status and `test` reports it done.
pub proof fn lemma_started_send_has_completed(log: RequestLog, req: Request)
    requires
        log.completed@.len() > 0,
        same_request(log.completed@.last(), req),
    ensures
        has_completed(log, req.id),
{
    assert(log.completed@[log.completed@.len() - 1].id == req.id);
}

/// How long `wait` waits for a request, in milliseconds.
pub const WAIT_TIMEOUT_MS: u64 = 30000;

/// A copy of a request.
fn copy_request(r: &Request) -> (c: Request)
    ensures
        same_request(c, *r),
{
    let buffer = match &r.buffer {
        Some(b) => Some(copy_range(b.as_slice(), 0, b.len())),
        None => None,
    };
    proof {
        if r.buffer is Some {
            let b = r.buffer->0;
            assert(b@.subrange(0, b@.len() as int) =~= b@);
        }
    }
    Request {
        id: r.id,
        source_rank: r.source_rank,
        target_rank: r.target_rank,
        tag: r.tag,
        operation_type: r.operation_type,
        buffer,
        start_time: r.start_time,
    }
}

/// The status of a request, as `request_status` gives it.
fn status_of(r: &Request) -> (st: Status)
    ensures
        st == request_status(*r),
{
    let count = match &r.buffer {
        Some(b) => b.len(),
        None => 0,
    };
    Status { source: r.source_rank, tag: r.tag, count, error: None }
}

/// Whether a request with id `id` is in `done`.
fn completed_contains(done: &Vec<Request>, id: u128) -> (b: bool)
    ensures
        b == exists|i: int| 0 <= i < done@.len() && #[trigger] done@[i].id == id,
{
    let mut k: usize = 0;
    while k < done.len()
        invariant
            k <= done@.len(),
            forall|i: int| 0 <= i < k ==> #[trigger] done@[i].id != id,
        decreases done@.len() - k,
    {
        if done[k].id == id {
            return true;
        }
        k = k + 1;
    }
    false
}

impl EducationalMPI {
    /// Starts a non-blocking send of `data` to `dest` and returns its
    /// handle, which carries a copy of the data. The send runs at once in
    /// this simulation, as `send` does (a refused destination is not
    /// reported here), and the request then moves to the completed ones.
    pub fn send_init(&mut self, data: &[u8], dest: Rank, tag: Tag) -> (r: Result<Request, MPIError>)
        requires
            send_room(old(self).statistics, 1, data@.len()),
        ensures
            r matches Ok(req) && req.source_rank == old(self).communicator.rank && req.target_rank == Some(dest)
                && req.tag == tag && req.operation_type == MPIOperationType::Send && request_bytes(req.buffer)
                == Some(data@) && {
                &&& final(self).requests.active@ == old(self).requests.active@
                &&& final(self).requests.completed@.len() == old(self).requests.completed@.len() + 1
                &&& final(self).requests.completed@.drop_last() == old(self).requests.completed@
                &&& same_request(final(self).requests.completed@.last(), req)
            },
            final(self).communicator == old(self).communicator,
            final(self).barrier == old(self).barrier,
            dest >= old(self).communicator.size ==> final(self).message_queue == old(self).message_queue
                && final(self).statistics == old(self).statistics,
            dest < old(self).communicator.size ==> {
                &&& final(self).message_queue@.len() == old(self).message_queue@.len() + 1
                &&& final(self).message_queue@.drop_last() == old(self).message_queue@
                &&& final(self).message_queue@.last() matches MPIOperation::Send { data: d, dest: dd, tag: t }
                    && d@ == data@ && dd == dest && t == tag
                &&& final(self).statistics == MPIStatistics {
                    total_messages_sent: (old(self).statistics.total_messages_sent + 1) as u64,
                    total_bytes_sent: (old(self).statistics.total_bytes_sent + data@.len()) as u64,
                    point_to_point_count: (old(self).statistics.point_to_point_count + 1) as u64,
                    ..old(self).statistics
                }
            },
    {
        let request = Request {
            id: fresh_id(),
            source_rank: self.communicator.rank,
            target_rank: Some(dest),
            tag,
            operation_type: MPIOperationType::Send,
            buffer: Some(copy_range(data, 0, data.len())),
            start_time: now_millis(),
        };
        assert(data@.subrange(0, data@.len() as int) =~= data@);
        let _ = self.send(data, dest, tag);
        let done = copy_request(&request);
        let ghost c0 = self.requests.completed@;
        self.requests.completed.push(done);
        assert(self.requests.completed@.drop_last() =~= c0);
        Ok(request)
    }

    /// Starts a non-blocking receive from `source` and returns its handle,
    /// which carries a copy of `data`; the request stays active, since
    /// nothing in this simulation delivers it.
    pub fn recv_init(&mut self, data: &[u8], source: Rank, tag: Tag) -> (r: Result<Request, MPIError>)
        ensures
            r matches Ok(req) && req.source_rank == old(self).communicator.rank && req.target_rank == Some(
                source,
            ) && req.tag == tag && req.operation_type == MPIOperationType::Receive && request_bytes(req.buffer)
                == Some(data@) && {
                &&& final(self).requests.completed@ == old(self).requests.completed@
                &&& final(self).requests.active@.len() == old(self).requests.active@.len() + 1
                &&& final(self).requests.active@.drop_last() == old(self).requests.active@
                &&& same_request(final(self).requests.active@.last(), req)
            },
            final(self).communicator == old(self).communicator,
            final(self).barrier == old(self).barrier,
            final(self).message_queue == old(self).message_queue,
            final(self).statistics == old(self).statistics,
    {
        let request = Request {
            id: fresh_id(),
            source_rank: self.communicator.rank,
            target_rank: Some(source),
            tag,
            operation_type: MPIOperationType::Receive,
            buffer: Some(copy_range(data, 0, data.len())),
            start_time: now_millis(),
        };
        assert(data@.subrange(0, data@.len() as int) =~= data@);
        let active = copy_request(&request);
        let ghost a0 = self.requests.active@;
        self.requests.active.push(active);
        assert(self.requests.active@.drop_last() =~= a0);
        Ok(request)
    }

    /// Waits for a request: its status if it has completed, else `Timeout`
    /// after `WAIT_TIMEOUT_MS` (nothing else can complete it meanwhile).
    pub fn wait(&self, request: &Request) -> (r: Result<Status, MPIError>)
        ensures
            has_completed(self.requests, request.id) ==> r == Ok::<Status, MPIError>(request_status(*request)),
            !has_completed(self.requests, request.id) ==> r == Err::<Status, MPIError>(
                MPIError::Timeout(WAIT_TIMEOUT_MS),
            ),
    {
        if completed_contains(&self.requests.completed, request.id) {
            Ok(status_of(request))
        } else {
            Err(MPIError::Timeout(WAIT_TIMEOUT_MS))
        }
    }

    /// Whether a request has completed, with its status either way.
    pub fn test(&self, request: &Request) -> (r: Result<(bool, Status), MPIError>)
        ensures
            r == Ok::<(bool, Status), MPIError>(
                (has_completed(self.requests, request.id), request_status(*request)),
            ),
    {
        let done = completed_contains(&self.requests.completed, request.id);
        Ok((done, status_of(request)))
    }

    /// Ends the environment: every active request is waited for, whatever
    /// the wait answers, and dropped.
    pub fn finalize(&mut self) -> (r: Result<(), MPIError>)
        ensures
            r is Ok,
            final(self).requests.active@.len() == 0,
            final(self).requests.completed@ == old(self).requests.completed@,
            final(self).communicator == old(self).communicator,
            final(self).barrier == old(self).barrier,
            final(self).message_queue == old(self).message_queue,
            final(self).statistics == old(self).statistics,
    {
        while self.requests.active.len() > 0
            invariant
                self.requests.completed@ == old(self).requests.completed@,
                self.communicator == old(self).communicator,
                self.barrier == old(self).barrier,
                self.message_queue == old(self).message_queue,
                self.statistics == old(self).statistics,
            decreases self.requests.active@.len(),
        {
            let request = self.requests.active.remove(0);
            let _ = self.wait(&request);
        }
        Ok(())
    }
}

/// Whether byte `i` of a gather's receive buffer of `total` bytes lies in the
/// block of one of the first `ranks` ranks other than `root`, blocks being
/// `c` bytes long and placed in rank order, and that block fits.
pub open spec fn gathered_block(i: int, c: nat, ranks: nat, root: Rank, total: nat) -> bool {
    &&& c > 0
    &&& i / (c as int) < ranks
    &&& i / (c as int) != root
    &&& (i / (c as int)) * c + c <= total
}

/// The receive buffer of the root after a gather over `size` ranks: the
/// root's own `sendbuf` at the start, the blocks of the other ranks zeroed
/// where they fit, and the rest of `buf` unchanged.
pub open spec fn gather_result(buf: Seq<u8>, sendbuf: Seq<u8>, size: nat, root: Rank) -> Seq<u8> {
    let c = sendbuf.len() / size;
    Seq::new(
        buf.len(),
        |i: int|
            if gathered_block(i, c, size, root, buf.len()) {
                0u8
            } else if i < sendbuf.len() {
                sendbuf[i]
            } else {
                buf[i]
            },
    )
}

/// Byte `i` lies in block `r` of `c` bytes exactly when `i / c == r`.
proof fn lemma_block_of(i: int, c: int, r: int)
    requires
        c > 0,
        0 <= i,
        0 <= r,
    ensures
        (i / c == r) <==> (r * c <= i && i < r * c + c),
{
    lemma_fundamental_div_mod(i, c);
    let q = i / c;
    let m = i % c;
    assert(0 <= m < c);
    assert(c * q == q * c) by (nonlinear_arith);
    if q < r {
        assert(q * c + c <= r * c) by (nonlinear_arith)
            requires
                q < r,
                c > 0,
        ;
    }
    if q > r {
        assert(r * c + c <= q * c) by (nonlinear_arith)
            requires
                q > r,
                c > 0,
        ;
    }
}

/// Zeroes the bytes `from..to` of `buf`.
fn zero_range(buf: &mut Vec<u8>, from: usize, to: usize)
    requires
        from <= to <= old(buf)@.len(),
    ensures
        final(buf)@.len() == old(buf)@.len(),
        forall|i: int|
            0 <= i < old(buf)@.len() ==> #[trigger] final(buf)@[i] == (if from <= i < to {
                0u8
            } else {
                old(buf)@[i]
            }),
{
    let mut k: usize = from;
    while k < to
        invariant
            from <= k <= to,
            to <= buf@.len(),
            buf@.len() == old(buf)@.len(),
            forall|i: int|
                0 <= i < buf@.len() ==> #[trigger] buf@[i] == (if from <= i < k {
                    0u8
                } else {
                    old(buf)@[i]
                }),
        decreases to - k,
    {
        buf.set(k, 0u8);
        k = k + 1;
    }
}

/// The bytes `from..to` of `data`.
fn copy_range(data: &[u8], from: usize, to: usize) -> (v: Vec<u8>)
    requires
        from <= to <= data@.len(),
    ensures
        v@ == data@.subrange(from as int, to as int),
{
    let mut v: Vec<u8> = Vec::new();
    let mut i: usize = from;
    while i < to
        invariant
            from <= i <= to,
            to <= data@.len(),
            v@ == data@.subrange(from as int, i as int),
        decreases to - i,
    {
        v.push(data[i]);
        i = i + 1;
        assert(v@ =~= data@.subrange(from as int, i as int));
    }
    v
}

/// Overwrites the start of `buf` with `data`, which fits.
fn overwrite_front(buf: &mut Vec<u8>, data: &[u8])
    requires
        data@.len() <= old(buf)@.len(),
    ensures
        final(buf)@ == data@ + old(buf)@.skip(data@.len() as int),
{
    let mut i: usize = 0;
    while i < data.len()
        invariant
            i <= data@.len(),
            data@.len() <= buf@.len(),
            buf@.len() == old(buf)@.len(),
            buf@ == data@.take(i as int) + old(buf)@.skip(i as int),
        decreases data@.len() - i,
    {
        buf.set(i, data[i]);
        i = i + 1;
        assert(buf@ =~= data@.take(i as int) + old(buf)@.skip(i as int));
    }
    assert(data@.take(data@.len() as int) =~= data@);
}

/// The chunk of `sendbuf` that rank `r` receives in a scatter over `size`
/// ranks.
pub open spec fn scatter_piece(sendbuf: Seq<u8>, size: nat, r: int) -> Seq<u8> {
    let o = scatter_offset(sendbuf.len(), size, r as nat);
    sendbuf.subrange(o as int, o + scatter_chunk(sendbuf.len(), size, r as nat) as int)
}

/// Whether `q` is `q0` followed by one send with tag 0 to each of the first
/// `n` ranks other than `root`, in rank order, of that rank's chunk of
/// `sendbuf`.
pub open spec fn scatter_sends(
    q: Seq<MPIOperation>,
    q0: Seq<MPIOperation>,
    sendbuf: Seq<u8>,
    size: nat,
    root: Rank,
    n: int,
) -> bool {
    &&& q.len() == q0.len() + n
    &&& q.take(q0.len() as int) == q0
    &&& forall|j: int|
        0 <= j < n ==> (#[trigger] q[q0.len() + j] matches MPIOperation::Send { data: d, dest, tag } && d@
            == scatter_piece(sendbuf, size, other_rank(j, root)) && dest == other_rank(j, root) && tag == 0)
}

/// `buf` with its start overwritten by `data` when it fits, else `buf`.
pub open spec fn put_front(buf: Seq<u8>, data: Seq<u8>) -> Seq<u8> {
    if data.len() <= buf.len() {
        data + buf.skip(data.len() as int)
    } else {
        buf
    }
}

impl MPIStatistics {
    /// All counters at zero.
    pub open spec fn new_spec() -> Self {
        MPIStatistics {
            total_messages_sent: 0,
            total_bytes_sent: 0,
            total_operations: 0,
            average_latency: 0,
            barrier_count: 0,
            collective_count: 0,
            point_to_point_count: 0,
        }
    }
}

/// The arrivals after `rank` arrives: unchanged if it had already arrived.
pub open spec fn arrivals_with(a: Seq<Rank>, rank: Rank) -> Seq<Rank> {
    if a.contains(rank) {
        a
    } else {
        a.push(rank)
    }
}

fn add_arrival(arrivals: &Vec<Rank>, rank: Rank) -> (out: Vec<Rank>)
    ensures
        out@ == arrivals_with(arrivals@, rank),
{
    let mut out: Vec<Rank> = Vec::new();
    let mut found = false;
    let mut i: usize = 0;
    while i < arrivals.len()
        invariant
            i <= arrivals@.len(),
            out@ == arrivals@.subrange(0, i as int),
            found == arrivals@.subrange(0, i as int).contains(rank),
        decreases arrivals@.len() - i,
    {
        let x = arrivals[i];
        out.push(x);
        proof {
            assert(arrivals@.subrange(0, i + 1) =~= arrivals@.subrange(0, i as int).push(x));
        }
        if x == rank {
            found = true;
        }
        proof {
            let pre = arrivals@.subrange(0, i as int);
            let post = arrivals@.subrange(0, i + 1);
            if x == rank {
                assert(post[i as int] == rank);
            } else {
                assert forall|j: int| 0 <= j < post.len() && post[j] == rank implies pre.contains(rank) by {
                    assert(j < i);
                    assert(pre[j] == rank);
                }
                assert(pre.contains(rank) ==> post.contains(rank)) by {
                    if pre.contains(rank) {
                        let j = choose|j: int| 0 <= j < pre.len() && pre[j] == rank;
                        assert(post[j] == rank);
                    }
                }
            }
        }
        i = i + 1;
        assert(out@ =~= arrivals@.subrange(0, i as int));
    }
    assert(arrivals@.subrange(0, arrivals@.len() as int) =~= arrivals@);
    if !found {
        out.push(rank);
    }
    out
}

/// An environment for process `rank` of `size`, each rank placed on a fresh node.
pub fn create_mpi_environment(rank: Rank, size: Size) -> (r: Result<EducationalMPI, MPIError>)
    ensures
        r matches Ok(m) && m.communicator.rank == rank && m.communicator.size == size
            && m.communicator.processes@.len() == size && m.communicator.name@ == "EDU_WORLD"@
            && m.message_queue@.len() == 0 && m.statistics == MPIStatistics::new_spec()
            && m.barrier is None && m.requests.active@.len() == 0 && m.requests.completed@.len() == 0,
{
    let mut mpi = EducationalMPI::init();
    mpi.communicator.rank = rank;
    mpi.communicator.size = size;
    let mut processes: Vec<u128> = Vec::new();
    let mut r: usize = 0;
    while r < size
        invariant
            r <= size,
            processes@.len() == r,
        decreases size - r,
    {
        processes.push(fresh_id());
        r = r + 1;
    }
    mpi.communicator.processes = processes;
    Ok(mpi)
}

} // verus!
