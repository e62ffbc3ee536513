//! Building one permutation table from a list of configured transpositions.

use crate::geometry::{
    compose_seq_map, lemma_mirror_in_range, lemma_mirror_injective, lemma_reverse_in_range,
    lemma_reverse_injective, lemma_zigzag_in_range, lemma_zigzag_injective, Axis, Dimensions,
    Mirror, Reverse, Transposition, Zigzag,
};
use crate::GenericError;
use vstd::prelude::*;

verus! {

/// One transposition as named in the configuration.
#[derive(Copy, Clone, Debug, PartialEq, Eq, Structural)]
pub enum TransposeKind {
    Reverse,
    ZigzagX,
    ZigzagY,
    MirrorX,
    MirrorY,
}

/// One configured transposition bound to concrete dimensions.
pub enum TransposeOp {
    Rev(Reverse),
    Mir(Mirror),
    Zig(Zigzag),
}

impl Transposition for TransposeOp {
    open spec fn t_wf(&self) -> bool {
        match self {
            TransposeOp::Rev(t) => t.t_wf(),
            TransposeOp::Mir(t) => t.t_wf(),
            TransposeOp::Zig(t) => t.t_wf(),
        }
    }

    open spec fn domain(&self) -> int {
        match self {
            TransposeOp::Rev(t) => t.domain(),
            TransposeOp::Mir(t) => t.domain(),
            TransposeOp::Zig(t) => t.domain(),
        }
    }

    open spec fn map_index(&self, i: int) -> int {
        match self {
            TransposeOp::Rev(t) => t.map_index(i),
            TransposeOp::Mir(t) => t.map_index(i),
            TransposeOp::Zig(t) => t.map_index(i),
        }
    }

    fn transpose(&self, index: usize) -> (r: usize) {
        match self {
            TransposeOp::Rev(t) => t.transpose(index),
            TransposeOp::Mir(t) => t.transpose(index),
            TransposeOp::Zig(t) => t.transpose(index),
        }
    }
}

/// A `TransposeOp` maps its domain into its domain.
pub proof fn lemma_op_in_range(op: &TransposeOp, i: int)
    requires
        op.t_wf(),
        0 <= i < op.domain(),
    ensures
        0 <= op.map_index(i) < op.domain(),
{
    match op {
        TransposeOp::Rev(t) => lemma_reverse_in_range(t, i),
        TransposeOp::Mir(t) => lemma_mirror_in_range(t, i),
        TransposeOp::Zig(t) => lemma_zigzag_in_range(t, i),
    }
}

/// A `TransposeOp` never sends two indices of its domain to the same place.
pub proof fn lemma_op_injective(op: &TransposeOp, i: int, j: int)
    requires
        op.t_wf(),
        0 <= i < op.domain(),
        0 <= j < op.domain(),
        op.map_index(i) == op.map_index(j),
    ensures
        i == j,
{
    match op {
        TransposeOp::Rev(t) => lemma_reverse_injective(t, i, j),
        TransposeOp::Mir(t) => lemma_mirror_injective(t, i, j),
        TransposeOp::Zig(t) => lemma_zigzag_injective(t, i, j),
    }
}

/// Dimensions that describe a real display: positive extents whose pixel
/// count fits the machine.
pub open spec fn dims_wf(dims: Dimensions) -> bool {
    &&& dims.w >= 1
    &&& dims.h >= 1
    &&& dims.spec_size() <= usize::MAX
}

/// Whether a named transposition applies to the given dimensions. The
/// 2D-only remaps reject a single-row strip.
pub open spec fn kind_ok(dims: Dimensions, kind: TransposeKind) -> bool {
    match kind {
        TransposeKind::Reverse => true,
        _ => dims.h > 1,
    }
}

/// The transposition that a name and dimensions select.
pub open spec fn spec_op(dims: Dimensions, kind: TransposeKind) -> TransposeOp {
    match kind {
        TransposeKind::Reverse => TransposeOp::Rev(
            Reverse { length: (dims.w * dims.h) as usize },
        ),
        TransposeKind::ZigzagX => TransposeOp::Zig(
            Zigzag { width: dims.w, height: dims.h, major_axis: Axis::X },
        ),
        TransposeKind::ZigzagY => TransposeOp::Zig(
            Zigzag { width: dims.w, height: dims.h, major_axis: Axis::Y },
        ),
        TransposeKind::MirrorX => TransposeOp::Mir(
            Mirror { width: dims.w, height: dims.h, axis: Axis::X },
        ),
        TransposeKind::MirrorY => TransposeOp::Mir(
            Mirror { width: dims.w, height: dims.h, axis: Axis::Y },
        ),
    }
}

/// The configuration error of a 2D-only transposition applied to a
/// single-row strip. The reverse remap fits any geometry and has no such
/// message.
pub open spec fn kind_2d_message(kind: TransposeKind) -> Seq<char> {
    match kind {
        TransposeKind::Reverse => Seq::empty(),
        TransposeKind::ZigzagX => "zigzag_x requires 2D geometry to be specified"@,
        TransposeKind::ZigzagY => "zigzag_y requires 2D geometry to be specified"@,
        TransposeKind::MirrorX => "mirror_x requires 2D geometry to be specified"@,
        TransposeKind::MirrorY => "mirror_y requires 2D geometry to be specified"@,
    }
}

/// Resolve one named transposition against the display dimensions.
///
/// The 2D-only remaps are rejected on a single-row strip with a
/// configuration error.
pub fn map_transposition(dimensions: &Dimensions, kind: TransposeKind) -> (r: Result<
    TransposeOp,
    GenericError,
>)
    requires
        dims_wf(*dimensions),
    ensures
        r is Ok <==> kind_ok(*dimensions, kind),
        r matches Ok(op) ==> op == spec_op(*dimensions, kind),
        r matches Err(e) ==> e.spec_msg() == kind_2d_message(kind),
{
    match kind {
        TransposeKind::Reverse => Ok(
            TransposeOp::Rev(Reverse { length: dimensions.size() }),
        ),
        TransposeKind::ZigzagX => {
            if dimensions.h > 1 {
                Ok(
                    TransposeOp::Zig(
                        Zigzag { width: dimensions.w, height: dimensions.h, major_axis: Axis::X },
                    ),
                )
            } else {
                Err(GenericError::new("zigzag_x requires 2D geometry to be specified"))
            }
        }
        TransposeKind::ZigzagY => {
            if dimensions.h > 1 {
                Ok(
                    TransposeOp::Zig(
                        Zigzag { width: dimensions.w, height: dimensions.h, major_axis: Axis::Y },
                    ),
                )
            } else {
                Err(GenericError::new("zigzag_y requires 2D geometry to be specified"))
            }
        }
        TransposeKind::MirrorX => {
            if dimensions.h > 1 {
                Ok(
                    TransposeOp::Mir(
                        Mirror { width: dimensions.w, height: dimensions.h, axis: Axis::X },
                    ),
                )
            } else {
                Err(GenericError::new("mirror_x requires 2D geometry to be specified"))
            }
        }
        TransposeKind::MirrorY => {
            if dimensions.h > 1 {
                Ok(
                    TransposeOp::Mir(
                        Mirror { width: dimensions.w, height: dimensions.h, axis: Axis::Y },
                    ),
                )
            } else {
                Err(GenericError::new("mirror_y requires 2D geometry to be specified"))
            }
        }
    }
}

/// The transpositions that a whole configuration selects.
pub open spec fn spec_ops(dims: Dimensions, kinds: Seq<TransposeKind>) -> Seq<TransposeOp> {
    kinds.map(|k: int, kind: TransposeKind| spec_op(dims, kind))
}

/// Where the composed transpositions send index `i`.
pub open spec fn table_map(dims: Dimensions, kinds: Seq<TransposeKind>, i: int) -> int {
    compose_seq_map(spec_ops(dims, kinds), i)
}

/// Build the permutation table: entry `i` is where the composed
/// transpositions, applied first to last, send index `i`.
///
/// Fails with the first transposition that does not apply to the dimensions.
pub fn transposition_table(dimensions: &Dimensions, operations: &Vec<TransposeKind>) -> (r: Result<
    Vec<usize>,
    GenericError,
>)
    requires
        dims_wf(*dimensions),
    ensures
        r is Ok <==> (forall|k: int|
            0 <= k < operations@.len() ==> kind_ok(*dimensions, #[trigger] operations@[k])),
        r matches Err(e) ==> exists|k: int|
            {
                &&& 0 <= k < operations@.len()
                &&& !kind_ok(*dimensions, #[trigger] operations@[k])
                &&& forall|m: int| 0 <= m < k ==> kind_ok(*dimensions, #[trigger] operations@[m])
                &&& e.spec_msg() == kind_2d_message(operations@[k])
            },
        r matches Ok(t) ==> {
            &&& t@.len() == dimensions.spec_size()
            &&& forall|i: int|
                0 <= i < t@.len() ==> #[trigger] t@[i] == table_map(
                    *dimensions,
                    operations@,
                    i,
                )
        },
{
    let mut ops: Vec<TransposeOp> = Vec::new();
    let mut k: usize = 0;
    let n_ops = operations.len();
    while k < n_ops
        invariant
            dims_wf(*dimensions),
            n_ops == operations@.len(),
            k <= n_ops,
            ops@ =~= spec_ops(*dimensions, operations@.subrange(0, k as int)),
            forall|m: int| 0 <= m < k ==> kind_ok(*dimensions, #[trigger] operations@[m]),
        decreases n_ops - k,
    {
        match map_transposition(dimensions, operations[k]) {
            Ok(op) => {
                ops.push(op);
                proof {
                    assert(operations@.subrange(0, k as int + 1) =~= operations@.subrange(
                        0,
                        k as int,
                    ).push(operations@[k as int]));
                    assert(ops@ =~= spec_ops(
                        *dimensions,
                        operations@.subrange(0, k as int + 1),
                    ));
                }
            }
            Err(e) => {
                proof {
                    assert(!kind_ok(*dimensions, operations@[k as int]));
                }
                return Err(e);
            }
        }
        k += 1;
    }
    let size = dimensions.size();
    proof {
        assert(operations@.subrange(0, n_ops as int) =~= operations@);
        lemma_ops_wf(*dimensions, operations@);
        assert(ops.t_wf());
    }
    let mut table: Vec<usize> = Vec::new();
    let mut i: usize = 0;
    while i < size
        invariant
            dims_wf(*dimensions),
            size == dimensions.spec_size(),
            i <= size,
            ops@ == spec_ops(*dimensions, operations@),
            ops.t_wf(),
            size >= 1 ==> ops.domain() >= size,
            table@.len() == i,
            forall|m: int|
                0 <= m < i ==> #[trigger] table@[m] == table_map(*dimensions, operations@, m),
        decreases size - i,
    {
        table.push(ops.transpose(i));
        i += 1;
    }
    Ok(table)
}

/// The transpositions a valid configuration selects are all well formed over
/// the same domain: the pixel count.
pub proof fn lemma_ops_wf(dims: Dimensions, kinds: Seq<TransposeKind>)
    requires
        dims_wf(dims),
    ensures
        forall|k: int| 0 <= k < kinds.len() ==> (#[trigger] spec_ops(dims, kinds)[k]).t_wf(),
        forall|k: int|
            0 <= k < kinds.len() ==> (#[trigger] spec_ops(dims, kinds)[k]).domain()
                == dims.spec_size(),
{
    let ops = spec_ops(dims, kinds);
    assert(dims.w * dims.h >= 1) by (nonlinear_arith)
        requires
            dims.w >= 1,
            dims.h >= 1,
    {}
    assert forall|k: int| 0 <= k < kinds.len() implies (#[trigger] ops[k]).t_wf() && ops[k].domain()
        == dims.spec_size() by {
        assert(ops[k] == spec_op(dims, kinds[k]));
    }
}

/// Composing transpositions over one domain stays inside that domain.
pub proof fn lemma_compose_in_range(ops: Seq<TransposeOp>, n: int, i: int)
    requires
        n >= 1,
        forall|k: int|
            0 <= k < ops.len() ==> (#[trigger] ops[k]).t_wf() && ops[k].domain() == n,
        0 <= i < n,
    ensures
        0 <= compose_seq_map(ops, i) < n,
    decreases ops.len(),
{
    if ops.len() > 0 {
        let first = ops.first();
        lemma_op_in_range(&first, i);
        let rest = ops.drop_first();
        assert(forall|k: int|
            0 <= k < rest.len() ==> (#[trigger] rest[k]).t_wf() && rest[k].domain() == n);
        lemma_compose_in_range(rest, n, first.map_index(i));
    }
}

/// Composing transpositions over one domain never sends two indices to the
/// same place.
pub proof fn lemma_compose_injective(ops: Seq<TransposeOp>, n: int, i: int, j: int)
    requires
        n >= 1,
        forall|k: int|
            0 <= k < ops.len() ==> (#[trigger] ops[k]).t_wf() && ops[k].domain() == n,
        0 <= i < n,
        0 <= j < n,
        compose_seq_map(ops, i) == compose_seq_map(ops, j),
    ensures
        i == j,
    decreases ops.len(),
{
    if ops.len() > 0 {
        let first = ops.first();
        lemma_op_in_range(&first, i);
        lemma_op_in_range(&first, j);
        let rest = ops.drop_first();
        assert(forall|k: int|
            0 <= k < rest.len() ==> (#[trigger] rest[k]).t_wf() && rest[k].domain() == n);
        lemma_compose_injective(rest, n, first.map_index(i), first.map_index(j));
        lemma_op_injective(&first, i, j);
    }
}

/// For any positive pixel count and any composition of transpositions, the
/// resulting table is a permutation of `[0, N)`: every entry lies in the
/// range, and no two entries coincide, so the multiset of entries is exactly
/// `{0, ..., N - 1}`.
pub proof fn lemma_table_permutation(dims: Dimensions, kinds: Seq<TransposeKind>, t: Seq<usize>)
    requires
        dims_wf(dims),
        t.len() == dims.spec_size(),
        forall|i: int| 0 <= i < t.len() ==> #[trigger] t[i] == table_map(dims, kinds, i),
    ensures
        forall|i: int| 0 <= i < t.len() ==> 0 <= #[trigger] t[i] < t.len(),
        forall|i: int, j: int|
            0 <= i < t.len() && 0 <= j < t.len() && i != j ==> t[i] != t[j],
{
    let n = dims.spec_size();
    assert(n >= 1) by (nonlinear_arith)
        requires
            dims.w >= 1,
            dims.h >= 1,
            n == dims.w * dims.h,
    {}
    lemma_ops_wf(dims, kinds);
    let ops = spec_ops(dims, kinds);
    assert forall|i: int| 0 <= i < t.len() implies 0 <= #[trigger] t[i] < t.len() by {
        lemma_compose_in_range(ops, n, i);
    }
    assert forall|i: int, j: int|
        0 <= i < t.len() && 0 <= j < t.len() && i != j implies t[i] != t[j] by {
        if t[i] == t[j] {
            lemma_compose_injective(ops, n, i, j);
        }
    }
}

/// The empty list of transpositions yields the identity permutation.
pub proof fn lemma_empty_table_identity(dims: Dimensions, i: int)
    ensures
        table_map(dims, Seq::<TransposeKind>::empty(), i) == i,
{
    assert(spec_ops(dims, Seq::<TransposeKind>::empty()).len() == 0);
}

/// Reversing twice yields the identity permutation.
pub proof fn lemma_reverse_twice_identity(dims: Dimensions, i: int)
    requires
        dims_wf(dims),
        0 <= i < dims.spec_size(),
    ensures
        table_map(dims, seq![TransposeKind::Reverse, TransposeKind::Reverse], i) == i,
{
    let kinds = seq![TransposeKind::Reverse, TransposeKind::Reverse];
    let ops = spec_ops(dims, kinds);
    let rev = Reverse { length: (dims.w * dims.h) as usize };
    assert(ops.len() == 2);
    assert(ops[0] == spec_op(dims, TransposeKind::Reverse));
    assert(ops[1] == spec_op(dims, TransposeKind::Reverse));
    let rest = ops.drop_first();
    assert(rest.len() == 1);
    assert(rest.first() == ops[1]);
    assert(rest.drop_first().len() == 0);
    crate::geometry::lemma_reverse_involution(&rev, i);
    assert(ops.first() == TransposeOp::Rev(rev));
    assert(ops.first().map_index(i) == rev.map_index(i));
    let v = rev.map_index(i);
    assert(compose_seq_map(ops, i) == compose_seq_map(rest, v));
    assert(rest.first().map_index(v) == rev.map_index(v));
    assert(compose_seq_map(rest, v) == compose_seq_map(rest.drop_first(), rev.map_index(v)));
    assert(compose_seq_map(rest.drop_first(), rev.map_index(v)) == rev.map_index(v));
}

} // verus!
