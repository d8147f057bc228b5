use vstd::prelude::*;

use crate::types::ValueType;

verus! {

/// `c` rounded up to the next multiple of `a`.
pub open spec fn round_up(c: int, a: int) -> int {
    ((c + a - 1) / a) * a
}

/// Where a value of type `t` begins when the layout cursor stands at `c`:
/// 32-bit-class values pack directly, 64-bit-class values round the cursor
/// up to a multiple of 8, 128-bit vectors to a multiple of 16.
pub open spec fn aligned_offset(t: ValueType, c: int) -> int {
    match t {
        ValueType::I32 | ValueType::F32 => c,
        ValueType::I64 | ValueType::F64 => round_up(c, 8),
        ValueType::V128 => round_up(c, 16),
        ValueType::Ref => c,
    }
}

/// Final cursor value after laying out every value of `tys` in order,
/// starting from 0: the total aggregate byte size.
pub open spec fn layout_size(tys: Seq<ValueType>) -> int
    decreases tys.len(),
{
    if tys.len() == 0 {
        0
    } else {
        aligned_offset(tys.last(), layout_size(tys.drop_last())) + tys.last().natural_size()
    }
}

/// Byte offset of each value of `tys` within the aggregate.
pub open spec fn layout_offsets(tys: Seq<ValueType>) -> Seq<int> {
    Seq::new(tys.len(), |i: int| aligned_offset(tys[i], layout_size(tys.take(i))))
}

/// Sum of the natural sizes of `tys`, with no padding.
pub open spec fn sum_sizes(tys: Seq<ValueType>) -> int
    decreases tys.len(),
{
    if tys.len() == 0 {
        0
    } else {
        sum_sizes(tys.drop_last()) + tys.last().natural_size()
    }
}

/// Total padding the layout inserts: the gap before each value.
pub open spec fn total_padding(tys: Seq<ValueType>) -> int
    decreases tys.len(),
{
    if tys.len() == 0 {
        0
    } else {
        total_padding(tys.drop_last()) + aligned_offset(
            tys.last(),
            layout_size(tys.drop_last()),
        ) - layout_size(tys.drop_last())
    }
}

/// Strict upper bound on the padding inserted before a value of type `t`:
/// none for the 32-bit class, under one alignment unit otherwise.
pub open spec fn padding_bound(t: ValueType) -> int {
    match t {
        ValueType::I32 | ValueType::F32 => 1,
        ValueType::I64 | ValueType::F64 => 8,
        ValueType::V128 => 16,
        ValueType::Ref => 1,
    }
}

pub proof fn lemma_round_up_props(c: int, a: int)
    requires
        0 < a,
        0 <= c,
    ensures
        c <= round_up(c, a) < c + a,
        round_up(c, a) % a == 0,
{
    let q = (c + a - 1) / a;
    assert(c <= q * a < c + a && (q * a) % a == 0) by (nonlinear_arith)
        requires
            0 < a,
            0 <= c,
            q == (c + a - 1) / a,
    ;
}

pub proof fn lemma_aligned_offset_props(t: ValueType, c: int)
    requires
        0 <= c,
    ensures
        c <= aligned_offset(t, c) < c + padding_bound(t),
        t == ValueType::I64 || t == ValueType::F64 ==> aligned_offset(t, c) % 8 == 0,
        t == ValueType::V128 ==> aligned_offset(t, c) % 16 == 0,
{
    match t {
        ValueType::I64 | ValueType::F64 => lemma_round_up_props(c, 8),
        ValueType::V128 => lemma_round_up_props(c, 16),
        _ => (),
    }
}

pub proof fn lemma_layout_size_nonneg(tys: Seq<ValueType>)
    ensures
        layout_size(tys) >= 0,
    decreases tys.len(),
{
    if tys.len() > 0 {
        lemma_layout_size_nonneg(tys.drop_last());
        lemma_aligned_offset_props(tys.last(), layout_size(tys.drop_last()));
        assert(tys.last().natural_size() >= 0);
    }
}

/// One layout step: the cursor after `i + 1` values, from the cursor after `i`.
pub proof fn lemma_layout_take_succ(tys: Seq<ValueType>, i: int)
    requires
        0 <= i < tys.len(),
    ensures
        layout_size(tys.take(i + 1)) == aligned_offset(tys[i], layout_size(tys.take(i)))
            + tys[i].natural_size(),
    decreases tys.len(),
{
    assert(tys.take(i + 1).drop_last() =~= tys.take(i));
    assert(tys.take(i + 1).last() == tys[i]);
}

/// The cursor never moves backwards: a prefix's size bounds the whole.
pub proof fn lemma_layout_size_mono(tys: Seq<ValueType>, i: int)
    requires
        0 <= i <= tys.len(),
    ensures
        layout_size(tys.take(i)) <= layout_size(tys),
    decreases tys.len() - i,
{
    if i < tys.len() {
        lemma_layout_size_nonneg(tys.take(i));
        lemma_layout_take_succ(tys, i);
        lemma_aligned_offset_props(tys[i], layout_size(tys.take(i)));
        assert(tys[i].natural_size() >= 0);
        lemma_layout_size_mono(tys, i + 1);
    } else {
        assert(tys.take(i) =~= tys);
    }
}

/// Law: for any supported type sequence, the total size is the sum of the
/// natural sizes plus the padding the layout inserts; the padding before
/// each value is minimal for its class (none for 32-bit values, under 8
/// bytes for 64-bit values, under 16 for vectors); every 64-bit-class value
/// starts at a multiple of 8 and every 128-bit value at a multiple of 16;
/// and the values are laid out contiguously apart from that padding.
pub proof fn lemma_layout_minimal_padding(tys: Seq<ValueType>)
    ensures
        layout_size(tys) == sum_sizes(tys) + total_padding(tys),
        forall|i: int|
            0 <= i < tys.len() ==> layout_size(tys.take(i)) <= #[trigger] layout_offsets(tys)[i]
                < layout_size(tys.take(i)) + padding_bound(tys[i]),
        forall|i: int|
            0 <= i < tys.len() ==> #[trigger] layout_offsets(tys)[i] + tys[i].natural_size()
                == layout_size(tys.take(i + 1)),
        forall|i: int|
            0 <= i < tys.len() && (tys[i] == ValueType::I64 || tys[i] == ValueType::F64)
                ==> #[trigger] layout_offsets(tys)[i] % 8 == 0,
        forall|i: int|
            0 <= i < tys.len() && tys[i] == ValueType::V128 ==> #[trigger] layout_offsets(
                tys,
            )[i] % 16 == 0,
    decreases tys.len(),
{
    if tys.len() > 0 {
        lemma_layout_minimal_padding(tys.drop_last());
        assert forall|i: int| 0 <= i < tys.len() - 1 implies #[trigger] layout_offsets(tys)[i]
            == layout_offsets(tys.drop_last())[i] && tys.take(i) =~= tys.drop_last().take(i)
            && tys.take(i + 1) =~= tys.drop_last().take(i + 1) by {
            assert(tys.take(i) =~= tys.drop_last().take(i));
            assert(tys.take(i + 1) =~= tys.drop_last().take(i + 1));
        }
        let n = tys.len() - 1;
        assert(tys.take(n) =~= tys.drop_last());
        assert(tys.take(n + 1) =~= tys);
        lemma_layout_size_nonneg(tys.drop_last());
        lemma_aligned_offset_props(tys.last(), layout_size(tys.drop_last()));
        lemma_layout_take_succ(tys, n);
    }
}

/// The total size grows by at most 31 bytes (worst padding plus worst
/// size) per value: a bound that keeps the cursor within 32 bits for any
/// request list of bounded length.
pub proof fn lemma_layout_size_upper(tys: Seq<ValueType>)
    ensures
        layout_size(tys) <= 31 * tys.len(),
    decreases tys.len(),
{
    if tys.len() > 0 {
        lemma_layout_size_upper(tys.drop_last());
        lemma_layout_size_nonneg(tys.drop_last());
        lemma_aligned_offset_props(tys.last(), layout_size(tys.drop_last()));
        assert(tys.last().natural_size() <= 16);
        assert(padding_bound(tys.last()) <= 16);
    }
}

/// Natural byte size of one value, as executable code.
pub fn natural_size_bytes(t: ValueType) -> (r: u32)
    ensures
        r == t.natural_size(),
{
    match t {
        ValueType::I32 | ValueType::F32 => 4,
        ValueType::I64 | ValueType::F64 => 8,
        ValueType::V128 => 16,
        ValueType::Ref => 0,
    }
}

/// The layout cursor aligned for a value of type `t`, computed wide enough
/// that the intermediate sum cannot overflow.
pub fn aligned_cursor(t: ValueType, c: u32) -> (r: u64)
    ensures
        r == aligned_offset(t, c as int),
{
    match t {
        ValueType::I32 | ValueType::F32 | ValueType::Ref => c as u64,
        ValueType::I64 | ValueType::F64 => ((c as u64) + 7) / 8 * 8,
        ValueType::V128 => ((c as u64) + 15) / 16 * 16,
    }
}

/// Total aggregate byte size of the values of `results`, laid out in order
/// under natural alignment.
pub fn calculate_size(results: &[ValueType]) -> (r: u32)
    requires
        forall|i: int| 0 <= i < results@.len() ==> results@[i] != ValueType::Ref,
        layout_size(results@) <= u32::MAX,
    ensures
        r == layout_size(results@),
{
    let (size, _) = calculate_layout(results);
    size
}

/// Total aggregate byte size and the byte offset of every value of
/// `results`, both from the same single pass of the layout cursor.
pub fn calculate_layout(results: &[ValueType]) -> (r: (u32, Vec<u32>))
    requires
        forall|i: int| 0 <= i < results@.len() ==> results@[i] != ValueType::Ref,
        layout_size(results@) <= u32::MAX,
    ensures
        r.0 == layout_size(results@),
        r.1@.len() == results@.len(),
        forall|i: int| 0 <= i < results@.len() ==> r.1@[i] == layout_offsets(results@)[i],
{
    let mut size: u32 = 0;
    let mut offsets: Vec<u32> = Vec::new();
    let mut idx: usize = 0;
    while idx < results.len()
        invariant
            0 <= idx <= results@.len(),
            forall|i: int| 0 <= i < results@.len() ==> results@[i] != ValueType::Ref,
            layout_size(results@) <= u32::MAX,
            size == layout_size(results@.take(idx as int)),
            offsets@.len() == idx,
            forall|i: int| 0 <= i < idx ==> offsets@[i] == layout_offsets(results@)[i],
        decreases results@.len() - idx,
    {
        let t = results[idx];
        proof {
            lemma_layout_size_nonneg(results@.take(idx as int));
            lemma_aligned_offset_props(t, size as int);
            lemma_layout_take_succ(results@, idx as int);
            lemma_layout_size_mono(results@, idx as int + 1);
        }
        let off64: u64 = aligned_cursor(t, size);
        assert(off64 + t.natural_size() == layout_size(results@.take(idx as int + 1)));
        let off: u32 = off64 as u32;
        offsets.push(off);
        size = off + natural_size_bytes(t);
        idx = idx + 1;
    }
    proof {
        assert(results@.take(idx as int) =~= results@);
    }
    (size, offsets)
}

} // verus!
