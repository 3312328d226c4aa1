//! Laws of the analyzers, stated once over the layout model and proved for
//! every input.

use vstd::prelude::*;

verus! {

use vstd::arithmetic::div_mod::lemma_small_mod;
use crate::align::{
    round_up, lemma_pow2_pos, lemma_round_up_ge, lemma_round_up_multiple, lemma_round_up_exact,
    lemma_pow2_le_divides, lemma_divides_trans, lemma_sum_of_multiples,
};
use crate::field::{FieldModel, field_ok, fields_ok, valid_fields};
use crate::report::{GapModel, ReportModel};
use crate::analyze::{
    AggregateKind, aggregate_alignment, aggregate_report, struct_end_offset, struct_field_gaps,
    struct_gaps, struct_total_size, max_member_size, union_gaps, union_total_size,
    lemma_alignment_le_aggregate, lemma_aggregate_alignment_pow2,
};

/// The sum of all field sizes.
pub open spec fn sum_sizes(fs: Seq<FieldModel>) -> nat
    decreases fs.len(),
{
    if fs.len() == 0 {
        0
    } else {
        sum_sizes(fs.drop_last()) + fs.last().size
    }
}

/// Every aggregate's total size is a multiple of the aggregate's alignment,
/// for structs and unions alike.
pub proof fn lemma_total_size_aligned(kind: AggregateKind, fs: Seq<FieldModel>)
    requires
        valid_fields(fs),
    ensures
        aggregate_report(kind, fs).total_size % aggregate_report(kind, fs).alignment == 0,
{
    lemma_aggregate_alignment_pow2(fs);
    match kind {
        AggregateKind::Struct => {
            lemma_round_up_multiple(struct_end_offset(fs), aggregate_alignment(fs));
        },
        AggregateKind::Union => {
            lemma_round_up_multiple(max_member_size(fs), aggregate_alignment(fs));
        },
    }
}

/// A union is at least as large as its largest member, and reports at most
/// one gap: the trailing one.
pub proof fn lemma_union_bounds(fs: Seq<FieldModel>)
    requires
        valid_fields(fs),
    ensures
        union_total_size(fs) >= max_member_size(fs),
        forall|i: int| 0 <= i < fs.len() ==> union_total_size(fs) >= #[trigger] fs[i].size,
        union_gaps(fs).len() <= 1,
{
    lemma_aggregate_alignment_pow2(fs);
    lemma_round_up_ge(max_member_size(fs), aggregate_alignment(fs));
    assert forall|i: int| 0 <= i < fs.len() implies max_member_size(fs) >= #[trigger] fs[i].size by {
        lemma_member_size_le_max(fs, i);
    }
}

/// Every member size is bounded by the largest member size.
pub proof fn lemma_member_size_le_max(fs: Seq<FieldModel>, i: int)
    requires
        0 <= i < fs.len(),
    ensures
        fs[i].size <= max_member_size(fs),
    decreases fs.len(),
{
    if i == fs.len() - 1 {
        assert(fs.last() == fs[i]);
    } else {
        lemma_member_size_le_max(fs.drop_last(), i);
        assert(fs.drop_last()[i] == fs[i]);
    }
}

/// Analysis is a pure function of its input: two reports of the same
/// aggregate are identical.
pub proof fn lemma_analysis_deterministic(
    kind: AggregateKind,
    fs: Seq<FieldModel>,
    r1: ReportModel,
    r2: ReportModel,
)
    requires
        r1 == aggregate_report(kind, fs),
        r2 == aggregate_report(kind, fs),
    ensures
        r1 == r2,
{
}

proof fn lemma_packed_prefix(fs: Seq<FieldModel>, i: int)
    requires
        fields_ok(fs),
        forall|k: int| 0 <= k < fs.len() ==> (#[trigger] fs[k].size) % aggregate_alignment(
            fs,
        ) == 0,
        0 <= i <= fs.len(),
    ensures
        struct_end_offset(fs.take(i)) == sum_sizes(fs.take(i)),
        sum_sizes(fs.take(i)) % aggregate_alignment(fs) == 0,
        struct_field_gaps(fs.take(i)) =~= Seq::<GapModel>::empty(),
    decreases i,
{
    let amax = aggregate_alignment(fs);
    lemma_aggregate_alignment_pow2(fs);
    if i == 0 {
        assert(fs.take(0) =~= Seq::<FieldModel>::empty());
        lemma_small_mod(0, amax);
    } else {
        lemma_packed_prefix(fs, i - 1);
        assert(fs.take(i).drop_last() =~= fs.take(i - 1));
        assert(fs.take(i).last() == fs[i - 1]);
        let end = struct_end_offset(fs.take(i - 1));
        let a = fs[i - 1].alignment;
        assert(field_ok(fs[i - 1]));
        lemma_pow2_pos(a);
        lemma_alignment_le_aggregate(fs, i - 1);
        lemma_pow2_le_divides(a, amax);
        lemma_divides_trans(end, a, amax);
        lemma_round_up_exact(end, a);
        lemma_sum_of_multiples(end, fs[i - 1].size, amax);
    }
}

/// The sum of all gap lengths in a report.
pub open spec fn sum_gap_lengths(gs: Seq<GapModel>) -> nat
    decreases gs.len(),
{
    if gs.len() == 0 {
        0
    } else {
        sum_gap_lengths(gs.drop_last()) + gs.last().length
    }
}

proof fn lemma_end_offset_decomposition(fs: Seq<FieldModel>, i: int)
    requires
        fields_ok(fs),
        0 <= i <= fs.len(),
    ensures
        struct_end_offset(fs.take(i)) == sum_sizes(fs.take(i)) + sum_gap_lengths(
            struct_field_gaps(fs.take(i)),
        ),
    decreases i,
{
    if i > 0 {
        lemma_end_offset_decomposition(fs, i - 1);
        assert(fs.take(i).drop_last() =~= fs.take(i - 1));
        assert(fs.take(i).last() == fs[i - 1]);
        assert(field_ok(fs[i - 1]));
        lemma_pow2_pos(fs[i - 1].alignment);
        let rest = struct_field_gaps(fs.take(i - 1));
        let prev = struct_end_offset(fs.take(i - 1));
        let start = round_up(prev, fs[i - 1].alignment);
        lemma_round_up_ge(prev, fs[i - 1].alignment);
        if start > prev {
            let g = GapModel {
                before_field: Option::Some(fs[i - 1].name),
                offset: prev,
                length: (start - prev) as nat,
            };
            assert(struct_field_gaps(fs.take(i)) == rest.push(g));
            assert(rest.push(g).drop_last() =~= rest);
            assert(rest.push(g).last() == g);
        }
    }
}

/// In a struct's report, the field sizes and the gap lengths together
/// account for the whole aggregate: their sums add up to the total size.
pub proof fn lemma_struct_size_decomposition(fs: Seq<FieldModel>)
    requires
        valid_fields(fs),
    ensures
        sum_sizes(fs) + sum_gap_lengths(struct_gaps(fs)) == struct_total_size(fs),
{
    lemma_end_offset_decomposition(fs, fs.len() as int);
    assert(fs.take(fs.len() as int) =~= fs);
    lemma_aggregate_alignment_pow2(fs);
    let end = struct_end_offset(fs);
    let total = struct_total_size(fs);
    lemma_round_up_ge(end, aggregate_alignment(fs));
    if total > end {
        let fg = struct_field_gaps(fs);
        let t = GapModel { before_field: Option::None, offset: end, length: (total - end) as nat };
        assert(struct_gaps(fs) == fg.push(t));
        assert(fg.push(t).drop_last() =~= fg);
        assert(fg.push(t).last() == t);
    }
}

/// In a union's report, the unused tail past the largest member is exactly
/// the trailing gap, if any.
pub proof fn lemma_union_size_decomposition(fs: Seq<FieldModel>)
    requires
        valid_fields(fs),
    ensures
        max_member_size(fs) + sum_gap_lengths(union_gaps(fs)) == union_total_size(fs),
{
    lemma_aggregate_alignment_pow2(fs);
    let max = max_member_size(fs);
    let total = union_total_size(fs);
    lemma_round_up_ge(max, aggregate_alignment(fs));
    assert(sum_gap_lengths(Seq::<GapModel>::empty()) == 0);
    if total > max {
        let g = GapModel { before_field: Option::None, offset: max, length: (total - max) as nat };
        assert(union_gaps(fs) == seq![g]);
        assert(seq![g].drop_last() =~= Seq::<GapModel>::empty());
        assert(seq![g].last() == g);
        assert(sum_gap_lengths(seq![g]) == sum_gap_lengths(Seq::<GapModel>::empty()) + g.length);
    }
}

/// Gap records in ascending, non-overlapping order: each gap ends no later
/// than the next begins, and none reaches past `bound`.
pub open spec fn gaps_ordered(gs: Seq<GapModel>, bound: nat) -> bool {
    &&& forall|i: int, j: int|
        0 <= i < j < gs.len() ==> (#[trigger] gs[i]).offset + gs[i].length
            <= (#[trigger] gs[j]).offset
    &&& forall|i: int| 0 <= i < gs.len() ==> (#[trigger] gs[i]).offset + gs[i].length <= bound
}

proof fn lemma_field_gaps_ordered_prefix(fs: Seq<FieldModel>, k: int)
    requires
        fields_ok(fs),
        0 <= k <= fs.len(),
    ensures
        gaps_ordered(struct_field_gaps(fs.take(k)), struct_end_offset(fs.take(k))),
    decreases k,
{
    if k > 0 {
        lemma_field_gaps_ordered_prefix(fs, k - 1);
        assert(fs.take(k).drop_last() =~= fs.take(k - 1));
        assert(fs.take(k).last() == fs[k - 1]);
        assert(field_ok(fs[k - 1]));
        lemma_pow2_pos(fs[k - 1].alignment);
        let prev = struct_end_offset(fs.take(k - 1));
        lemma_round_up_ge(prev, fs[k - 1].alignment);
    }
}

/// A struct's gaps never overlap and come in ascending offset order, each
/// contained in the aggregate: inter-field gaps in field order, the trailing
/// gap last.
pub proof fn lemma_struct_gaps_ordered(fs: Seq<FieldModel>)
    requires
        valid_fields(fs),
    ensures
        gaps_ordered(struct_gaps(fs), struct_total_size(fs)),
{
    lemma_field_gaps_ordered_prefix(fs, fs.len() as int);
    assert(fs.take(fs.len() as int) =~= fs);
    lemma_aggregate_alignment_pow2(fs);
    lemma_round_up_ge(struct_end_offset(fs), aggregate_alignment(fs));
}

/// A union's single possible gap lies within the aggregate.
pub proof fn lemma_union_gaps_ordered(fs: Seq<FieldModel>)
    requires
        valid_fields(fs),
    ensures
        gaps_ordered(union_gaps(fs), union_total_size(fs)),
{
    lemma_aggregate_alignment_pow2(fs);
    lemma_round_up_ge(max_member_size(fs), aggregate_alignment(fs));
}

/// A struct whose field alignments never decrease along the list and whose
/// field sizes are all multiples of the struct's own alignment is tightly
/// packed: the analyzer finds no gaps at all, and the total size is exactly
/// the sum of the field sizes.
pub proof fn lemma_packed_struct_no_gaps(fs: Seq<FieldModel>)
    requires
        valid_fields(fs),
        forall|i: int, j: int| 0 <= i < j < fs.len() ==> fs[i].alignment <= fs[j].alignment,
        forall|i: int| 0 <= i < fs.len() ==> (#[trigger] fs[i].size) % aggregate_alignment(
            fs,
        ) == 0,
    ensures
        struct_gaps(fs).len() == 0,
        struct_total_size(fs) == sum_sizes(fs),
{
    lemma_packed_prefix(fs, fs.len() as int);
    assert(fs.take(fs.len() as int) =~= fs);
    lemma_aggregate_alignment_pow2(fs);
    lemma_round_up_exact(struct_end_offset(fs), aggregate_alignment(fs));
}

} // verus!
