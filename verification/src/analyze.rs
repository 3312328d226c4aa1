//! The layout analyzers: sequential natural-alignment layout for structs,
//! maximum-member layout for unions.

use vstd::prelude::*;

verus! {

use crate::align::{is_pow2, round_up, lemma_pow2_pos, lemma_round_up_ge, round_up_to};
use crate::field::{FieldSpec, FieldModel, field_ok, fields_ok, valid_fields, models};
use crate::report::{Gap, GapModel, LayoutReport, ReportModel, LayoutError};

/// Whether an aggregate's members are laid out sequentially (struct) or all
/// at offset zero (union).
#[derive(Clone, Copy, Debug, PartialEq, Eq, Structural)]
pub enum AggregateKind {
    Struct,
    Union,
}

/// An aggregate to analyze: its kind and its ordered field list.
pub struct AggregateSpec {
    pub kind: AggregateKind,
    pub fields: Vec<FieldSpec>,
}

/// The end of the last field under sequential layout: each field starts at
/// its predecessor's end rounded up to the field's own alignment.
pub open spec fn struct_end_offset(fs: Seq<FieldModel>) -> nat
    decreases fs.len(),
{
    if fs.len() == 0 {
        0
    } else {
        round_up(struct_end_offset(fs.drop_last()), fs.last().alignment) + fs.last().size
    }
}

/// The aggregate's own alignment: the largest member alignment, at least 1.
pub open spec fn aggregate_alignment(fs: Seq<FieldModel>) -> nat
    decreases fs.len(),
{
    if fs.len() == 0 {
        1
    } else {
        let rest = aggregate_alignment(fs.drop_last());
        if fs.last().alignment > rest {
            fs.last().alignment
        } else {
            rest
        }
    }
}

/// The inter-field gaps of sequential layout, in field order: one record for
/// every field whose aligned start lies past its predecessor's end.
pub open spec fn struct_field_gaps(fs: Seq<FieldModel>) -> Seq<GapModel>
    decreases fs.len(),
{
    if fs.len() == 0 {
        Seq::empty()
    } else {
        let prev = struct_end_offset(fs.drop_last());
        let start = round_up(prev, fs.last().alignment);
        let rest = struct_field_gaps(fs.drop_last());
        if start > prev {
            rest.push(GapModel {
                before_field: Option::Some(fs.last().name),
                offset: prev,
                length: (start - prev) as nat,
            })
        } else {
            rest
        }
    }
}

/// A struct's total size: the end of its last field rounded up to the
/// struct's own alignment.
pub open spec fn struct_total_size(fs: Seq<FieldModel>) -> nat {
    round_up(struct_end_offset(fs), aggregate_alignment(fs))
}

/// All gaps of a struct: the inter-field gaps, then the trailing gap if end
/// padding was inserted.
pub open spec fn struct_gaps(fs: Seq<FieldModel>) -> Seq<GapModel> {
    let end = struct_end_offset(fs);
    let total = struct_total_size(fs);
    if total > end {
        struct_field_gaps(fs).push(GapModel {
            before_field: Option::None,
            offset: end,
            length: (total - end) as nat,
        })
    } else {
        struct_field_gaps(fs)
    }
}

/// The full report of the struct analyzer.
pub open spec fn struct_report(fs: Seq<FieldModel>) -> ReportModel {
    ReportModel {
        total_size: struct_total_size(fs),
        alignment: aggregate_alignment(fs),
        gaps: struct_gaps(fs),
    }
}

/// The size of the largest union member.
pub open spec fn max_member_size(fs: Seq<FieldModel>) -> nat
    decreases fs.len(),
{
    if fs.len() == 0 {
        0
    } else {
        let rest = max_member_size(fs.drop_last());
        if fs.last().size > rest {
            fs.last().size
        } else {
            rest
        }
    }
}

/// A union's total size: its largest member rounded up to the union's
/// own alignment.
pub open spec fn union_total_size(fs: Seq<FieldModel>) -> nat {
    round_up(max_member_size(fs), aggregate_alignment(fs))
}

/// A union's gaps: at most the single trailing gap, since every member
/// starts at offset zero.
pub open spec fn union_gaps(fs: Seq<FieldModel>) -> Seq<GapModel> {
    let max = max_member_size(fs);
    let total = union_total_size(fs);
    if total > max {
        seq![GapModel { before_field: Option::None, offset: max, length: (total - max) as nat }]
    } else {
        Seq::empty()
    }
}

/// The full report of the union analyzer.
pub open spec fn union_report(fs: Seq<FieldModel>) -> ReportModel {
    ReportModel {
        total_size: union_total_size(fs),
        alignment: aggregate_alignment(fs),
        gaps: union_gaps(fs),
    }
}

/// The report an aggregate of either kind is owed.
pub open spec fn aggregate_report(kind: AggregateKind, fs: Seq<FieldModel>) -> ReportModel {
    match kind {
        AggregateKind::Struct => struct_report(fs),
        AggregateKind::Union => union_report(fs),
    }
}

/// Every member alignment is bounded by the aggregate's alignment.
pub proof fn lemma_alignment_le_aggregate(fs: Seq<FieldModel>, i: int)
    requires
        0 <= i < fs.len(),
    ensures
        fs[i].alignment <= aggregate_alignment(fs),
    decreases fs.len(),
{
    if i == fs.len() - 1 {
        assert(fs.last() == fs[i]);
    } else {
        lemma_alignment_le_aggregate(fs.drop_last(), i);
        assert(fs.drop_last()[i] == fs[i]);
    }
}

/// The aggregate alignment is positive, and itself a power of two when all
/// member alignments are.
pub proof fn lemma_aggregate_alignment_pow2(fs: Seq<FieldModel>)
    requires
        fields_ok(fs),
    ensures
        aggregate_alignment(fs) >= 1,
        is_pow2(aggregate_alignment(fs)),
    decreases fs.len(),
{
    if fs.len() == 0 {
        assert(is_pow2(1));
    } else {
        assert(fields_ok(fs.drop_last())) by {
            assert(forall|i: int| 0 <= i < fs.len() - 1 ==> fs.drop_last()[i] == fs[i]);
        }
        lemma_aggregate_alignment_pow2(fs.drop_last());
        assert(field_ok(fs.last()));
        if fs.last().alignment > aggregate_alignment(fs.drop_last()) {
            lemma_pow2_pos(fs.last().alignment);
        }
    }
}

/// Under sequential layout, every prefix ends no later than the whole list.
pub proof fn lemma_end_offset_le_full(fs: Seq<FieldModel>, i: int)
    requires
        fields_ok(fs),
        0 <= i <= fs.len(),
    ensures
        struct_end_offset(fs.take(i)) <= struct_end_offset(fs),
    decreases fs.len() - i,
{
    if i == fs.len() {
        assert(fs.take(i) =~= fs);
    } else {
        assert(fs.take(i + 1).drop_last() =~= fs.take(i));
        assert(fs.take(i + 1).last() == fs[i]);
        assert(field_ok(fs[i]));
        lemma_pow2_pos(fs[i].alignment);
        lemma_round_up_ge(struct_end_offset(fs.take(i)), fs[i].alignment);
        lemma_end_offset_le_full(fs, i + 1);
    }
}

/// Walks an ordered field list under sequential natural-alignment layout,
/// recording a gap wherever alignment forces padding, and rounds the end of
/// the last field up to the struct's own alignment.
///
/// Returns `InvalidSpec`, and no report, exactly when the field list is
/// empty or some alignment is zero or not a power of two.
pub fn analyze_struct(fields: &Vec<FieldSpec>) -> (r: Result<LayoutReport, LayoutError>)
    requires
        valid_fields(models(fields@)) ==> struct_total_size(models(fields@)) <= usize::MAX,
    ensures
        match r {
            Result::Ok(rep) => valid_fields(models(fields@)) && rep@ == struct_report(
                models(fields@),
            ),
            Result::Err(e) => e == LayoutError::InvalidSpec && !valid_fields(models(fields@)),
        },
{
    let ghost m = models(fields@);
    if fields.len() == 0 {
        return Err(LayoutError::InvalidSpec);
    }
    let mut i: usize = 0;
    while i < fields.len()
        invariant
            i <= fields.len(),
            m == models(fields@),
            m.len() == fields@.len(),
            forall|j: int| 0 <= j < i ==> field_ok(#[trigger] m[j]),
        decreases fields.len() - i,
    {
        if !fields[i].is_well_formed() {
            assert(!field_ok(m[i as int]));
            return Err(LayoutError::InvalidSpec);
        }
        i = i + 1;
    }
    assert(valid_fields(m));

    let mut offset: usize = 0;
    let mut align: usize = 1;
    let mut gaps: Vec<Gap> = Vec::new();
    proof {
        assert(m.take(0) =~= Seq::<FieldModel>::empty());
        assert(gaps@.map_values(|g: Gap| g@) =~= struct_field_gaps(m.take(0)));
    }
    i = 0;
    while i < fields.len()
        invariant
            i <= fields.len(),
            m == models(fields@),
            m.len() == fields@.len(),
            valid_fields(m),
            struct_total_size(m) <= usize::MAX,
            offset as nat == struct_end_offset(m.take(i as int)),
            align as nat == aggregate_alignment(m.take(i as int)),
            gaps@.map_values(|g: Gap| g@) == struct_field_gaps(m.take(i as int)),
        decreases fields.len() - i,
    {
        let f = &fields[i];
        proof {
            assert(m[i as int] == fields@[i as int]@);
            assert(field_ok(m[i as int]));
            lemma_pow2_pos(m[i as int].alignment);
            assert(m.take(i + 1).drop_last() =~= m.take(i as int));
            assert(m.take(i + 1).last() == m[i as int]);
            lemma_end_offset_le_full(m, i + 1);
            lemma_aggregate_alignment_pow2(m);
            lemma_round_up_ge(struct_end_offset(m), aggregate_alignment(m));
        }
        let aligned = round_up_to(offset, f.alignment);
        if aligned > offset {
            gaps.push(Gap {
                before_field: Some(f.name.clone()),
                offset,
                length: aligned - offset,
            });
            proof {
                assert(gaps@.drop_last().map_values(|g: Gap| g@) =~= struct_field_gaps(
                    m.take(i as int),
                ));
                assert(gaps@.map_values(|g: Gap| g@) =~= struct_field_gaps(m.take(i + 1)));
            }
        } else {
            proof {
                assert(gaps@.map_values(|g: Gap| g@) =~= struct_field_gaps(m.take(i + 1)));
            }
        }
        offset = aligned + f.size;
        if f.alignment > align {
            align = f.alignment;
        }
        i = i + 1;
    }
    proof {
        assert(m.take(m.len() as int) =~= m);
        lemma_aggregate_alignment_pow2(m);
    }
    let total = round_up_to(offset, align);
    if total > offset {
        gaps.push(Gap { before_field: None, offset, length: total - offset });
        proof {
            assert(gaps@.drop_last().map_values(|g: Gap| g@) =~= struct_field_gaps(m));
            assert(gaps@.map_values(|g: Gap| g@) =~= struct_gaps(m));
        }
    } else {
        proof {
            assert(gaps@.map_values(|g: Gap| g@) =~= struct_gaps(m));
        }
    }
    let report = LayoutReport { total_size: total, alignment: align, gaps };
    proof {
        assert(report@ =~= struct_report(m));
    }
    Ok(report)
}

/// Computes a union's size as its largest member rounded up to the union's
/// alignment, and flags the unused tail if one exists; members never cause
/// inter-field padding since all start at offset zero.
///
/// Returns `InvalidSpec`, and no report, exactly when the field list is
/// empty or some alignment is zero or not a power of two.
pub fn analyze_union(fields: &Vec<FieldSpec>) -> (r: Result<LayoutReport, LayoutError>)
    requires
        valid_fields(models(fields@)) ==> union_total_size(models(fields@)) <= usize::MAX,
    ensures
        match r {
            Result::Ok(rep) => valid_fields(models(fields@)) && rep@ == union_report(
                models(fields@),
            ),
            Result::Err(e) => e == LayoutError::InvalidSpec && !valid_fields(models(fields@)),
        },
{
    let ghost m = models(fields@);
    if fields.len() == 0 {
        return Err(LayoutError::InvalidSpec);
    }
    let mut max_size: usize = 0;
    let mut align: usize = 1;
    let mut i: usize = 0;
    proof {
        assert(m.take(0) =~= Seq::<FieldModel>::empty());
    }
    while i < fields.len()
        invariant
            i <= fields.len(),
            m == models(fields@),
            m.len() == fields@.len(),
            forall|j: int| 0 <= j < i ==> field_ok(#[trigger] m[j]),
            max_size as nat == max_member_size(m.take(i as int)),
            align as nat == aggregate_alignment(m.take(i as int)),
        decreases fields.len() - i,
    {
        let f = &fields[i];
        if !f.is_well_formed() {
            assert(!field_ok(m[i as int]));
            return Err(LayoutError::InvalidSpec);
        }
        proof {
            assert(m.take(i + 1).drop_last() =~= m.take(i as int));
            assert(m.take(i + 1).last() == m[i as int]);
        }
        if f.size > max_size {
            max_size = f.size;
        }
        if f.alignment > align {
            align = f.alignment;
        }
        i = i + 1;
    }
    proof {
        assert(m.take(m.len() as int) =~= m);
        assert(valid_fields(m));
    }
    let total = round_up_to(max_size, align);
    let mut gaps: Vec<Gap> = Vec::new();
    if total > max_size {
        gaps.push(Gap { before_field: None, offset: max_size, length: total - max_size });
    }
    let report = LayoutReport { total_size: total, alignment: align, gaps };
    proof {
        assert(report@.gaps =~= union_gaps(m));
        assert(report@ =~= union_report(m));
    }
    Ok(report)
}

/// Analyzes an aggregate of either kind.
pub fn analyze(agg: &AggregateSpec) -> (r: Result<LayoutReport, LayoutError>)
    requires
        valid_fields(models(agg.fields@)) ==> aggregate_report(
            agg.kind,
            models(agg.fields@),
        ).total_size <= usize::MAX,
    ensures
        match r {
            Result::Ok(rep) => valid_fields(models(agg.fields@)) && rep@ == aggregate_report(
                agg.kind,
                models(agg.fields@),
            ),
            Result::Err(e) => e == LayoutError::InvalidSpec && !valid_fields(models(agg.fields@)),
        },
{
    match agg.kind {
        AggregateKind::Struct => analyze_struct(&agg.fields),
        AggregateKind::Union => analyze_union(&agg.fields),
    }
}

} // verus!
