use padcheck::analyze::{analyze, analyze_struct, analyze_union, AggregateKind, AggregateSpec};
use padcheck::field::FieldSpec;
use padcheck::report::{verify, LayoutError, LayoutReport};

fn field(name: &str, size: usize, alignment: usize) -> FieldSpec {
    FieldSpec::new(name.to_string(), size, alignment)
}

fn gap_names(report: &LayoutReport) -> Vec<Option<String>> {
    report
        .gaps
        .iter()
        .map(|g| g.before_field.clone())
        .collect()
}

#[test]
fn struct_gap_before_wider_field() {
    // u8 followed by u32: three padding bytes before the second field.
    let fields = vec![field("small", 1, 1), field("word", 4, 4)];
    let report = analyze_struct(&fields).unwrap();
    assert_eq!(report.total_size, 8);
    assert_eq!(report.alignment, 4);
    assert_eq!(report.gaps.len(), 1);
    assert_eq!(report.gaps[0].before_field.as_deref(), Some("word"));
    assert_eq!(report.gaps[0].offset, 1);
    assert_eq!(report.gaps[0].length, 3);
}

#[test]
fn struct_trailing_gap() {
    // u32 followed by u8: no inter-field gap, three trailing padding bytes.
    let fields = vec![field("word", 4, 4), field("small", 1, 1)];
    let report = analyze_struct(&fields).unwrap();
    assert_eq!(report.total_size, 8);
    assert_eq!(report.alignment, 4);
    assert_eq!(report.gaps.len(), 1);
    assert_eq!(report.gaps[0].before_field, None);
    assert_eq!(report.gaps[0].offset, 5);
    assert_eq!(report.gaps[0].length, 3);
}

#[test]
fn union_without_tail() {
    // u8 and u64 members: max size 8 is already a multiple of alignment 8.
    let fields = vec![field("byte", 1, 1), field("wide", 8, 8)];
    let report = analyze_union(&fields).unwrap();
    assert_eq!(report.total_size, 8);
    assert_eq!(report.alignment, 8);
    assert!(report.gaps.is_empty());
}

#[test]
fn union_with_tail() {
    let fields = vec![field("bytes", 3, 1), field("word", 5, 4)];
    let report = analyze_union(&fields).unwrap();
    assert_eq!(report.total_size, 8);
    assert_eq!(report.alignment, 4);
    assert_eq!(report.gaps.len(), 1);
    assert_eq!(report.gaps[0].before_field, None);
    assert_eq!(report.gaps[0].offset, 5);
    assert_eq!(report.gaps[0].length, 3);
}

#[test]
fn verify_reports_mismatch() {
    let report = LayoutReport { total_size: 8, alignment: 4, gaps: Vec::new() };
    let result = verify(&report, 12);
    assert_eq!(
        result,
        Err(LayoutError::SizeMismatch { computed: 8, observed: 12 })
    );
}

#[test]
fn verify_accepts_matching_size() {
    let report = LayoutReport { total_size: 8, alignment: 4, gaps: Vec::new() };
    assert_eq!(verify(&report, 8), Ok(()));
}

#[test]
fn empty_struct_is_invalid() {
    let fields: Vec<FieldSpec> = Vec::new();
    assert!(matches!(analyze_struct(&fields), Err(LayoutError::InvalidSpec)));
    assert!(matches!(analyze_union(&fields), Err(LayoutError::InvalidSpec)));
}

#[test]
fn zero_alignment_is_invalid() {
    let fields = vec![field("bad", 4, 0)];
    assert!(matches!(analyze_struct(&fields), Err(LayoutError::InvalidSpec)));
    assert!(matches!(analyze_union(&fields), Err(LayoutError::InvalidSpec)));
}

#[test]
fn non_power_of_two_alignment_is_invalid() {
    let fields = vec![field("bad", 6, 3)];
    assert!(matches!(analyze_struct(&fields), Err(LayoutError::InvalidSpec)));
    assert!(matches!(analyze_union(&fields), Err(LayoutError::InvalidSpec)));
}

#[test]
fn packed_struct_has_no_gaps() {
    // Alignments never decrease and every size is a multiple of the struct
    // alignment: tightly packed, total is the plain sum of sizes.
    let fields = vec![field("a", 4, 2), field("b", 4, 4), field("c", 8, 4)];
    let report = analyze_struct(&fields).unwrap();
    assert!(report.gaps.is_empty());
    assert_eq!(report.total_size, 16);
    assert_eq!(report.alignment, 4);
}

#[test]
fn aligned_neighbor_sizes_do_not_prevent_gaps() {
    // Each size is a multiple of the next field's alignment and alignments
    // never decrease, yet the accumulated offset 12 still misses the 8-byte
    // boundary that the last field needs.
    let fields = vec![field("a", 4, 1), field("b", 8, 4), field("c", 8, 8)];
    let report = analyze_struct(&fields).unwrap();
    assert_eq!(report.gaps.len(), 1);
    assert_eq!(report.gaps[0].before_field.as_deref(), Some("c"));
    assert_eq!(report.gaps[0].offset, 12);
    assert_eq!(report.gaps[0].length, 4);
    assert_eq!(report.total_size, 24);
}

#[test]
fn total_size_is_multiple_of_alignment() {
    let cases = vec![
        vec![field("a", 1, 1), field("b", 4, 4), field("c", 2, 2)],
        vec![field("a", 13, 1), field("b", 3, 2)],
        vec![field("a", 1, 8)],
    ];
    for fields in cases {
        let report = analyze_struct(&fields).unwrap();
        assert_eq!(report.total_size % report.alignment, 0);
        let report = analyze_union(&fields).unwrap();
        assert_eq!(report.total_size % report.alignment, 0);
    }
}

#[test]
fn sizes_and_gaps_account_for_total() {
    let fields = vec![field("a", 1, 1), field("b", 1, 2), field("c", 4, 4), field("d", 1, 1)];
    let report = analyze_struct(&fields).unwrap();
    let sum_sizes: usize = fields.iter().map(|f| f.size).sum();
    let sum_gaps: usize = report.gaps.iter().map(|g| g.length).sum();
    assert_eq!(sum_sizes + sum_gaps, report.total_size);

    let report = analyze_union(&fields).unwrap();
    let max_size = fields.iter().map(|f| f.size).max().unwrap();
    let sum_gaps: usize = report.gaps.iter().map(|g| g.length).sum();
    assert_eq!(max_size + sum_gaps, report.total_size);
}

#[test]
fn union_size_covers_largest_member() {
    let fields = vec![field("a", 7, 1), field("b", 2, 2), field("c", 16, 16)];
    let report = analyze_union(&fields).unwrap();
    assert!(report.total_size >= 16);
    assert!(report.gaps.len() <= 1);
}

#[test]
fn analysis_is_deterministic() {
    let fields = vec![field("a", 3, 1), field("b", 8, 8), field("c", 1, 1)];
    let first = analyze_struct(&fields).unwrap();
    let second = analyze_struct(&fields).unwrap();
    assert_eq!(first.total_size, second.total_size);
    assert_eq!(first.alignment, second.alignment);
    assert_eq!(first.gaps.len(), second.gaps.len());
    for (g1, g2) in first.gaps.iter().zip(second.gaps.iter()) {
        assert_eq!(g1.before_field, g2.before_field);
        assert_eq!(g1.offset, g2.offset);
        assert_eq!(g1.length, g2.length);
    }
    let first = analyze_union(&fields).unwrap();
    let second = analyze_union(&fields).unwrap();
    assert_eq!(first.total_size, second.total_size);
    assert_eq!(first.alignment, second.alignment);
    assert_eq!(first.gaps.len(), second.gaps.len());
}

#[test]
fn dispatcher_follows_kind() {
    let agg = AggregateSpec {
        kind: AggregateKind::Struct,
        fields: vec![field("a", 1, 1), field("b", 4, 4)],
    };
    let as_struct = analyze(&agg).unwrap();
    assert_eq!(as_struct.total_size, 8);
    let agg = AggregateSpec {
        kind: AggregateKind::Union,
        fields: vec![field("a", 1, 1), field("b", 4, 4)],
    };
    let as_union = analyze(&agg).unwrap();
    assert_eq!(as_union.total_size, 4);
    assert!(as_union.gaps.is_empty());
}

#[test]
fn single_field_struct_is_tight() {
    let fields = vec![field("only", 8, 8)];
    let report = analyze_struct(&fields).unwrap();
    assert!(report.gaps.is_empty());
    assert_eq!(report.total_size, 8);
    assert_eq!(report.alignment, 8);
    assert!(gap_names(&report).is_empty());
}

#[test]
fn gaps_are_reported_in_order() {
    let fields = vec![
        field("a", 1, 1),
        field("b", 1, 2),
        field("c", 4, 4),
        field("d", 1, 1),
    ];
    let report = analyze_struct(&fields).unwrap();
    let names = gap_names(&report);
    assert_eq!(
        names,
        vec![Some("b".to_string()), Some("c".to_string()), None]
    );
    assert_eq!(report.gaps[0].offset, 1);
    assert_eq!(report.gaps[0].length, 1);
    assert_eq!(report.gaps[1].offset, 3);
    assert_eq!(report.gaps[1].length, 1);
    assert_eq!(report.gaps[2].offset, 9);
    assert_eq!(report.gaps[2].length, 3);
    assert_eq!(report.total_size, 12);
    assert_eq!(report.alignment, 4);
}
