use padcheck::align::{is_power_of_two, round_up_to};
use padcheck::analyze::analyze_struct;
use padcheck::field::{filter_fields, is_ignored_name, FieldSpec};
use padcheck::render::{decimal_string, render_gap, render_report};
use padcheck::report::Gap;

fn field(name: &str, size: usize, alignment: usize) -> FieldSpec {
    FieldSpec::new(name.to_string(), size, alignment)
}

#[test]
fn decimal_rendering() {
    assert_eq!(decimal_string(0), "0");
    assert_eq!(decimal_string(7), "7");
    assert_eq!(decimal_string(10), "10");
    assert_eq!(decimal_string(123), "123");
    assert_eq!(decimal_string(40960), "40960");
}

#[test]
fn render_inter_field_gap() {
    let gap = Gap { before_field: Some("word".to_string()), offset: 1, length: 3 };
    assert_eq!(render_gap(&gap), "3-byte padding before \"word\"");
}

#[test]
fn render_trailing_gap() {
    let gap = Gap { before_field: None, offset: 5, length: 3 };
    assert_eq!(render_gap(&gap), "3-byte padding at the end");
}

#[test]
fn render_whole_report() {
    let fields = vec![field("small", 1, 1), field("word", 4, 4), field("tail", 1, 1)];
    let report = analyze_struct(&fields).unwrap();
    let lines = render_report(&report);
    assert_eq!(
        lines,
        vec![
            "3-byte padding before \"word\"".to_string(),
            "3-byte padding at the end".to_string(),
        ]
    );
}

#[test]
fn underscore_names_are_ignored() {
    assert!(is_ignored_name("_pad"));
    assert!(is_ignored_name("_"));
    assert!(!is_ignored_name("field"));
    assert!(!is_ignored_name(""));
    assert!(!is_ignored_name("pad_"));
}

#[test]
fn filter_drops_ignored_fields() {
    let fields = vec![
        field("_bindgen_padding", 3, 1),
        field("x", 4, 4),
        field("_reserved", 8, 8),
        field("y", 2, 2),
    ];
    let kept = filter_fields(&fields);
    let names: Vec<&str> = kept.iter().map(|f| f.name.as_str()).collect();
    assert_eq!(names, vec!["x", "y"]);
    assert_eq!(kept[0].size, 4);
    assert_eq!(kept[0].alignment, 4);
    assert_eq!(kept[1].size, 2);
    assert_eq!(kept[1].alignment, 2);
}

#[test]
fn power_of_two_check() {
    assert!(is_power_of_two(1));
    assert!(is_power_of_two(2));
    assert!(is_power_of_two(64));
    assert!(!is_power_of_two(0));
    assert!(!is_power_of_two(3));
    assert!(!is_power_of_two(12));
}

#[test]
fn rounding_up() {
    assert_eq!(round_up_to(0, 1), 0);
    assert_eq!(round_up_to(5, 1), 5);
    assert_eq!(round_up_to(1, 4), 4);
    assert_eq!(round_up_to(8, 4), 8);
    assert_eq!(round_up_to(9, 8), 16);
}

#[test]
fn well_formedness_of_fields() {
    assert!(field("a", 4, 4).is_well_formed());
    assert!(field("a", 0, 1).is_well_formed());
    assert!(!field("a", 4, 0).is_well_formed());
    assert!(!field("a", 4, 12).is_well_formed());
}
