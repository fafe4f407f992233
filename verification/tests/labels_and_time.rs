use restitch::labels::{select_latest, str_lex_le};
use restitch::timestamp::{format_label, label_for, make_backup_label, Timestamp};

#[test]
fn revert_selects_the_lexicographically_greatest_label() {
    let labels = vec!["2024-01-01_00-00-00".to_string(), "2024-02-01_00-00-00".to_string()];
    let best = select_latest(&labels).unwrap();
    assert_eq!(labels[best], "2024-02-01_00-00-00");
}

#[test]
fn latest_selection_ignores_listing_order() {
    let labels = vec![
        "2024-06-30_23-59-59".to_string(),
        "2023-12-31_23-59-59".to_string(),
        "2024-07-01_00-00-00".to_string(),
        "2024-01-01_00-00-00".to_string(),
    ];
    let best = select_latest(&labels).unwrap();
    assert_eq!(labels[best], "2024-07-01_00-00-00");
}

#[test]
fn no_backups_means_nothing_to_revert() {
    assert_eq!(select_latest(&vec![]), None);
}

#[test]
fn a_single_backup_is_selected() {
    let labels = vec!["2022-05-05_05-05-05".to_string()];
    assert_eq!(select_latest(&labels), Some(0));
}

#[test]
fn lexicographic_comparison_on_strings() {
    assert!(str_lex_le("2024-01-01_00-00-00", "2024-02-01_00-00-00"));
    assert!(!str_lex_le("2024-02-01_00-00-00", "2024-01-01_00-00-00"));
    assert!(str_lex_le("abc", "abc"));
    assert!(str_lex_le("ab", "abc"));
    assert!(!str_lex_le("abc", "ab"));
    assert!(str_lex_le("", "a"));
}

#[test]
fn labels_are_fixed_width_and_zero_padded() {
    let ts = Timestamp { year: 2024, month: 1, day: 1, hour: 0, minute: 0, second: 0 };
    assert_eq!(format_label(&ts), "2024-01-01_00-00-00");
    let ts = Timestamp { year: 987, month: 12, day: 31, hour: 23, minute: 59, second: 9 };
    assert_eq!(format_label(&ts), "0987-12-31_23-59-09");
}

#[test]
fn label_order_is_chronological_order() {
    let earlier = Timestamp { year: 2024, month: 1, day: 31, hour: 23, minute: 59, second: 59 };
    let later = Timestamp { year: 2024, month: 2, day: 1, hour: 0, minute: 0, second: 0 };
    assert!(str_lex_le(&format_label(&earlier), &format_label(&later)));
    assert!(!str_lex_le(&format_label(&later), &format_label(&earlier)));
}

#[test]
fn the_clock_yields_a_well_formed_label() {
    let label = make_backup_label().unwrap();
    assert_eq!(label.chars().count(), 19);
    assert_eq!(label.chars().nth(4), Some('-'));
    assert_eq!(label.chars().nth(10), Some('_'));
}

#[test]
fn listing_orders_backups_newest_first() {
    let labels = vec![
        "2023-12-31_23-59-59".to_string(),
        "2024-07-01_00-00-00".to_string(),
        "2024-01-01_00-00-00".to_string(),
    ];
    let sorted = restitch::labels::sort_labels_desc(&labels);
    assert_eq!(
        sorted,
        vec![
            "2024-07-01_00-00-00".to_string(),
            "2024-01-01_00-00-00".to_string(),
            "2023-12-31_23-59-59".to_string(),
        ]
    );
}

#[test]
fn label_for_accepts_exactly_what_the_format_carries() {
    let ts = Timestamp { year: 2024, month: 1, day: 1, hour: 0, minute: 0, second: 0 };
    assert_eq!(label_for(&ts), Some("2024-01-01_00-00-00".to_string()));
    let far = Timestamp { year: 10000, month: 1, day: 1, hour: 0, minute: 0, second: 0 };
    assert_eq!(label_for(&far), None);
    let early = Timestamp { year: -1, month: 1, day: 1, hour: 0, minute: 0, second: 0 };
    assert_eq!(label_for(&early), None);
    let odd = Timestamp { year: 2024, month: 13, day: 1, hour: 0, minute: 0, second: 0 };
    assert_eq!(label_for(&odd), None);
}
