use dirtree::entry::{EntryKind, Timestamp};
use dirtree::line::{compose_line, decimal, display_name, join_lines};
use dirtree::stamp::stamp;
use dirtree::style::{paint, style_for, NameStyle};

#[test]
fn digits_are_written_as_numerals() {
    let written: Vec<String> = (0..10).map(decimal).collect();
    assert_eq!(written, vec!["0", "1", "2", "3", "4", "5", "6", "7", "8", "9"]);
}

#[test]
fn rows_are_written_out_with_a_newline_each() {
    assert_eq!(join_lines(&Vec::new()), "");
    assert_eq!(join_lines(&vec!["root".to_string()]), "root\n");
    let rows = vec!["root".to_string(), "├── a".to_string(), String::new(), "└── b".to_string()];
    assert_eq!(join_lines(&rows), "root\n├── a\n\n└── b\n");
}

#[test]
fn numbers_are_written_in_decimal() {
    assert_eq!(decimal(0), "0");
    assert_eq!(decimal(7), "7");
    assert_eq!(decimal(10), "10");
    assert_eq!(decimal(407), "407");
    assert_eq!(decimal(1_000_000), "1000000");
    assert_eq!(decimal(u64::MAX), "18446744073709551615");
}

#[test]
fn decimal_agrees_with_the_standard_formatting() {
    for n in [1u64, 9, 11, 99, 100, 101, 4096, 65_535, 123_456_789, 9_999_999_999] {
        assert_eq!(decimal(n), n.to_string());
    }
}

#[test]
fn plain_entry_displays_its_name() {
    assert_eq!(display_name("notes.txt", EntryKind::File, &None), "notes.txt");
    assert_eq!(display_name("src", EntryKind::Directory, &None), "src");
    assert_eq!(display_name("pipe", EntryKind::Other, &None), "pipe");
}

#[test]
fn link_target_is_looked_at_for_links_only() {
    let target = Some("elsewhere".to_string());
    assert_eq!(display_name("notes.txt", EntryKind::File, &target), "notes.txt");
    assert_eq!(display_name("src", EntryKind::Directory, &target), "src");
}

#[test]
fn link_displays_name_arrow_and_target() {
    let target = Some("../shared/data".to_string());
    assert_eq!(display_name("data", EntryKind::Symlink, &target), "data -> ../shared/data");
}

#[test]
fn unreadable_link_displays_the_unresolved_marker() {
    assert_eq!(display_name("data", EntryKind::Symlink, &None), "data -> [unresolved]");
}

#[test]
fn line_is_prefix_name_size_and_time() {
    assert_eq!(
        compose_line("│   └── ", "x.txt", 1234, "2024-02-29 23:59:58"),
        "│   └── x.txt (1234 bytes, modified: 2024-02-29 23:59:58)"
    );
    assert_eq!(compose_line("", "root", 0, "when"), "root (0 bytes, modified: when)");
}

#[test]
fn epoch_is_written_as_date_and_time() {
    assert_eq!(
        stamp(&Timestamp { seconds: 0, utc_offset: 0 }),
        Some("1970-01-01 00:00:00".to_string())
    );
}

#[test]
fn time_is_written_to_the_second_with_leading_zeros() {
    assert_eq!(
        stamp(&Timestamp { seconds: 1_431_648_000, utc_offset: 0 }),
        Some("2015-05-15 00:00:00".to_string())
    );
    assert_eq!(
        stamp(&Timestamp { seconds: 1_709_251_199, utc_offset: 0 }),
        Some("2024-02-29 23:59:59".to_string())
    );
    assert_eq!(
        stamp(&Timestamp { seconds: 951_782_645, utc_offset: 0 }),
        Some("2000-02-29 00:04:05".to_string())
    );
}

#[test]
fn time_is_written_in_the_local_zone() {
    assert_eq!(
        stamp(&Timestamp { seconds: 0, utc_offset: 3600 }),
        Some("1970-01-01 01:00:00".to_string())
    );
    assert_eq!(
        stamp(&Timestamp { seconds: 0, utc_offset: -5 * 3600 }),
        Some("1969-12-31 19:00:00".to_string())
    );
    assert_eq!(
        stamp(&Timestamp { seconds: 1_431_648_000, utc_offset: 19_800 }),
        Some("2015-05-15 05:30:00".to_string())
    );
}

#[test]
fn time_before_the_epoch_is_written() {
    assert_eq!(
        stamp(&Timestamp { seconds: -1, utc_offset: 0 }),
        Some("1969-12-31 23:59:59".to_string())
    );
}

#[test]
fn time_beyond_the_calendar_cannot_be_written() {
    assert_eq!(stamp(&Timestamp { seconds: i64::MAX, utc_offset: 0 }), None);
    assert_eq!(stamp(&Timestamp { seconds: i64::MIN, utc_offset: 0 }), None);
}

#[test]
fn offset_of_a_day_or_more_cannot_be_written() {
    assert_eq!(stamp(&Timestamp { seconds: 0, utc_offset: 86_400 }), None);
    assert_eq!(stamp(&Timestamp { seconds: 0, utc_offset: -86_400 }), None);
    assert!(stamp(&Timestamp { seconds: 0, utc_offset: 86_399 }).is_some());
}

#[test]
fn style_follows_the_kind_when_styling_is_on() {
    assert_eq!(style_for(EntryKind::Directory, true), NameStyle::Emphasized);
    assert_eq!(style_for(EntryKind::Symlink, true), NameStyle::Link);
    assert_eq!(style_for(EntryKind::File, true), NameStyle::Plain);
    assert_eq!(style_for(EntryKind::Other, true), NameStyle::Plain);
}

#[test]
fn every_name_is_plain_when_styling_is_off() {
    for kind in [EntryKind::Directory, EntryKind::Symlink, EntryKind::File, EntryKind::Other] {
        assert_eq!(style_for(kind, false), NameStyle::Plain);
    }
}

#[test]
fn plain_name_is_left_as_it_is() {
    assert_eq!(paint("notes.txt", NameStyle::Plain), "notes.txt");
    assert_eq!(paint("", NameStyle::Plain), "");
    assert_eq!(paint("\u{1b}[0m", NameStyle::Plain), "\u{1b}[0m");
}

#[test]
fn styled_name_carries_the_markers_of_its_style() {
    colored::control::set_override(true);
    assert_eq!(paint("src", NameStyle::Emphasized), "\u{1b}[1;34msrc\u{1b}[0m");
    assert_eq!(paint("data", NameStyle::Link), "\u{1b}[32mdata\u{1b}[0m");
    assert_eq!(paint("src", NameStyle::Plain), "src");
    for name in ["src", "x y", "", "a.b-c", "é"] {
        for style in [NameStyle::Emphasized, NameStyle::Link] {
            let painted = paint(name, style);
            assert!(painted.contains(name));
            assert_ne!(painted, name);
        }
    }
    // a reset sequence inside the name is patched up, so that the style
    // goes on behind it
    assert_eq!(
        paint("a\u{1b}[0mb", NameStyle::Link),
        "\u{1b}[32ma\u{1b}[0m\u{1b}[32mb\u{1b}[0m"
    );
    colored::control::set_override(false);
    assert_eq!(paint("src", NameStyle::Emphasized), "src");
    assert_eq!(paint("data", NameStyle::Link), "data");
}
