use dirtree::collect::{admits, collect_entries, is_hidden, within_depth};
use dirtree::entry::{depths, Entry, EntryKind, Timestamp};
use dirtree::layout::prefixes;

fn entry(depth: usize, name: &str, kind: EntryKind) -> Entry {
    Entry {
        path: format!("fixture/{}", name),
        depth,
        name: name.to_string(),
        kind,
        size: 0,
        modified_at: Timestamp { seconds: 0, utc_offset: 0 },
        link_target: None,
    }
}

fn names(entries: &[Entry]) -> Vec<String> {
    entries.iter().map(|e| e.name.clone()).collect()
}

fn drawn(entries: &Vec<Entry>) -> Vec<String> {
    prefixes(&depths(entries)).iter().zip(entries).map(|(p, e)| format!("{}{}", p, e.name)).collect()
}

fn fixture_with_secret() -> Vec<Entry> {
    vec![
        entry(0, "root", EntryKind::Directory),
        entry(1, ".secret", EntryKind::File),
        entry(1, "a", EntryKind::Directory),
        entry(2, "x.txt", EntryKind::File),
        entry(1, "b.txt", EntryKind::File),
    ]
}

#[test]
fn name_with_leading_dot_is_hidden() {
    assert!(is_hidden(".secret"));
    assert!(is_hidden("."));
    assert!(is_hidden(".."));
    assert!(is_hidden(".a.b"));
}

#[test]
fn name_without_leading_dot_is_not_hidden() {
    assert!(!is_hidden("secret"));
    assert!(!is_hidden("a.txt"));
    assert!(!is_hidden(""));
    assert!(!is_hidden(" .x"));
    assert!(!is_hidden("é."));
}

#[test]
fn root_is_admitted_whatever_its_name() {
    assert!(admits(0, ".", false));
    assert!(admits(0, ".config", false));
    assert!(admits(0, "root", false));
}

#[test]
fn hidden_entry_is_admitted_only_on_request() {
    assert!(!admits(1, ".secret", false));
    assert!(admits(1, ".secret", true));
    assert!(admits(1, "plain", false));
    assert!(admits(3, "plain", true));
}

#[test]
fn depth_limit_includes_the_limit_itself() {
    assert!(within_depth(0, Some(1)));
    assert!(within_depth(1, Some(1)));
    assert!(!within_depth(2, Some(1)));
    assert!(within_depth(0, Some(0)));
    assert!(!within_depth(1, Some(0)));
    assert!(within_depth(usize::MAX, None));
}

#[test]
fn secret_is_left_out_unless_hidden_entries_are_included() {
    let walked = fixture_with_secret();
    let shown = collect_entries(&walked, false, None);
    assert_eq!(names(&shown), vec!["root", "a", "x.txt", "b.txt"]);
    assert_eq!(drawn(&shown), vec!["root", "├── a", "│   └── x.txt", "└── b.txt"]);
}

#[test]
fn secret_is_shown_in_its_place_when_hidden_entries_are_included() {
    let walked = fixture_with_secret();
    let shown = collect_entries(&walked, true, None);
    assert_eq!(shown, walked);
    assert_eq!(
        drawn(&shown),
        vec!["root", "├── .secret", "├── a", "│   └── x.txt", "└── b.txt"]
    );
}

#[test]
fn hidden_directory_takes_its_subtree_along() {
    let walked = vec![
        entry(0, "root", EntryKind::Directory),
        entry(1, ".git", EntryKind::Directory),
        entry(2, "config", EntryKind::File),
        entry(2, "objects", EntryKind::Directory),
        entry(3, "ab", EntryKind::File),
        entry(1, "src", EntryKind::Directory),
        entry(2, ".cache", EntryKind::Directory),
        entry(3, "blob", EntryKind::File),
        entry(2, "main.rs", EntryKind::File),
    ];
    let shown = collect_entries(&walked, false, None);
    assert_eq!(names(&shown), vec!["root", "src", "main.rs"]);
    // src is followed by its own child, so the lookahead rule does not
    // count it as the last of its branch
    assert_eq!(drawn(&shown), vec!["root", "├── src", "│   └── main.rs"]);
}

#[test]
fn hidden_entry_inside_a_hidden_directory_does_not_end_the_cut() {
    let walked = vec![
        entry(0, "root", EntryKind::Directory),
        entry(1, ".outer", EntryKind::Directory),
        entry(2, ".inner", EntryKind::Directory),
        entry(3, "deep", EntryKind::File),
        entry(2, "visible_name", EntryKind::File),
        entry(1, "after", EntryKind::File),
    ];
    assert_eq!(names(&collect_entries(&walked, false, None)), vec!["root", "after"]);
}

#[test]
fn hidden_root_is_shown_with_what_lies_below() {
    let walked = vec![
        entry(0, ".dotfiles", EntryKind::Directory),
        entry(1, "vimrc", EntryKind::File),
        entry(1, ".hidden", EntryKind::File),
    ];
    assert_eq!(names(&collect_entries(&walked, false, None)), vec![".dotfiles", "vimrc"]);
}

#[test]
fn depth_limit_one_drops_the_deeper_entries() {
    let walked = vec![
        entry(0, "root", EntryKind::Directory),
        entry(1, "a", EntryKind::Directory),
        entry(2, "x.txt", EntryKind::File),
        entry(3, "never", EntryKind::File),
        entry(1, "b", EntryKind::Directory),
        entry(2, "y.txt", EntryKind::File),
    ];
    let shown = collect_entries(&walked, false, Some(1));
    assert_eq!(names(&shown), vec!["root", "a", "b"]);
    assert!(shown.iter().all(|e| e.depth <= 1));
}

#[test]
fn depth_limit_lays_out_what_stays_among_itself() {
    // unlimited, b is followed by its child and so is not the last entry of
    // its branch; under the limit it ends the walk
    let walked = vec![
        entry(0, "root", EntryKind::Directory),
        entry(1, "a", EntryKind::Directory),
        entry(2, "x.txt", EntryKind::File),
        entry(1, "b", EntryKind::Directory),
        entry(2, "y.txt", EntryKind::File),
    ];
    assert_eq!(
        drawn(&collect_entries(&walked, false, None)),
        vec!["root", "├── a", "│   └── x.txt", "├── b", "│   └── y.txt"]
    );
    let limited = collect_entries(&walked, false, Some(1));
    assert_eq!(drawn(&limited), vec!["root", "├── a", "└── b"]);
    let cut = vec![
        entry(0, "root", EntryKind::Directory),
        entry(1, "a", EntryKind::Directory),
        entry(1, "b", EntryKind::Directory),
    ];
    assert_eq!(limited, collect_entries(&cut, false, None));
}

#[test]
fn depth_limit_zero_shows_the_root_alone() {
    let shown = collect_entries(&fixture_with_secret(), true, Some(0));
    assert_eq!(names(&shown), vec!["root"]);
}

#[test]
fn depth_limit_and_hidden_policy_work_together() {
    let walked = vec![
        entry(0, "root", EntryKind::Directory),
        entry(1, ".git", EntryKind::Directory),
        entry(2, "config", EntryKind::File),
        entry(1, "src", EntryKind::Directory),
        entry(2, "lib", EntryKind::Directory),
        entry(3, "deep.rs", EntryKind::File),
    ];
    assert_eq!(names(&collect_entries(&walked, false, Some(2))), vec!["root", "src", "lib"]);
    assert_eq!(
        names(&collect_entries(&walked, true, Some(2))),
        vec!["root", ".git", "config", "src", "lib"]
    );
}

#[test]
fn unfiltered_walk_is_shown_whole() {
    let walked = fixture_with_secret();
    assert_eq!(collect_entries(&walked, true, None), walked);
    assert_eq!(collect_entries(&Vec::new(), false, Some(3)), Vec::<Entry>::new());
}

#[test]
fn depths_are_read_in_order() {
    assert_eq!(depths(&fixture_with_secret()), vec![0, 1, 1, 2, 1]);
    assert_eq!(depths(&Vec::new()), Vec::<usize>::new());
}

#[test]
fn clone_of_an_entry_is_equal_to_it() {
    let mut link = entry(4, "link", EntryKind::Symlink);
    link.link_target = Some("../target".to_string());
    link.size = 9;
    link.modified_at = Timestamp { seconds: -5, utc_offset: 3600 };
    assert_eq!(link.clone(), link);
}

fn is_preorder(depths: &[usize]) -> bool {
    depths.first().map_or(true, |&d| d == 0)
        && depths.windows(2).all(|pair| 0 < pair[1] && pair[1] <= pair[0] + 1)
}

#[test]
fn what_is_shown_of_a_preorder_walk_is_a_preorder_walk() {
    let walked = vec![
        entry(0, "root", EntryKind::Directory),
        entry(1, "a", EntryKind::Directory),
        entry(2, ".b", EntryKind::Directory),
        entry(3, "c", EntryKind::Directory),
        entry(4, "d", EntryKind::File),
        entry(2, "e", EntryKind::Directory),
        entry(3, "f", EntryKind::Directory),
        entry(4, ".g", EntryKind::File),
        entry(4, "h", EntryKind::File),
        entry(1, ".i", EntryKind::File),
        entry(1, "j", EntryKind::File),
    ];
    assert!(is_preorder(&depths(&walked)));
    for include_hidden in [false, true] {
        for max_depth in [None, Some(0), Some(1), Some(2), Some(3), Some(4), Some(9)] {
            let shown = collect_entries(&walked, include_hidden, max_depth);
            assert!(is_preorder(&depths(&shown)), "{} {:?}", include_hidden, max_depth);
            assert_eq!(shown[0], walked[0]);
        }
    }
    assert_eq!(
        names(&collect_entries(&walked, false, Some(3))),
        vec!["root", "a", "e", "f", "j"]
    );
}
