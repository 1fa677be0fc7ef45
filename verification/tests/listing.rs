use dirlist::entry::{ListingEntry, RawEntry, RawKind};
use dirlist::render::{render, render_line, sort_entries};
use dirlist::order::name_le;

const ICON_ERROR: &str = "\u{2753}\u{FE0E}";
const ICON_FILE: &str = "\u{1F5CE}\u{FE0E} ";
const ICON_DIRECTORY: &str = "\u{1F4C1}\u{FE0E}";
const ICON_SYMLINK: &str = "\u{1F517}\u{FE0E}";
const ICON_SOCKET: &str = "\u{1F50C}\u{FE0E}";
const ICON_PIPE: &str = "\u{1F6B0}\u{FE0E}";
const ICON_CHAR_DEVICE: &str = "\u{1F5A8}\u{FE0E}";
const ICON_BLOCK_DEVICE: &str = "\u{1F4BF}\u{FE0E}";
const ICON_DISK: &str = "\u{1F5D4}\u{FE0E}";
const ICON_DEV_NULL: &str = "\u{1F6BD}\u{FE0E}";
const ICON_TTY: &str = "\u{1F4BB}\u{FE0E}";

fn raw(name: Option<&str>, kind: Option<RawKind>) -> RawEntry {
    RawEntry {
        name: name.map(|n| n.to_string()),
        kind,
        link_target: None,
        dev_id: None,
    }
}

#[test]
fn constructors_carry_name_and_icon() {
    assert_eq!(ListingEntry::new_regular("a.txt").get_name(), "a.txt");
    assert_eq!(ListingEntry::new_regular("a.txt").get_icon(), ICON_FILE);
    assert_eq!(ListingEntry::new_dir("d").get_icon(), ICON_DIRECTORY);
    assert_eq!(ListingEntry::new_symlink("l", "t").get_icon(), ICON_SYMLINK);
    assert_eq!(ListingEntry::new_unknown("u").get_icon(), ICON_ERROR);
    assert_eq!(ListingEntry::new_pipe("p").get_icon(), ICON_PIPE);
    assert_eq!(ListingEntry::new_socket("s").get_icon(), ICON_SOCKET);
    assert_eq!(ListingEntry::new_block_device("b", 7).get_icon(), ICON_BLOCK_DEVICE);
}

#[test]
fn is_directory_reports_the_variant() {
    assert!(ListingEntry::new_dir("d").is_directory());
    assert!(!ListingEntry::new_regular("f").is_directory());
    assert!(!ListingEntry::new_symlink("l", "t").is_directory());
    assert!(!ListingEntry::new_unknown("u").is_directory());
}

#[test]
fn char_device_null_icon() {
    // major 1, minor 3: bits 8..16 hold 0x01, bits 0..8 hold 0x03
    let e = ListingEntry::new_char_device("null", 0x0103);
    assert_eq!(e.get_icon(), ICON_DEV_NULL);
}

#[test]
fn char_device_tty_icons() {
    // the whole legacy terminal major
    assert_eq!(ListingEntry::new_char_device("tty1", 0x0400).get_icon(), ICON_TTY);
    assert_eq!(ListingEntry::new_char_device("tty63", 0x04ff).get_icon(), ICON_TTY);
    // controlling tty and console: major 5, minor 0 or 1
    assert_eq!(ListingEntry::new_char_device("tty", 0x0500).get_icon(), ICON_TTY);
    assert_eq!(ListingEntry::new_char_device("console", 0x0501).get_icon(), ICON_TTY);
    // major 5, any other minor, is not a terminal
    assert_eq!(ListingEntry::new_char_device("ptmx", 0x0502).get_icon(), ICON_CHAR_DEVICE);
}

#[test]
fn char_device_disk_icon() {
    assert_eq!(ListingEntry::new_char_device("nvme", 0xf100).get_icon(), ICON_DISK);
    assert_eq!(ListingEntry::new_char_device("nvme2", 0xf17f).get_icon(), ICON_DISK);
}

#[test]
fn char_device_generic_icon() {
    assert_eq!(ListingEntry::new_char_device("mem", 0x0303).get_icon(), ICON_CHAR_DEVICE);
    assert_eq!(ListingEntry::new_char_device("zero", 0).get_icon(), ICON_CHAR_DEVICE);
}

#[test]
fn classify_covers_every_kind() {
    let e = ListingEntry::from_dentry(raw(Some("d"), Some(RawKind::Directory)));
    assert!(e.is_directory());
    assert_eq!(e.get_icon(), ICON_DIRECTORY);
    let e = ListingEntry::from_dentry(raw(Some("f"), Some(RawKind::Other)));
    assert_eq!(e.get_icon(), ICON_FILE);
    let e = ListingEntry::from_dentry(raw(Some("p"), Some(RawKind::Fifo)));
    assert_eq!(e.get_icon(), ICON_PIPE);
    let e = ListingEntry::from_dentry(raw(Some("s"), Some(RawKind::Socket)));
    assert_eq!(e.get_icon(), ICON_SOCKET);
    let mut r = raw(Some("l"), Some(RawKind::Symlink));
    r.link_target = Some("dest".to_string());
    let e = ListingEntry::from_dentry(r);
    assert_eq!(e.get_icon(), ICON_SYMLINK);
    let mut r = raw(Some("c"), Some(RawKind::CharDevice));
    r.dev_id = Some(0x0103);
    let e = ListingEntry::from_dentry(r);
    assert_eq!(e.get_icon(), ICON_DEV_NULL);
    let mut r = raw(Some("b"), Some(RawKind::BlockDevice));
    r.dev_id = Some(0x0800);
    let e = ListingEntry::from_dentry(r);
    assert_eq!(e.get_icon(), ICON_BLOCK_DEVICE);
}

#[test]
fn classify_unreadable_name() {
    // a name that cannot be decoded classifies as Unknown("???")
    let e = ListingEntry::from_dentry(raw(None, Some(RawKind::Directory)));
    assert_eq!(e.get_name(), "???");
    assert_eq!(e.get_icon(), ICON_ERROR);
    assert!(!e.is_directory());
}

#[test]
fn classify_unreadable_type() {
    // the type query failed: the name is kept, the type is unknown
    let e = ListingEntry::from_dentry(raw(Some("odd"), None));
    assert_eq!(e.get_name(), "odd");
    assert_eq!(e.get_icon(), ICON_ERROR);
}

#[test]
fn classify_unreadable_link_target() {
    let e = ListingEntry::from_dentry(raw(Some("l"), Some(RawKind::Symlink)));
    assert_eq!(render_line(&e), format!("{} l -> ???", ICON_SYMLINK));
}

#[test]
fn classify_unreadable_device_metadata() {
    // the metadata read failed: the device id defaults to 0
    let e = ListingEntry::from_dentry(raw(Some("c"), Some(RawKind::CharDevice)));
    assert_eq!(e.get_icon(), ICON_CHAR_DEVICE);
    let e = ListingEntry::from_dentry(raw(Some("b"), Some(RawKind::BlockDevice)));
    assert_eq!(e.get_icon(), ICON_BLOCK_DEVICE);
}

#[test]
fn name_le_is_lexicographic() {
    assert!(name_le("a", "b"));
    assert!(!name_le("b", "a"));
    assert!(name_le("abc", "abd"));
    assert!(name_le("", "x"));
    assert!(!name_le("x", ""));
    assert!(name_le("ab", "abc"));
    assert!(!name_le("abc", "ab"));
    assert!(name_le("same", "same"));
    // case-sensitive: upper case sorts before lower case
    assert!(name_le("B", "a"));
}

#[test]
fn sort_orders_by_name() {
    let entries = vec![
        ListingEntry::new_regular("pear"),
        ListingEntry::new_dir("apple"),
        ListingEntry::new_regular("fig"),
        ListingEntry::new_dir("quince"),
    ];
    let sorted = sort_entries(entries);
    let names: Vec<String> = sorted.iter().map(|e| e.get_name()).collect();
    assert_eq!(names, vec!["apple", "fig", "pear", "quince"]);
}

#[test]
fn render_symlink_line_format() {
    // the line for a symlink holds " -> " and the target after the name
    let e = ListingEntry::new_symlink("link", "some/where");
    let line = render_line(&e);
    assert_eq!(line, format!("{} link -> some/where", ICON_SYMLINK));
    assert!(line.contains(" -> some/where"));
}

#[test]
fn render_plain_line_format() {
    let e = ListingEntry::new_dir("home");
    assert_eq!(render_line(&e), format!("{} home", ICON_DIRECTORY));
}

#[test]
fn render_preserves_entry_count() {
    let entries = vec![
        ListingEntry::new_regular("a"),
        ListingEntry::new_dir("b"),
        ListingEntry::new_unknown("???"),
        ListingEntry::new_unknown("???"),
        ListingEntry::new_pipe("p"),
    ];
    let lines = render(entries);
    assert_eq!(lines.len(), 5);
}

#[test]
fn render_empty_listing() {
    let lines = render(Vec::new());
    assert_eq!(lines.len(), 0);
}

#[test]
fn render_directories_first_each_block_sorted() {
    let entries = vec![
        ListingEntry::new_regular("zeta"),
        ListingEntry::new_dir("omega"),
        ListingEntry::new_regular("alpha"),
        ListingEntry::new_dir("beta"),
        ListingEntry::new_socket("mid"),
    ];
    let lines = render(entries);
    assert_eq!(
        lines,
        vec![
            format!("{} beta", ICON_DIRECTORY),
            format!("{} omega", ICON_DIRECTORY),
            format!("{} alpha", ICON_FILE),
            format!("{} mid", ICON_SOCKET),
            format!("{} zeta", ICON_FILE),
        ]
    );
}

#[test]
fn render_twice_gives_identical_output() {
    let build = || {
        vec![
            ListingEntry::new_dir("docs"),
            ListingEntry::new_symlink("link", "docs"),
            ListingEntry::new_regular("readme"),
            ListingEntry::new_char_device("null", 0x0103),
        ]
    };
    let first = render(build());
    let second = render(build());
    assert_eq!(first, second);
}

#[test]
fn render_duplicate_placeholder_names() {
    // two synthesized placeholders share a name; both survive rendering
    let entries = vec![
        ListingEntry::new_unknown("???"),
        ListingEntry::new_unknown("???"),
    ];
    let lines = render(entries);
    assert_eq!(lines, vec![
        format!("{} ???", ICON_ERROR),
        format!("{} ???", ICON_ERROR),
    ]);
}
