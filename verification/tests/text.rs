use gdu_core::options::{
    add_option, has_option, remove_option, split_options, update_check_option,
    update_entry_option, OptionChange,
};
use gdu_core::text::{
    arg_replace, c_style_format, chars_of, ends_with, matches_at, replace_all, replace_first,
    same_text, starts_with, unfuse_path,
};

fn chars(text: &str) -> Vec<char> {
    text.chars().collect()
}

#[test]
fn unfuse_path_home() {
    let path = "tests/text.rs";
    let home = "/home/user";
    assert_eq!(
        path.replace(home, "~"),
        unfuse_path(path, "file:///work/tests/text.rs", "", home)
    );
}

#[test]
fn unfuse_path_without_home() {
    let path = "/root";
    assert_eq!(path, unfuse_path(path, "file:///root", "file:///root", "/home/user"));
}

#[test]
fn unfuse_path_puts_a_tilde_for_home() {
    assert_eq!(
        unfuse_path("/home/user/disk.img", "file:///home/user/disk.img", "", "/home/user"),
        "~/disk.img"
    );
    assert_eq!(unfuse_path("/home/user", "file:///home/user", "", "/home/user"), "~/");
    assert_eq!(unfuse_path("/home/user/", "file:///home/user/", "", "/home/user"), "~/");
    assert_eq!(
        unfuse_path("/home/username/a", "file:///home/username/a", "", "/home/user"),
        "~/name/a"
    );
    assert_eq!(unfuse_path("/srv/a", "file:///srv/a", "", "/home/user"), "/srv/a");
}

#[test]
fn unfuse_path_shows_the_uri_of_what_is_not_local() {
    assert_eq!(
        unfuse_path(
            "/run/user/1000/gvfs/smb-share:server=nas,share=a/my disk.img",
            "smb://nas/a/my%20disk.img",
            "smb://nas/a/my disk.img",
            "/home/user"
        ),
        "smb://nas/a/my disk.img"
    );
}

#[test]
fn chars_and_comparisons() {
    assert_eq!(chars_of("aäz"), vec!['a', 'ä', 'z']);
    assert_eq!(chars_of(""), Vec::<char>::new());
    assert!(same_text("abc", "abc"));
    assert!(!same_text("abc", "abd"));
    assert!(!same_text("abc", "ab"));
    assert!(same_text("", ""));
    assert!(starts_with("/dev/ram0", "/dev/ram"));
    assert!(!starts_with("/dev/ra", "/dev/ram"));
    assert!(starts_with("x", ""));
    assert!(ends_with("a-xz-compressed", "-xz-compressed"));
    assert!(!ends_with("compressed", "-xz-compressed"));
    assert!(matches_at(&chars("hello"), &chars("ll"), 2));
    assert!(!matches_at(&chars("hello"), &chars("ll"), 3));
    assert!(!matches_at(&chars("hello"), &chars("lo"), 4));
    assert!(matches_at(&chars("hello"), &chars(""), 5));
    assert!(!matches_at(&chars("hello"), &chars(""), 6));
}

#[test]
fn replace_first_takes_the_leftmost() {
    assert_eq!(replace_first(&chars("a%sb%sc"), &chars("%s"), &chars("XY")), chars("aXYb%sc"));
    assert_eq!(replace_first(&chars("abc"), &chars("%s"), &chars("XY")), chars("abc"));
    assert_eq!(replace_first(&chars("ab%s"), &chars("%s"), &chars("")), chars("ab"));
    assert_eq!(replace_first(&chars("%"), &chars("%s"), &chars("x")), chars("%"));
    assert_eq!(replace_first(&chars("abc"), &chars(""), &chars("x")), chars("xabc"));
    assert_eq!(replace_first(&chars(""), &chars(""), &chars("x")), chars("x"));
    assert_eq!(replace_first(&chars("aaa"), &chars("aa"), &chars("b")), chars("ba"));
}

#[test]
fn replace_all_goes_from_the_left_without_looking_back() {
    assert_eq!(replace_all(&chars("{} and {}"), &chars("{}"), &chars("%s")), chars("%s and %s"));
    assert_eq!(replace_all(&chars("aaa"), &chars("aa"), &chars("b")), chars("ba"));
    assert_eq!(replace_all(&chars("aaaa"), &chars("aa"), &chars("a")), chars("aa"));
    assert_eq!(replace_all(&chars("abc"), &chars(""), &chars("x")), chars("abc"));
    assert_eq!(replace_all(&chars("{"), &chars("{}"), &chars("%s")), chars("{"));
    assert_eq!(c_style_format("Hello, {}!"), "Hello, %s!");
    assert_eq!(c_style_format("{} when decompressed"), "%s when decompressed");
    assert_eq!(c_style_format("{{}}"), "{%s}");
    assert_eq!(c_style_format("nothing"), "nothing");
}

#[test]
fn arg_replace_fills_the_placeholders_in_turn() {
    assert_eq!(arg_replace("Hello, %s!".to_string(), &["world"]), "Hello, world!");
    assert_eq!(arg_replace("%s, %s and %s".to_string(), &["1 year", "2 months", "3 days"]),
        "1 year, 2 months and 3 days");
    assert_eq!(arg_replace("%s and %s".to_string(), &["a"]), "a and %s");
    assert_eq!(arg_replace("%s".to_string(), &["a", "b"]), "a");
    assert_eq!(arg_replace("none".to_string(), &["a"]), "none");
    assert_eq!(arg_replace("%s".to_string(), &[]), "%s");
    // what an argument brings in is text like any other
    assert_eq!(arg_replace("%s-%s".to_string(), &["<%s>", "x"]), "<x>-%s");
}

#[test]
fn options_are_parted_by_commas() {
    assert_eq!(split_options(&chars("a,b,,c")), vec![chars("a"), chars("b"), chars(""), chars("c")]);
    assert_eq!(split_options(&chars("")), vec![chars("")]);
    assert_eq!(split_options(&chars(",")), vec![chars(""), chars("")]);
    assert_eq!(split_options(&chars("noauto")), vec![chars("noauto")]);
}

#[test]
fn has_option_finds_the_option_or_its_value() {
    assert_eq!(has_option("ro,noauto,x-gvfs-name=Disk", "noauto", false), (true, None));
    assert_eq!(has_option("ro,noauto", "auto", false), (false, None));
    assert_eq!(has_option("ro,noauto", "no", false), (false, None));
    assert_eq!(
        has_option("ro,x-gvfs-name=Disk,x-gvfs-name=Other", "x-gvfs-name=", true),
        (true, Some("Disk".to_string()))
    );
    assert_eq!(has_option("ro,noauto", "no", true), (true, Some("auto".to_string())));
    assert_eq!(has_option("ro,noauto", "x-gvfs-name=", true), (false, None));
    assert_eq!(has_option("", "", false), (true, None));
    assert_eq!(has_option("", "", true), (true, Some("".to_string())));
    assert_eq!(has_option("", "ro", false), (false, None));
}

#[test]
fn add_option_puts_a_comma_between_old_and_new() {
    assert_eq!(add_option("ro", "", "noauto", false), "ro,noauto");
    assert_eq!(add_option("", "", "noauto", false), "noauto");
    assert_eq!(add_option("ro", "x-gvfs-name=", "Disk", false), "ro,x-gvfs-name=Disk");
    assert_eq!(add_option("ro", "", "noauto", true), "noauto,ro");
    assert_eq!(add_option("", "", "noauto", true), "noauto");
    assert_eq!(add_option("ro", "p=", "v", true), "v,p=ro");
}

#[test]
fn remove_option_joins_the_pieces_that_are_the_option() {
    assert_eq!(remove_option("ro,noauto,ro", "ro", false), "ro,ro");
    assert_eq!(remove_option("ro,noauto", "auto", false), "");
    assert_eq!(remove_option("a=1,b,a=2", "a=", true), "a=1,a=2");
    assert_eq!(remove_option("a=1,b,a=2", "a=", false), "");
    assert_eq!(remove_option("", "ro", false), "");
}

#[test]
fn check_option_follows_whoever_changed() {
    assert!(matches!(update_check_option("ro", "ro", true, true, false, false), OptionChange::Keep));
    assert!(matches!(update_check_option("rw", "ro", true, false, false, false), OptionChange::Keep));
    assert!(matches!(update_check_option("ro", "ro", true, false, true, false), OptionChange::Keep));
    match update_check_option("rw", "ro", true, true, false, false) {
        OptionChange::SetText(line) => assert_eq!(line, "rw,ro"),
        other => panic!("{:?}", other),
    }
    match update_check_option("rw", "ro", true, true, false, true) {
        OptionChange::SetText(line) => assert_eq!(line, "ro,rw"),
        other => panic!("{:?}", other),
    }
    match update_check_option("rw", "noauto", true, false, true, false) {
        OptionChange::SetText(line) => assert_eq!(line, "rw,noauto"),
        other => panic!("{:?}", other),
    }
    match update_check_option("rw,ro", "ro", true, false, false, false) {
        OptionChange::SetText(line) => assert_eq!(line, "ro"),
        other => panic!("{:?}", other),
    }
    assert!(matches!(
        update_check_option("rw,ro", "ro", false, false, false, false),
        OptionChange::SetActive(true)
    ));
    assert!(matches!(
        update_check_option("rw", "ro", false, true, false, false),
        OptionChange::SetActive(false)
    ));
    assert!(matches!(
        update_check_option("rw,noauto", "noauto", false, true, true, false),
        OptionChange::SetActive(false)
    ));
    assert!(matches!(
        update_check_option("rw", "noauto", false, false, true, false),
        OptionChange::SetActive(true)
    ));
}

#[test]
fn entry_option_follows_whoever_changed() {
    assert!(matches!(
        update_entry_option("ro,x-gvfs-name=My%20Disk", "x-gvfs-name=", true, "My Disk", "My%20Disk"),
        OptionChange::Keep
    ));
    assert!(matches!(update_entry_option("ro", "x-gvfs-name=", true, "", ""), OptionChange::Keep));
    match update_entry_option("ro,x-gvfs-name=Old", "x-gvfs-name=", false, "New", "New") {
        OptionChange::SetEntry(value) => assert_eq!(value, "Old"),
        other => panic!("{:?}", other),
    }
    match update_entry_option("ro", "x-gvfs-name=", false, "New", "New") {
        OptionChange::SetEntry(value) => assert_eq!(value, ""),
        other => panic!("{:?}", other),
    }
    match update_entry_option("ro,x-gvfs-name=Old", "x-gvfs-name=", true, "New", "New") {
        OptionChange::SetText(line) => assert_eq!(line, "x-gvfs-name=Old,x-gvfs-name=New"),
        other => panic!("{:?}", other),
    }
    match update_entry_option("ro", "x-gvfs-name=", true, "A B", "A%20B") {
        OptionChange::SetText(line) => assert_eq!(line, "x-gvfs-name=A B"),
        other => panic!("{:?}", other),
    }
    match update_entry_option("ro,x-gvfs-name=Old", "x-gvfs-name=", true, "", "") {
        OptionChange::SetText(line) => assert_eq!(line, "x-gvfs-name=Old"),
        other => panic!("{:?}", other),
    }
}
