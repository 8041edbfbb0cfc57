use zram_generator::path::{characters, join, parent};

#[test]
fn join_puts_one_separator_between_base_and_component() {
    assert_eq!(join("/run/systemd/generator", "dev-zram0.swap"), "/run/systemd/generator/dev-zram0.swap");
    assert_eq!(join("relative/dir", "file"), "relative/dir/file");
}

#[test]
fn join_adds_no_separator_after_one() {
    assert_eq!(join("/run/systemd/generator/", "dev-zram0.swap"), "/run/systemd/generator/dev-zram0.swap");
    assert_eq!(join("/", "run/modules-load.d/zram.conf"), "/run/modules-load.d/zram.conf");
}

#[test]
fn join_onto_the_empty_path_gives_the_component() {
    assert_eq!(join("", "run/modules-load.d/zram.conf"), "run/modules-load.d/zram.conf");
    assert_eq!(join("", ""), "");
}

#[test]
fn join_with_an_empty_component_ends_in_a_separator() {
    assert_eq!(join("/out", ""), "/out/");
    assert_eq!(join("/out/", ""), "/out/");
}

#[test]
fn join_lets_an_absolute_component_replace_the_base() {
    assert_eq!(join("/run/systemd/generator", "/etc/fstab"), "/etc/fstab");
    assert_eq!(join("", "/"), "/");
}

#[test]
fn join_keeps_characters_beyond_ascii() {
    assert_eq!(join("/données", "périphérique"), "/données/périphérique");
    assert_eq!(join("/données/", "périphérique"), "/données/périphérique");
}

#[test]
fn parent_drops_the_final_component() {
    assert_eq!(parent("/run/modules-load.d/zram.conf"), Some(String::from("/run/modules-load.d")));
    assert_eq!(parent("a/b"), Some(String::from("a")));
    assert_eq!(
        parent("/out/swap.target.wants/dev-zram0.swap"),
        Some(String::from("/out/swap.target.wants"))
    );
}

#[test]
fn parent_ignores_separators_at_the_end() {
    assert_eq!(parent("a/b/"), Some(String::from("a")));
    assert_eq!(parent("a/b///"), Some(String::from("a")));
}

#[test]
fn parent_drops_repeated_separators_before_the_final_component() {
    assert_eq!(parent("a//b"), Some(String::from("a")));
    assert_eq!(parent("//b"), Some(String::from("/")));
}

#[test]
fn parent_of_a_single_relative_component_is_empty() {
    assert_eq!(parent("zram.conf"), Some(String::new()));
    assert_eq!(parent("zram.conf/"), Some(String::new()));
}

#[test]
fn parent_of_a_component_under_the_root_is_the_root() {
    assert_eq!(parent("/run"), Some(String::from("/")));
    assert_eq!(parent("/run/"), Some(String::from("/")));
}

#[test]
fn parent_of_the_root_or_of_nothing_is_missing() {
    assert_eq!(parent("/"), None);
    assert_eq!(parent("///"), None);
    assert_eq!(parent(""), None);
}

#[test]
fn parent_keeps_characters_beyond_ascii() {
    assert_eq!(parent("/données/périphérique"), Some(String::from("/données")));
}

#[test]
fn parent_undoes_join_for_a_plain_component() {
    let joined = join("/out/swap.target.wants", "dev-zram0.swap");
    assert_eq!(parent(&joined), Some(String::from("/out/swap.target.wants")));
}

#[test]
fn characters_lists_every_character_in_order() {
    assert_eq!(characters("a/é"), vec!['a', '/', 'é']);
    assert_eq!(characters(""), Vec::<char>::new());
}
