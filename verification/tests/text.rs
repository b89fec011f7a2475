use wallpaper_manager::text::{chars_of, is_space_char, join_path, same_text, to_decimal};

#[test]
fn characters_of_a_text() {
    assert_eq!(chars_of(""), Vec::<char>::new());
    assert_eq!(chars_of("DP-1"), vec!['D', 'P', '-', '1']);
    assert_eq!(chars_of("é→𝄞"), vec!['é', '→', '𝄞']);
}

#[test]
fn texts_compare_by_their_characters() {
    assert!(same_text("", ""));
    assert!(same_text("DP-1", "DP-1"));
    assert!(!same_text("DP-1", "DP-2"));
    assert!(!same_text("DP-1", "DP-10"));
    assert!(!same_text("DP-10", "DP-1"));
    assert!(!same_text("dp-1", "DP-1"));
    assert!(same_text("é", "é"));
    assert!(!same_text("é", "e\u{301}"));
}

#[test]
fn white_space_is_what_the_standard_library_calls_so() {
    let mut code: u32 = 0;
    while code <= 0x10FFFF {
        if let Some(c) = char::from_u32(code) {
            assert_eq!(is_space_char(c), c.is_whitespace(), "U+{code:04X}");
        }
        code += 1;
    }
}

#[test]
fn numbers_in_base_ten() {
    assert_eq!(to_decimal(0), "0");
    assert_eq!(to_decimal(7), "7");
    assert_eq!(to_decimal(10), "10");
    assert_eq!(to_decimal(90), "90");
    assert_eq!(to_decimal(180), "180");
    assert_eq!(to_decimal(270), "270");
    assert_eq!(to_decimal(4294967295), "4294967295");
    for n in [1u32, 9, 11, 99, 100, 101, 359, 360, 1000, 65535, 1234567890] {
        assert_eq!(to_decimal(n), n.to_string());
    }
}

#[test]
fn paths_join_as_the_standard_library_joins_them() {
    let bases = ["", "/", "/tmp", "/tmp/", "tmp", "/home/u/.config", "/home/u/.config/", "a//", "é"];
    let names = ["", "state.json", "wallpaper-manager/state.json", "/abs", "/", "x/", "é.png", "a b"];
    for base in bases {
        for name in names {
            let wanted = std::path::Path::new(base).join(name);
            assert_eq!(join_path(base, name), wanted.to_str().unwrap(), "{base:?} {name:?}");
        }
    }
}

#[test]
fn path_join_examples() {
    assert_eq!(join_path("/tmp", "wallpaper_rotated.jpg"), "/tmp/wallpaper_rotated.jpg");
    assert_eq!(join_path("/tmp/", "wallpaper_rotated.jpg"), "/tmp/wallpaper_rotated.jpg");
    assert_eq!(join_path("", "wallpaper_rotated.jpg"), "wallpaper_rotated.jpg");
    assert_eq!(join_path("/tmp", "/etc/passwd"), "/etc/passwd");
}
