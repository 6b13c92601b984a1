use edit_distance::edit_distance;

#[test]
fn same_text_is_at_zero_in_both_modes() {
    for t in ["", "a", "kitten", "شاهنامه", "Ghiyāth al-Dīn"] {
        assert_eq!(edit_distance(t, t, true), 0);
        assert_eq!(edit_distance(t, t, false), 0);
    }
}

#[test]
fn swapping_arguments_keeps_distance() {
    let pairs = [
        ("sitting", "kitten"),
        ("flaw", "lawn"),
        ("شاهنامه", "شهنامه"),
        ("ʿAlī ibn Abī Ṭālib", "ʿUthmān ibn ʿAffān"),
        ("", "abc"),
    ];
    for (a, b) in pairs {
        assert_eq!(edit_distance(a, b, true), edit_distance(b, a, true));
        assert_eq!(edit_distance(a, b, false), edit_distance(b, a, false));
    }
}

#[test]
fn empty_side_counts_bytes_or_characters() {
    let t = "maḥmūd";
    assert_eq!(edit_distance("", t, true), 9);
    assert_eq!(edit_distance(t, "", true), 9);
    assert_eq!(edit_distance("", t, false), 6);
    assert_eq!(edit_distance(t, "", false), 6);
    assert_eq!(edit_distance("", "", true), 0);
    assert_eq!(edit_distance("", "", false), 0);
}

#[test]
fn detour_is_never_shorter() {
    let (a, b, c) = ("sitting", "kitten", "mitten");
    for mode in [true, false] {
        let direct = edit_distance(a, c, mode);
        assert!(direct <= edit_distance(a, b, mode) + edit_distance(b, c, mode));
    }
    assert_eq!(edit_distance(a, c, true), 3);
    let (a, b, c) = ("شاهنامه", "شهنامه", "نامه");
    for mode in [true, false] {
        let direct = edit_distance(a, c, mode);
        assert!(direct <= edit_distance(a, b, mode) + edit_distance(b, c, mode));
    }
}

#[test]
fn ascii_text_gives_same_distance_in_both_modes() {
    for (a, b) in [("sitting", "kitten"), ("flaw", "lawn"), ("", "xyz"), ("abc", "abc")] {
        assert_eq!(edit_distance(a, b, true), edit_distance(a, b, false));
    }
}

#[test]
fn one_accented_character_differs_between_modes() {
    assert_eq!(edit_distance("é", "", true), 2);
    assert_eq!(edit_distance("é", "", false), 1);
    assert_eq!(edit_distance("é", "e", true), 2);
    assert_eq!(edit_distance("é", "e", false), 1);
}

#[test]
fn classic_examples() {
    assert_eq!(edit_distance("flaw", "lawn", true), 2);
    assert_eq!(edit_distance("kitten", "sitting", false), 3);
    assert_eq!(edit_distance("abc", "xyz", true), 3);
    assert_eq!(edit_distance("a", "b", false), 1);
    assert_eq!(edit_distance("abc", "abcd", true), 1);
}
