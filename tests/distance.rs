use edit_distance::edit_distance;

#[test]
fn sitting_kitten() {
    assert_eq!(edit_distance("sitting", "kitten", true), 3);
}

#[test]
fn ascii_no_difference() {
    let a = "If I were a wise man";
    let b = "I would do my part";
    let ascii_dist = edit_distance(a, b, true);
    let unicode_dist = edit_distance(a, b, false);
    assert_eq!(ascii_dist, unicode_dist);
}

#[test]
fn accents_difference() {
    let a = "ʿAlī ibn Abī Ṭālib";
    let b = "ʿUthmān ibn ʿAffān";
    let ascii_dist = edit_distance(a, b, true);
    let unicode_dist = edit_distance(a, b, false);
    assert_ne!(ascii_dist, unicode_dist);
}

#[test]
fn shahnama_unicode() {
    let a = "شاهنامه";
    let b = "شهنامه";
    assert_eq!(edit_distance(a, b, false), 1);
}

#[test]
fn shahnama_ascii() {
    let a = "شاهنامه";
    let b = "شهنامه";
    assert_eq!(edit_distance(a, b, true), 2);
}

#[test]
fn empty_ascii() {
    let a = "levenshtein";
    let b = "";
    assert_eq!(edit_distance(a, b, true), 11);
}

#[test]
fn empty_unicode() {
    let a = "maḥmūd";
    let b = "";
    assert_eq!(edit_distance(a, b, false), 6);
}

#[test]
fn equal_regardless() {
    let a = "Ghiyāth al-Dīn";
    let b = "Ghiyāth al-Dīn";
    assert_eq!(edit_distance(a, b, true), 0);
}
