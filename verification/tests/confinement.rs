//! The path confinement guard, exercised lexically.

use well::functions::common::path_spills_up;

#[test]
fn confinement() {
    assert_eq!(path_spills_up("one"), false);
    assert_eq!(path_spills_up("one/two"), false);
    assert_eq!(path_spills_up("/one/two"), false);
    assert_eq!(path_spills_up("../one"), true);
    assert_eq!(path_spills_up("../../one"), true);
    assert_eq!(path_spills_up("one/../two/.."), false);
    assert_eq!(path_spills_up("one/../two/../.."), true);
    assert_eq!(path_spills_up("/../../one"), true);
}

#[test]
fn confinement_judges_lexically() {
    // A path that resolves inside the working directory but whose
    // prefix depth dips below zero is still rejected, and repeated or
    // trailing separators change nothing.
    assert_eq!(path_spills_up(""), false);
    assert_eq!(path_spills_up("."), false);
    assert_eq!(path_spills_up("./a"), false);
    assert_eq!(path_spills_up("a//b"), false);
    assert_eq!(path_spills_up("a/"), false);
    assert_eq!(path_spills_up(".."), true);
    assert_eq!(path_spills_up("a/../.."), true);
    assert_eq!(path_spills_up("..a"), false);
    assert_eq!(path_spills_up("a/.../b"), false);
}
