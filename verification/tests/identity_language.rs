//! Content identity and language detection against fixed vectors.

use harpoon::language::detect_language;
use harpoon::{compute_anchor_hash, compute_fingerprint, fragment_hash};

const BODY_A: &str = "def f():\n    return 1\n";
const HASH_A: &str = "554c70065a66824f65e036709800854b75f5bf94b69932fdde85d53a3238b555";

#[test]
fn hash_is_sha3_256_hex() {
    assert_eq!(fragment_hash(BODY_A), HASH_A);
    assert_eq!(compute_anchor_hash(BODY_A), HASH_A);
    assert_eq!(
        fragment_hash(""),
        "a7ffc6f8bf1ed76651c14756a061d662f580ff4de43b49fa82d80a4b80f8434a"
    );
    assert_eq!(fragment_hash(BODY_A).len(), 64);
}

#[test]
fn fingerprint_is_unpadded_base64_of_digest_prefix() {
    assert_eq!(compute_fingerprint(BODY_A), "VUxwBlpmgk9l4DZw");
    assert_eq!(compute_fingerprint(BODY_A).len(), 16);
}

#[test]
fn one_byte_change_changes_the_hash() {
    let changed = "def f():\n    return 2\n";
    assert_ne!(fragment_hash(BODY_A), fragment_hash(changed));
    assert_eq!(
        fragment_hash(changed),
        "539ad5395ed85ded16a43711087a282a06e6a2032196fe1874f34f84288bb5d3"
    );
}

#[test]
fn identical_bodies_share_identity_regardless_of_metadata() {
    assert_eq!(fragment_hash(BODY_A), fragment_hash(BODY_A));
    assert_eq!(compute_fingerprint(BODY_A), compute_fingerprint(BODY_A));
}

#[test]
fn detect_language_by_extension_case_insensitively() {
    assert_eq!(detect_language("pkg/Main.PY", "plain words"), "python");
    assert_eq!(detect_language("src/lib.RS", "plain words"), "rust");
    assert_eq!(detect_language("web/app.TSX", "plain words"), "typescript");
    assert_eq!(detect_language("web/app.js", "plain words"), "typescript");
    assert_eq!(detect_language("conf/app.yaml", "plain words"), "config");
    assert_eq!(detect_language("conf/app.json", "plain words"), "config");
    assert_eq!(detect_language("README.md", "plain words"), "text");
}

#[test]
fn detect_language_by_keywords() {
    assert_eq!(detect_language("snippet", "  def f():\n    pass"), "python");
    assert_eq!(detect_language("snippet", "fn main() {}"), "rust");
    assert_eq!(detect_language("snippet", "const x = 1;"), "typescript");
    assert_eq!(detect_language("snippet", "nothing to see"), "text");
}

#[test]
fn detection_precedence_prefers_python() {
    // A python extension wins even over a body full of rust keywords.
    assert_eq!(detect_language("tool.py", "fn main() {}"), "python");
    // A python keyword in the body wins over a rust extension...
    assert_eq!(detect_language("gen.rs", "import os\n"), "python");
    // ...and `import ` alone is shared with typescript but claimed by python.
    assert_eq!(detect_language("anything", "import os\n"), "python");
}

#[test]
fn empty_body_without_extension_is_text() {
    assert_eq!(detect_language("fragment", ""), "text");
    assert_eq!(detect_language("fragment", "   \n\t\n"), "text");
}
