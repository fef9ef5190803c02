use pakscan::entity::{configure_path, find_hrefs};
use pakscan::extract::extract_fragments;
use pakscan::pak::OverlayStore;
use pakscan::strutil::{contains_str, dir_of_str, remove_all_str, str_eq, to_lower, trim_slashes_str};

#[test]
fn resolve_empty_reference_is_noop() {
    let store = OverlayStore::new();
    let owning = String::from("a/b/creature.xdb");
    assert_eq!(configure_path(None, &owning, &store), "");
    let empty = String::new();
    assert_eq!(configure_path(Some(&empty), &owning, &store), "");
    let bare = String::from("x");
    assert_eq!(configure_path(Some(&empty), &bare, &store), "");
}

#[test]
fn resolve_relative_fallback() {
    let store = OverlayStore::new();
    let owning = String::from("a/b/creature.xdb");
    let reference = String::from("face.xdb");
    assert_eq!(configure_path(Some(&reference), &owning, &store), "a/b/face.xdb");
}

#[test]
fn resolve_global_key_unchanged() {
    let mut store = OverlayStore::new();
    store.offer("global/index.xdb", "a.pak", 1, Some(String::from("x")));
    let owning = String::from("a/b/other.xdb");
    let reference = String::from("global/index.xdb");
    let once = configure_path(Some(&reference), &owning, &store);
    assert_eq!(once, "global/index.xdb");
    let twice = configure_path(Some(&once), &owning, &store);
    assert_eq!(twice, once);
}

#[test]
fn resolve_case_folds_and_trims() {
    let store = OverlayStore::new();
    let owning = String::from("a/b/creature.xdb");
    let reference = String::from("/Text/FACE.XDB");
    assert_eq!(
        configure_path(Some(&reference), &owning, &store),
        "a/b/text/face.xdb"
    );
}

#[test]
fn string_utilities() {
    assert_eq!(
        remove_all_str("/spells/Fire.xdb#xpointer(/Spell)", "#xpointer(/Spell)"),
        "/spells/Fire.xdb"
    );
    assert_eq!(remove_all_str("abcabc", "b"), "acac");
    assert_eq!(trim_slashes_str("//x/y"), "x/y");
    assert_eq!(trim_slashes_str("x/y"), "x/y");
    assert_eq!(dir_of_str("a/b/c.xdb"), "a/b");
    assert_eq!(dir_of_str("nodir"), "");
    assert_eq!(to_lower("MixedCase/Path.XDB"), "mixedcase/path.xdb");
    assert!(contains_str("abcdef", "cde"));
    assert!(!contains_str("abcdef", "xyz"));
    assert!(str_eq("same", "same"));
    assert!(!str_eq("same", "other"));
}

#[test]
fn extract_nested_same_named_tags() {
    let r = extract_fragments("<root><obj>X<inner>obj</inner></obj><obj>Y</obj></root>", "obj")
        .unwrap();
    assert_eq!(r.len(), 2);
    assert_eq!(r[0], "<obj>X<inner>obj</inner></obj>");
    assert_eq!(r[1], "<obj>Y</obj>");
}

#[test]
fn extract_depth_tracking() {
    let r = extract_fragments("<a><obj>1<obj>2</obj>3</obj></a>", "obj").unwrap();
    assert_eq!(r.len(), 1);
    assert_eq!(r[0], "<obj>1<obj>2</obj>3</obj>");
}

#[test]
fn extract_tag_with_attributes() {
    let r = extract_fragments("<a><obj kind=\"b\">X</obj></a>", "obj").unwrap();
    assert_eq!(r.len(), 1);
    assert_eq!(r[0], "<obj>X</obj>");
}

#[test]
fn extract_no_match_yields_empty() {
    let r = extract_fragments("<a><b>X</b></a>", "obj").unwrap();
    assert_eq!(r.len(), 0);
}

#[test]
fn extract_unterminated_is_malformed() {
    assert!(extract_fragments("<a><obj>X</a>", "obj").is_none());
    assert!(extract_fragments("<obj>X", "obj").is_none());
    assert!(extract_fragments("</obj><a></a>", "obj").is_none());
}

#[test]
fn hrefs_in_document_order() {
    let hs = find_hrefs("<o><i href=\"/a/B.xdb\"/><i href=\"c.xdb#x\"/><i other=\"z\"/></o>");
    assert_eq!(hs.len(), 2);
    assert_eq!(hs[0], "/a/B.xdb");
    assert_eq!(hs[1], "c.xdb#x");
}
