use tauri_bindgen::files::Files;

#[test]
fn files_keep_the_order_in_which_they_came() {
    let mut files = Files::new();
    assert_eq!(files.len(), 0);
    assert!(files.push("b/chars.md", b"one".to_vec()));
    assert!(files.push("a.ts", b"two".to_vec()));
    assert!(files.push("c.js", Vec::new()));
    assert_eq!(files.len(), 3);
    assert_eq!(files.path(0), "b/chars.md");
    assert_eq!(files.path(1), "a.ts");
    assert_eq!(files.path(2), "c.js");
    assert_eq!(files.contents(0), &b"one".to_vec());
    assert_eq!(files.contents(1), &b"two".to_vec());
    assert_eq!(files.contents(2), &Vec::<u8>::new());
    assert_eq!(files.position("a.ts"), Some(1));
    assert_eq!(files.position("A.ts"), None);
}

#[test]
fn a_path_is_taken_once() {
    let mut files = Files::new();
    assert!(files.push("chars.md", b"first".to_vec()));
    assert!(!files.push("chars.md", b"second".to_vec()));
    assert_eq!(files.len(), 1);
    assert_eq!(files.get("chars.md"), Some(&b"first".to_vec()));
    assert_eq!(files.get("other.md"), None);
    assert!(files.push("chars.ts", b"second".to_vec()));
    assert_eq!(files.get("chars.ts"), Some(&b"second".to_vec()));
}
