use deepseek_app_lib::listing::{list_output, DirNode};

fn file(name: &str, size: Option<u64>) -> DirNode {
    DirNode { name: name.into(), is_dir: false, size, children: Vec::new() }
}

fn dir(name: &str, children: Vec<DirNode>) -> DirNode {
    DirNode { name: name.into(), is_dir: true, size: None, children }
}

#[test]
fn listing_sorts_skips_hidden_and_marks_folders() {
    let tree = vec![
        file("b.txt", Some(12)),
        dir(".git", vec![file("HEAD", Some(1))]),
        dir("src", vec![file("main.rs", Some(100)), file("lib.rs", None)]),
        file("a.txt", Some(3)),
    ];
    assert_eq!(
        list_output(&tree),
        "   a.txt (3)\n   b.txt (12)\n📁 src\n   lib.rs\n   main.rs (100)"
    );
}

#[test]
fn listing_stops_three_levels_down() {
    let tree = vec![dir("a", vec![dir("b", vec![dir("c", vec![file("deep", Some(1))])])])];
    assert_eq!(list_output(&tree), "📁 a\n📁 b\n📁 c");
}

#[test]
fn listing_marks_truncation_past_two_hundred_lines() {
    let mut files: Vec<DirNode> = (0..201).map(|i| file(&format!("f{i:03}"), Some(0))).collect();
    files.push(dir("zz", vec![file("inner", Some(0))]));
    let out = list_output(&files);
    let lines: Vec<&str> = out.lines().collect();
    assert_eq!(lines.len(), 201);
    assert_eq!(lines[199], "   f199 (0)");
    assert_eq!(lines[200], "...(条目过多，已截断)");
    assert_eq!(list_output(&Vec::new()), "");
}

#[test]
fn listing_holds_at_most_two_hundred_entries() {
    let files: Vec<DirNode> = (0..300).map(|i| file(&format!("f{i:03}"), None)).collect();
    let out = list_output(&files);
    let lines: Vec<&str> = out.lines().collect();
    assert_eq!(lines.len(), 201);
    assert_eq!(lines[200], "...(条目过多，已截断)");
    // Entries in subfolders count too.
    let nested = vec![dir("a", (0..150).map(|i| file(&format!("x{i:03}"), None)).collect()),
        dir("b", (0..150).map(|i| file(&format!("y{i:03}"), None)).collect())];
    let lines: Vec<String> = list_output(&nested).lines().map(String::from).collect();
    assert_eq!(lines.len(), 201);
    assert_eq!(lines[151], "📁 b");
    assert_eq!(lines[200], "...(条目过多，已截断)");
    // Exactly 200 entries are listed without a mark.
    let exact: Vec<DirNode> = (0..200).map(|i| file(&format!("f{i:03}"), None)).collect();
    assert_eq!(list_output(&exact).lines().count(), 200);
}
