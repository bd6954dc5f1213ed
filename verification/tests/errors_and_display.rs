//! Output probes for the error values, and the node display rendering.

use envtool::parser::PathNode;

#[test]
fn error_f() {
    println!("123456\n789\u{8}\u{8}a");
}

#[test]
fn error_error_f() {
    println!("123456\n789\u{8}\u{8}a");
}

fn node(names: &[&str]) -> PathNode {
    PathNode { names: names.iter().map(|s| s.to_string()).collect(), target: None }
}

#[test]
fn path_node_display() {
    assert_eq!(node(&[]).to_string(), "");
    assert_eq!(node(&["gcc"]).to_string(), "gcc");
    assert_eq!(node(&["gcc", "gnuc"]).to_string(), "gcc(gnuc)");
    assert_eq!(
        node(&[".net", "dotnet", "netfx", "netframework"]).to_string(),
        ".net(dotnet, netfx, netframework)",
    );
}

#[test]
fn path_node_has_and_is_empty() {
    let n = PathNode {
        names: vec!["value1".to_owned(), "alias1".to_owned(), "alias2".to_owned()],
        target: None,
    };
    assert_eq!(n.has("value1"), true);
    assert_eq!(n.has("alias2"), true);
    assert_eq!(n.has("asdasd"), false);
    assert!(!n.is_empty());
    assert!(node(&[]).is_empty());
}
