//! Tests of the element-level classification, the materialized node, and
//! the target bundle.

use envtool::parsed_element::{ParsedElement, PathNodeInner};
use envtool::parser::Attribute;
use envtool::path_node::PathNode;
use envtool::target::{Target, TargetAction};

fn attrs(pairs: &[(&str, &str)]) -> Vec<Attribute> {
    pairs
        .iter()
        .map(|p| Attribute { name: p.0.to_string(), value: p.1.to_string() })
        .collect()
}

fn check_parse(name: &str, attr: &[(&str, &str)], expected: ParsedElement) {
    let attr = attrs(attr);
    let parsed = ParsedElement::from(name, &attr);
    assert_eq!(parsed, expected);
}

#[test]
fn parsed_element_create() {
    check_parse("paths", &[], ParsedElement::Paths);
    check_parse("targets", &[], ParsedElement::Targets);

    check_parse("p", &[],
        ParsedElement::PathNode { inner: PathNodeInner { values: vec![], target: None } });
    check_parse("p", &[("value", "some value|1|2|12w3|wedf|"), ("target", "some target")],
        ParsedElement::PathNode { inner: PathNodeInner {
            values: vec!["some value", "1", "2", "12w3", "wedf", ""],
            target: Some("some target") } });

    check_parse("scriptexec", &[],
        ParsedElement::ScriptExecute(None));
    check_parse("scriptexec", &[("path", "value of exec"), ("some", "some other value")],
        ParsedElement::ScriptExecute(Some("value of exec")));
    check_parse("pathadd", &[],
        ParsedElement::PathAdd(None));
    check_parse("pathadd", &[("value", "value of pathadd"), ("some", "some other value")],
        ParsedElement::PathAdd(Some("value of pathadd")));

    check_parse("someother", &[],
        ParsedElement::Unknown { tag_name: "someother" });

    check_parse("target", &[],
        ParsedElement::TargetNode { name: None });
    check_parse("target", &[("name", "a target name")],
        ParsedElement::TargetNode { name: Some("a target name") });
}

#[test]
fn parsed_element_path_node_inner() {
    let inner = PathNodeInner { values: vec!["value1", "alias1", "alias2"], target: None };
    assert_eq!(inner.has("value1"), true);
    assert_eq!(inner.has("alias2"), true);
    assert_eq!(inner.has("asdasd"), false);
}

#[test]
fn path_node_from_element() {
    let node = PathNode::from_config_element(&attrs(&[
        ("value", "python"),
        ("alias", "py|python|py3"),
        ("target", "python-3"),
    ]));
    assert_eq!(node.value, "python");
    assert_eq!(node.aliases, vec!["py".to_owned(), "py3".to_owned()]);
    assert!(node.children.is_empty());
    assert!(node.target.is_none());

    let plain = PathNode::from_config_element(&attrs(&[("value", "rust")]));
    assert_eq!(plain.value, "rust");
    assert!(plain.aliases.is_empty());

    let fresh = PathNode::new();
    assert_eq!(fresh.value, "");
    assert!(fresh.aliases.is_empty() && fresh.children.is_empty() && fresh.target.is_none());
}

#[test]
fn target_bundle_push() {
    let mut target = Target { actions: Vec::new() };
    target.push_path(r"C:\tools\bin");
    target.push_script("setup.bat");
    target.push_path(r"D:\more");
    assert_eq!(target.actions, vec![
        TargetAction::PathAdd(r"C:\tools\bin".to_owned()),
        TargetAction::ScriptExecute("setup.bat".to_owned()),
        TargetAction::PathAdd(r"D:\more".to_owned()),
    ]);
}
