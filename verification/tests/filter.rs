//! Filter tests: the full document walk with invalid nodes and targets
//! dropped, and the format errors on misplaced section elements.

use envtool::error::{Error, TextPosition};
use envtool::parser::{Attribute, ConfigEvent, ConfigParser, PathNode, SourceEvent};
use envtool::result::TargetAction::{PathAdd, ScriptExecute};

fn pos(row: u64, column: u64) -> TextPosition {
    TextPosition { row, column }
}

fn attr(name: &str, value: &str) -> Attribute {
    Attribute { name: name.to_string(), value: value.to_string() }
}

fn start_el(name: &str, attrs: Vec<Attribute>) -> SourceEvent {
    SourceEvent::StartElement { name: name.to_string(), attributes: attrs, position: pos(0, 0) }
}

fn start_el_at(name: &str, attrs: Vec<Attribute>, p: TextPosition) -> SourceEvent {
    SourceEvent::StartElement { name: name.to_string(), attributes: attrs, position: p }
}

fn end_el(name: &str) -> SourceEvent {
    SourceEvent::EndElement { name: name.to_string(), position: pos(0, 0) }
}

fn p_el(value: &str) -> SourceEvent {
    start_el("p", vec![attr("value", value)])
}

fn p_el_target(value: &str, target: &str) -> SourceEvent {
    start_el("p", vec![attr("value", value), attr("target", target)])
}

fn target_el(name: &str) -> SourceEvent {
    start_el("target", vec![attr("name", name)])
}

fn pathadd_el(value: &str) -> SourceEvent {
    start_el("pathadd", vec![attr("value", value)])
}

fn scriptexec_el(path: &str) -> SourceEvent {
    start_el("scriptexec", vec![attr("path", path)])
}

/// A document exercising every filter rule: sections amid stray elements,
/// nodes with no usable name dropping their whole subtree, and targets with
/// no name or no action dropped whole.
fn full_sources() -> Vec<SourceEvent> {
    vec![
        start_el("env", vec![]),
        start_el("config", vec![]),
        start_el("dummy", vec![]),
        p_el("123"),
        end_el("p"),
        target_el("invalid target here"),
        end_el("target"),
        p_el("another outter p"),
        end_el("p"),
        start_el("paths", vec![]),
        p_el_target("gcc|gnuc", "gcc-rubenvb-463"),
        p_el("rubenvb"),
        p_el_target("4.6.3|463", "gcc-rubenvb-463"),
        end_el("p"),
        end_el("p"),
        p_el_target("4.6.3|463", "gcc-rubenvb-463"),
        end_el("p"),
        end_el("p"),
        p_el(""),
        p_el("some value"),
        end_el("p"),
        end_el("p"),
        p_el_target("vcpp|msvc", "msvc-19-amd64"),
        p_el("19|vs14|vs2015"),
        p_el_target("x86", "msvc-19-x86"),
        end_el("p"),
        p_el_target("amd64|x64", "msvc-19-amd64"),
        end_el("p"),
        end_el("p"),
        start_el("p", vec![]),
        p_el("valid in invalid in valid"),
        end_el("p"),
        end_el("p"),
        p_el_target("x86", "msvc-19-x86"),
        end_el("p"),
        p_el_target("amd64|x64", "msvc-19-amd64"),
        end_el("p"),
        end_el("p"),
        p_el("|"),
        p_el("some value2"),
        end_el("p"),
        end_el("p"),
        start_el("p", vec![]),
        p_el("asdasd"),
        p_el("asdasd"),
        end_el("p"),
        end_el("p"),
        p_el("asdasdas"),
        end_el("p"),
        end_el("p"),
        end_el("paths"),
        start_el("targets", vec![]),
        target_el("gcc-rubenvb-463"),
        pathadd_el(r"C:\Program Files\Haskell Platform\7.10.2-a\mingw\bin"),
        end_el("pathadd"),
        end_el("target"),
        start_el("target", vec![]),
        pathadd_el("something in invalid"),
        end_el("pathadd"),
        end_el("target"),
        target_el("msvc-19-x86"),
        scriptexec_el("..."),
        end_el("scriptexec"),
        end_el("target"),
        pathadd_el("pathadd outside"),
        end_el("pathadd"),
        target_el("valid name with empty"),
        end_el("target"),
        target_el("valid name with seem not empty"),
        scriptexec_el(""),
        end_el("scriptexec"),
        end_el("target"),
        scriptexec_el("scriptexec outside"),
        end_el("scriptexec"),
        target_el("msvc-19-amd64"),
        scriptexec_el("script for cl64"),
        end_el("scriptexec"),
        pathadd_el("path add value for cl64"),
        end_el("pathadd"),
        scriptexec_el("another script for cl64"),
        end_el("scriptexec"),
        end_el("target"),
        end_el("targets"),
        p_el("123"),
        end_el("p"),
        target_el("invalid target here"),
        end_el("target"),
        p_el("another outter p"),
        end_el("p"),
        end_el("env"),
    ]
}

fn owned(names: &[&str]) -> Vec<String> {
    names.iter().map(|s| s.to_string()).collect()
}

fn expect_start_p(parser: &mut ConfigParser, names: &[&str], target: Option<&str>) {
    let next = parser.next();
    if let Some(ConfigEvent::StartP { depth: _depth, inner, position: _p }) = next {
        assert_eq!(
            PathNode { names: owned(names), target: target.map(|t| t.to_owned()) },
            inner,
        );
    } else {
        panic!("next is not StartP but is {:?}", next);
    }
}

fn expect_target(parser: &mut ConfigParser, name: &str, actions: Vec<envtool::result::TargetAction>) {
    let next = parser.next();
    if let Some(ConfigEvent::Target { name: n, actions: a }) = next {
        assert_eq!(name.to_owned(), n);
        assert_eq!(actions, a);
    } else {
        panic!("next is not start target but is {:?}", next);
    }
}

fn expect_end_p(parser: &mut ConfigParser) {
    let next = parser.next();
    match next {
        Some(ConfigEvent::EndP { .. }) => (),
        _ => panic!("Next is not EndP but is {:?}", next),
    }
}

fn expect_start_paths(parser: &mut ConfigParser) {
    let next = parser.next();
    match next {
        Some(ConfigEvent::StartPaths) => (),
        _ => panic!("Next is not StartPaths but is {:?}", next),
    }
}

fn expect_start_targets(parser: &mut ConfigParser) {
    let next = parser.next();
    match next {
        Some(ConfigEvent::StartTargets) => (),
        _ => panic!("Next is not StartTargets but is {:?}", next),
    }
}

fn expect_end_paths(parser: &mut ConfigParser) {
    let next = parser.next();
    match next {
        Some(ConfigEvent::EndPaths { .. }) => (),
        _ => panic!("Next is not EndPaths but is {:?}", next),
    }
}

fn expect_end_targets(parser: &mut ConfigParser) {
    let next = parser.next();
    match next {
        Some(ConfigEvent::EndTargets) => (),
        _ => panic!("Next is not EndTargets but is {:?}", next),
    }
}

#[test]
fn parser_valid() {
    let mut parser = ConfigParser::from(full_sources());

    expect_start_paths(&mut parser);
    expect_start_p(&mut parser, &["gcc", "gnuc"], Some("gcc-rubenvb-463"));
    expect_start_p(&mut parser, &["rubenvb"], None);
    expect_start_p(&mut parser, &["4.6.3", "463"], Some("gcc-rubenvb-463"));
    expect_end_p(&mut parser);
    expect_end_p(&mut parser);
    expect_start_p(&mut parser, &["4.6.3", "463"], Some("gcc-rubenvb-463"));
    expect_end_p(&mut parser);
    expect_end_p(&mut parser);
    expect_start_p(&mut parser, &["vcpp", "msvc"], Some("msvc-19-amd64"));
    expect_start_p(&mut parser, &["19", "vs14", "vs2015"], None);
    expect_start_p(&mut parser, &["x86"], Some("msvc-19-x86"));
    expect_end_p(&mut parser);
    expect_start_p(&mut parser, &["amd64", "x64"], Some("msvc-19-amd64"));
    expect_end_p(&mut parser);
    expect_end_p(&mut parser);
    expect_start_p(&mut parser, &["x86"], Some("msvc-19-x86"));
    expect_end_p(&mut parser);
    expect_start_p(&mut parser, &["amd64", "x64"], Some("msvc-19-amd64"));
    expect_end_p(&mut parser);
    expect_end_p(&mut parser);
    expect_end_paths(&mut parser);
    expect_start_targets(&mut parser);
    expect_target(&mut parser, "gcc-rubenvb-463",
        vec![PathAdd(r"C:\Program Files\Haskell Platform\7.10.2-a\mingw\bin".to_owned())]);
    expect_target(&mut parser, "msvc-19-x86",
        vec![ScriptExecute("...".to_owned())]);
    expect_target(&mut parser, "msvc-19-amd64", vec![
        ScriptExecute("script for cl64".to_owned()),
        PathAdd("path add value for cl64".to_owned()),
        ScriptExecute("another script for cl64".to_owned()),
    ]);
    expect_end_targets(&mut parser);

    loop {
        match parser.next() {
            Some(e) => panic!("unexpected trailing event {:?}", e),
            None => break,
        }
    }
}

#[test]
fn parser_semantic() {
    // A section element inside its own kind of section is a format error.
    fn test_case(sources: Vec<SourceEvent>, expect_row: u64, expect_col: u64, element: &str) {
        let mut parser = ConfigParser::from(sources);
        let mut had_expected_fail = false;
        loop {
            match parser.next() {
                Some(some_event) => match some_event {
                    ConfigEvent::XMLReaderError { e: Error::InvalidFormat { position, element: el } } => {
                        assert_eq!(position, TextPosition { row: expect_row - 1, column: expect_col - 1 });
                        assert_eq!(el, element);
                        had_expected_fail = true;
                        break;
                    }
                    _ => (),
                },
                _ => break,
            }
        }
        if !had_expected_fail {
            panic!("did not had expected fail of {}", element);
        }
    }

    test_case(
        vec![
            start_el("paths", vec![]),
            p_el("a"),
            start_el_at("paths", vec![], pos(24 - 1, 5 - 1)),
        ],
        24,
        5,
        "paths",
    );
    test_case(
        vec![
            start_el("targets", vec![]),
            start_el_at("targets", vec![], pos(38 - 1, 5 - 1)),
        ],
        38,
        5,
        "targets",
    );
    test_case(
        vec![
            start_el("targets", vec![]),
            target_el("a"),
            start_el_at("target", vec![attr("name", "b")], pos(42 - 1, 7 - 1)),
        ],
        42,
        7,
        "target",
    );
}

#[test]
fn get_target_f() {
    // Draining the filter ends the iteration for good: after the first
    // pass, every further call stays empty.
    let mut parser = ConfigParser::from(full_sources());
    let mut seen: usize = 0;
    loop {
        match parser.next() {
            Some(_) => seen += 1,
            None => break,
        }
    }
    assert!(seen > 0);
    loop {
        match parser.next() {
            Some(e) => panic!("second pass produced {:?}", e),
            None => {
                println!("Now breaked at second loop");
                break;
            }
        }
    }
}
