//! Resolver tests: the stock configuration document, its listings, its
//! target resolutions, and every resolver error.

use envtool::error::{Error, TextPosition};
use envtool::parser::{Attribute, ConfigEvent, PathNode, SourceEvent};
use envtool::resolver::{get_target, Config};
use envtool::result::ConfigResult;
use envtool::result::TargetAction::{PathAdd, ScriptExecute};

fn pos(row: u64, column: u64) -> TextPosition {
    TextPosition { row, column }
}

fn node(names: &[&str], target: Option<&str>) -> PathNode {
    PathNode {
        names: names.iter().map(|s| s.to_string()).collect(),
        target: target.map(|s| s.to_string()),
    }
}

fn startp(depth: usize, names: &[&str], target: Option<&str>) -> ConfigEvent {
    ConfigEvent::StartP { depth, inner: node(names, target), position: pos(0, 0) }
}

fn startp_at(depth: usize, names: &[&str], target: Option<&str>, p: TextPosition) -> ConfigEvent {
    ConfigEvent::StartP { depth, inner: node(names, target), position: p }
}

fn endp(depth: usize) -> ConfigEvent {
    ConfigEvent::EndP { depth, position: pos(0, 0) }
}

fn endp_at(depth: usize, p: TextPosition) -> ConfigEvent {
    ConfigEvent::EndP { depth, position: p }
}

fn target(name: &str, actions: Vec<envtool::result::TargetAction>) -> ConfigEvent {
    ConfigEvent::Target { name: name.to_string(), actions }
}

const CLANG_PATH: &str = r"C:\Program Files (x86)\Microsoft Visual Studio 14.0\VC\ClangC2\bin\amd64";
const VCVARS: &str = r"C:\Program Files (x86)\Microsoft Visual Studio 14.0\VC\bin\amd64\vcvars64.bat";

/// The stock configuration document, as the event stream its markup
/// produces.
fn env_events() -> Vec<ConfigEvent> {
    vec![
        ConfigEvent::StartPaths,
        startp(0, &["gcc", "gnuc"], None),
        endp(0),
        startp(0, &["git"], None),
        endp(0),
        startp(0, &["haskell", "hs"], None),
        endp(0),
        startp(0, &["java"], None),
        endp(0),
        startp(0, &["lua"], None),
        endp(0),
        startp(0, &["nasm"], None),
        endp(0),
        startp(0, &[".net", "dotnet", "netfx", "netframework"], None),
        endp(0),
        startp(0, &["vcpp", "msvc"], None),
        startp(1, &["19", "vs14", "vs2015"], None),
        startp(2, &["m32", "x86"], Some("msvc-19-x86")),
        endp(2),
        startp(2, &["m64", "amd64", "x64"], Some("msvc-19-amd64")),
        endp(2),
        endp(1),
        endp(0),
        startp(0, &["python", "py"], None),
        endp(0),
        startp(0, &["rust"], None),
        endp(0),
        ConfigEvent::EndPaths { position: pos(0, 0) },
        ConfigEvent::StartTargets,
        target(
            "msvc-19-x86",
            vec![ScriptExecute("...".to_string())],
        ),
        target(
            "msvc-19-amd64",
            vec![PathAdd(CLANG_PATH.to_string()), ScriptExecute(VCVARS.to_string())],
        ),
        ConfigEvent::EndTargets,
    ]
}

fn expect_actions(
    result: Result<ConfigResult, Error>,
    expected: Vec<envtool::result::TargetAction>,
) {
    match result {
        Ok(ConfigResult::Actions(actions)) => assert_eq!(actions, expected),
        Ok(other) => panic!("unexpected listing: {:?}", other),
        Err(e) => panic!("{:?}", e),
    }
}

fn expect_nexts(result: Result<ConfigResult, Error>, expected: &[&str]) {
    match result {
        Ok(ConfigResult::AvailablePathNodes(nexts)) => {
            assert_eq!(nexts, expected.iter().map(|s| s.to_string()).collect::<Vec<String>>());
        }
        Ok(other) => panic!("unexpected actions: {:?}", other),
        Err(e) => panic!("{:?}", e),
    }
}

#[test]
fn get_targets() {
    expect_nexts(get_target(&env_events(), "msvc/19", true),
        &["m32(x86)", "m64(amd64, x64)"]);
    expect_nexts(get_target(&env_events(), "", true),
        &["gcc(gnuc)", "git", "haskell(hs)", "java", "lua", "nasm",
            ".net(dotnet, netfx, netframework)", "vcpp(msvc)", "python(py)", "rust"]);
    expect_actions(get_target(&env_events(), "msvc/19/amd64", false),
        vec![PathAdd(CLANG_PATH.to_owned()),
            ScriptExecute(VCVARS.to_owned())]);
}

fn attr(name: &str, value: &str) -> Attribute {
    Attribute { name: name.to_string(), value: value.to_string() }
}

fn start_el(name: &str, attrs: Vec<Attribute>) -> SourceEvent {
    SourceEvent::StartElement { name: name.to_string(), attributes: attrs, position: pos(0, 0) }
}

fn end_el(name: &str) -> SourceEvent {
    SourceEvent::EndElement { name: name.to_string(), position: pos(0, 0) }
}

fn p_el(value: &str) -> SourceEvent {
    start_el("p", vec![attr("value", value)])
}

fn p_el_target(value: &str, target: &str) -> SourceEvent {
    start_el("p", vec![attr("value", value), attr("target", target)])
}

/// The same stock document, as the raw markup events its text produces, so
/// that one resolution runs through the filter too.
fn env_sources() -> Vec<SourceEvent> {
    vec![
        start_el("env", vec![]),
        start_el("paths", vec![]),
        p_el("gcc|gnuc"),
        end_el("p"),
        p_el("git"),
        end_el("p"),
        p_el("haskell|hs"),
        end_el("p"),
        p_el("java"),
        end_el("p"),
        p_el("lua"),
        end_el("p"),
        p_el("nasm"),
        end_el("p"),
        p_el(".net|dotnet|netfx|netframework"),
        end_el("p"),
        p_el("vcpp|msvc"),
        p_el("19|vs14|vs2015"),
        p_el_target("m32|x86", "msvc-19-x86"),
        end_el("p"),
        p_el_target("m64|amd64|x64", "msvc-19-amd64"),
        end_el("p"),
        end_el("p"),
        end_el("p"),
        p_el("python|py"),
        end_el("p"),
        p_el("rust"),
        end_el("p"),
        end_el("paths"),
        start_el("targets", vec![]),
        start_el("target", vec![attr("name", "msvc-19-x86")]),
        start_el("scriptexec", vec![attr("path", "...")]),
        end_el("scriptexec"),
        end_el("target"),
        start_el("target", vec![attr("name", "msvc-19-amd64")]),
        start_el("pathadd", vec![attr("value", CLANG_PATH)]),
        end_el("pathadd"),
        start_el("scriptexec", vec![attr("path", VCVARS)]),
        end_el("scriptexec"),
        end_el("target"),
        end_el("targets"),
        end_el("env"),
    ]
}

#[test]
fn mod_get_targets() {
    let config = Config::new(env_sources());

    expect_nexts(config.input("msvc/19", true),
        &["m32(x86)", "m64(amd64, x64)"]);
    expect_nexts(config.input("", true),
        &["gcc(gnuc)", "git", "haskell(hs)", "java", "lua", "nasm",
            ".net(dotnet, netfx, netframework)", "vcpp(msvc)", "python(py)", "rust"]);
    expect_actions(config.input("msvc/19/amd64", false),
        vec![PathAdd(CLANG_PATH.to_owned()),
            ScriptExecute(VCVARS.to_owned())]);
}

/// A document with the error cases configured: a node without a target deep
/// down, a dangling target reference, and childless dead ends.
fn error_doc_events() -> Vec<ConfigEvent> {
    vec![
        ConfigEvent::StartPaths,
        startp(0, &["gcc", "gnuc"], None),
        endp(0),
        startp(0, &["git"], None),
        endp(0),
        startp(0, &["haskell", "hs"], None),
        endp(0),
        startp(0, &["java"], None),
        endp(0),
        startp(0, &["lua"], None),
        endp(0),
        startp(0, &["nasm"], None),
        endp(0),
        startp(0, &[".net", "dotnet", "netfx", "netframework"], None),
        endp(0),
        startp(0, &["vcpp", "msvc"], None),
        endp(0),
        startp(0, &["python", "py"], None),
        startp(1, &["3", "3.4", "3.4.4"], None),
        endp(1),
        startp(1, &["3.3", "3.3.2"], None),
        endp(1),
        startp_at(1, &["2", "2.7", "2.7.8"], Some("python-278-amd64"), pos(35, 6)),
        endp(1),
        startp(1, &["x86"], None),
        endp(1),
        startp(1, &["amd64", "x64"], None),
        endp(1),
        endp(0),
        startp(0, &["rust"], None),
        startp(1, &["stable"], None),
        endp(1),
        startp(1, &["1.11"], None),
        startp(2, &["MSVC"], None),
        endp_at(2, pos(51, 8)),
        endp(1),
        endp_at(0, pos(53, 4)),
        ConfigEvent::EndPaths { position: pos(0, 0) },
        ConfigEvent::StartTargets,
        target("msvc-19-amd64", vec![ScriptExecute("...".to_string())]),
        ConfigEvent::EndTargets,
    ]
}

#[test]
fn get_target_error() {
    let events = error_doc_events();

    // Invalid path
    match get_target(&events, "abc//asd", false) {
        Err(Error::InvalidPath { path }) => assert_eq!(path, "abc//asd"),
        Err(e) => panic!("Unexpect other error: {:?}", e),
        Ok(_) => panic!("Unexpectedly succeed"),
    }

    // Target not set and no child
    match get_target(&events, "rust/1.11/MSVC", false) {
        Err(Error::TargetNotSet { path, path_node_pos, nodes_available }) => {
            assert_eq!(path, "rust/1.11/MSVC");
            assert_eq!(path_node_pos, pos(51, 8));
            assert_eq!(nodes_available, Vec::<String>::new());
        }
        Err(e) => panic!("Unexpect other error: {:?}", e),
        Ok(_) => panic!("Unexpectedly succeed"),
    }

    match get_target(&events, "rust", false) {
        Err(Error::TargetNotSet { path, path_node_pos, nodes_available }) => {
            assert_eq!(path, "rust");
            assert_eq!(path_node_pos, pos(53, 4));
            assert_eq!(nodes_available, vec!["stable", "1.11"]);
        }
        Err(e) => panic!("Unexpect other error: {:?}", e),
        Ok(_) => panic!("Unexpectedly succeed"),
    }

    // Target not exist
    match get_target(&events, "py/2", false) {
        Err(Error::TargetNotExist { path, target_name, target_config_pos }) => {
            assert_eq!(path, "py/2");
            assert_eq!(target_name, "python-278-amd64");
            assert_eq!(target_config_pos, pos(35, 6));
        }
        Err(e) => panic!("Unexpect other error: {:?}", e),
        Ok(_) => panic!("Unexpectedly succeed"),
    }

    // Path node not found
    fn not_found_case(
        events: &Vec<ConfigEvent>,
        full_path: &str,
        correct: &str,
        wrong: &str,
        invalid: bool,
        available: Vec<String>,
    ) {
        match get_target(events, full_path, false) {
            Err(Error::PathNodeNotFound { path, correct_part, incorrect_node, is_invalid, nodes_available }) => {
                assert_eq!(path, full_path);
                assert_eq!(correct_part, correct);
                assert_eq!(incorrect_node, wrong);
                assert_eq!(is_invalid, invalid);
                assert_eq!(nodes_available, available);
            }
            Err(e) => panic!("Unexpected other error: {:?}", e),
            Ok(_) => panic!("Unexpectedly succeed"),
        }
    }

    not_found_case(&events, "python/450", "python/", "450", false,
        vec!["3(3.4, 3.4.4)".to_owned(), "3.3(3.3.2)".to_owned(), "2(2.7, 2.7.8)".to_owned(),
            "x86".to_owned(), "amd64(x64)".to_owned()]);
    not_found_case(&events, "balabala", "(root)", "balabala", false,
        ["gcc(gnuc)", "git", "haskell(hs)", "java", "lua", "nasm",
            ".net(dotnet, netfx, netframework)", "vcpp(msvc)", "python(py)", "rust"]
            .iter().map(|s| s.to_string()).collect());
    not_found_case(&events, "rust/1.11/MSVC/12345", "rust/1.11/MSVC/", "12345", true,
        Vec::<String>::new());
}

#[test]
fn mod_get_target_error() {
    // The same error battery, through the raw-event filter: a configuration
    // with one childless, targetless node.
    let config = Config::new(vec![
        start_el("paths", vec![]),
        p_el("solo"),
        end_el("p"),
        end_el("paths"),
        start_el("targets", vec![]),
        end_el("targets"),
    ]);

    match config.input("solo", false) {
        Err(Error::TargetNotSet { path, nodes_available, .. }) => {
            assert_eq!(path, "solo");
            assert_eq!(nodes_available, Vec::<String>::new());
        }
        Err(e) => panic!("Unexpect other error: {:?}", e),
        Ok(_) => panic!("Unexpectedly succeed"),
    }

    match config.input("absent", false) {
        Err(Error::PathNodeNotFound { correct_part, incorrect_node, is_invalid, nodes_available, .. }) => {
            assert_eq!(correct_part, "(root)");
            assert_eq!(incorrect_node, "absent");
            assert_eq!(is_invalid, false);
            assert_eq!(nodes_available, vec!["solo"]);
        }
        Err(e) => panic!("Unexpect other error: {:?}", e),
        Ok(_) => panic!("Unexpectedly succeed"),
    }

    match config.input("a//b", false) {
        Err(Error::InvalidPath { path }) => assert_eq!(path, "a//b"),
        Err(e) => panic!("Unexpect other error: {:?}", e),
        Ok(_) => panic!("Unexpectedly succeed"),
    }
}

#[test]
fn invalid_query_before_any_event() {
    // A malformed query is rejected whatever the stream holds — even an
    // empty or nonsensical one.
    for events in [Vec::new(), vec![ConfigEvent::StartTargets]] {
        match get_target(&events, "a//b", false) {
            Err(Error::InvalidPath { path }) => assert_eq!(path, "a//b"),
            other => panic!("Unexpected result: {:?}", other),
        }
        match get_target(&events, "/lead", true) {
            Err(Error::InvalidPath { path }) => assert_eq!(path, "/lead"),
            other => panic!("Unexpected result: {:?}", other),
        }
        match get_target(&events, "trail/", false) {
            Err(Error::InvalidPath { path }) => assert_eq!(path, "trail/"),
            other => panic!("Unexpected result: {:?}", other),
        }
    }
}

#[test]
fn stream_end_is_internal_error() {
    // A stream that ends before the resolution concluded breaks the
    // producer contract.
    match get_target(&Vec::new(), "anything", false) {
        Err(Error::UnexpectedInternalError_ReachUnexpectedInternalState) => {}
        other => panic!("Unexpected result: {:?}", other),
    }
}

#[test]
fn source_error_is_fatal() {
    // A reader error aborts the resolution immediately.
    let config = Config::new(vec![
        start_el("paths", vec![]),
        SourceEvent::ReadError { message: "boom".to_string(), position: pos(13, 10) },
        p_el("gcc"),
        end_el("p"),
        end_el("paths"),
    ]);
    match config.input("gcc", false) {
        Err(Error::FailParse { message, position }) => {
            assert_eq!(message, "boom");
            assert_eq!(position, pos(13, 10));
        }
        other => panic!("Unexpected result: {:?}", other),
    }
}

#[test]
fn resolve_example_document() {
    // The worked example: two root nodes, the empty query with listing, and
    // one full resolution merged into a configuration.
    let events = vec![
        ConfigEvent::StartPaths,
        startp(0, &["gcc", "gnuc"], None),
        endp(0),
        startp(0, &["git"], None),
        endp(0),
        ConfigEvent::EndPaths { position: pos(0, 0) },
        ConfigEvent::StartTargets,
        ConfigEvent::EndTargets,
    ];
    match get_target(&events, "", true) {
        Ok(ConfigResult::AvailablePathNodes(nexts)) => {
            assert_eq!(nexts, vec!["gcc(gnuc)", "git"]);
        }
        other => panic!("Unexpected result: {:?}", other),
    }

    let msvc = get_target(&env_events(), "msvc/19/amd64", false).unwrap();
    match &msvc {
        ConfigResult::Actions(actions) => {
            assert_eq!(
                actions,
                &vec![PathAdd(CLANG_PATH.to_owned()), ScriptExecute(VCVARS.to_owned())]
            );
        }
        other => panic!("Unexpected result: {:?}", other),
    }
    let merged = ConfigResult::merge(vec![msvc]).unwrap();
    assert_eq!(merged.paths.values, vec![CLANG_PATH.to_owned()]);
    assert_eq!(merged.scripts, vec![VCVARS.to_owned()]);
    assert!(merged.vars.is_empty());
}

#[test]
fn batch_collects_errors_and_merges() {
    let config = Config::new(env_sources());
    let (merged, errors) = config.batch(vec![
        "msvc/19/amd64".to_string(),
        "balabala".to_string(),
        "msvc/19/x86".to_string(),
    ]);
    assert_eq!(errors.len(), 1);
    match &errors[0] {
        Error::PathNodeNotFound { incorrect_node, .. } => {
            assert_eq!(incorrect_node, "balabala");
        }
        other => panic!("Unexpected error: {:?}", other),
    }
    assert_eq!(merged.paths.values, vec![CLANG_PATH.to_owned()]);
    assert_eq!(merged.scripts, vec![VCVARS.to_owned(), "...".to_owned()]);
}
