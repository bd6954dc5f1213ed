//! Argument classification tests.

use envtool::error::Error;
use envtool::input::InputType;

fn args(list: &[&str]) -> Vec<String> {
    let mut v = vec!["env.exe".to_owned()];
    v.extend(list.iter().map(|s| s.to_string()));
    v
}

fn expect_input(list: &[&str], expected: InputType) {
    match InputType::get(args(list)) {
        Ok(ret_val) => assert_eq!(ret_val, expected),
        Err(e) => panic!("unexpected error: {:?}", e),
    }
}

fn expect_list(list: &[&str], path: &str) {
    expect_input(list, InputType::GetInfo { path: path.to_owned(), require_list: true });
}

fn expect_target(list: &[&str], path: &str) {
    expect_input(list, InputType::GetInfo { path: path.to_owned(), require_list: false });
}

fn expect_paths(list: &[&str], paths: &[&str]) {
    expect_input(
        list,
        InputType::Paths { paths: paths.iter().map(|arg| arg.to_string()).collect() },
    );
}

fn expect_error(list: &[&str], invalid_arg: &str) {
    match InputType::get(args(list)) {
        Ok(ret_val) => panic!("Unexpected success: {:?}", ret_val),
        Err(Error::InvalidArgument { arg }) => assert_eq!(arg, invalid_arg),
        Err(e) => panic!("Unexpected other error: {:?}", e),
    }
}

#[test]
fn input_type_get() {
    expect_input(&[], InputType::Help);
    expect_input(&["--version"], InputType::Version);
    expect_input(&["-v"], InputType::Version);
    expect_input(&["--open-config"], InputType::OpenConfig);
    expect_list(&["--list:123"], "123");
    expect_list(&["-l456"], "456");
    expect_target(&["--target:789"], "789");
    expect_paths(&["asdasd", "qwedw"], &["asdasd", "qwedw"]);
    expect_paths(&["asdwefdw"], &["asdwefdw"]);
    expect_error(&["aed", "--list:Qwde"], "--list:Qwde");
    expect_error(&["aed", "asdwef", "-tfwse", "asdwe"], "-tfwse");
}

#[test]
fn single_argument_is_lowercased() {
    // The one-argument form folds case before matching, so an uppercase
    // flag still counts — and its payload comes out folded too.
    match InputType::get(args(&["--LIST:AbC"])) {
        Ok(InputType::GetInfo { path, require_list }) => {
            assert_eq!(path, "abc");
            assert!(require_list);
        }
        other => panic!("Unexpected result: {:?}", other),
    }
    match InputType::get(args(&["SomePath"])) {
        Ok(InputType::Paths { paths }) => assert_eq!(paths, vec!["somepath".to_owned()]),
        other => panic!("Unexpected result: {:?}", other),
    }
}

#[test]
fn multi_argument_keeps_case() {
    // The multi-argument form does not fold case: an uppercase flag is just
    // a path there.
    match InputType::get(args(&["--LIST:AbC", "other"])) {
        Ok(InputType::Paths { paths }) => {
            assert_eq!(paths, vec!["--LIST:AbC".to_owned(), "other".to_owned()]);
        }
        other => panic!("Unexpected result: {:?}", other),
    }
}
