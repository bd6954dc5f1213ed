//! Merge tests: the consolidation order, the identity element, the
//! concatenation law on concrete values, and the listing rejection.

use std::collections::HashSet;

use envtool::error::Error;
use envtool::result::ConfigResult::{self, Actions, AvailablePathNodes};
use envtool::result::TargetAction::{PathAdd, ScriptExecute, VariableAdd};
use envtool::result::{MergedResult, MergedVarAdd};

fn path(value: &str) -> envtool::result::TargetAction {
    PathAdd(value.to_owned())
}

fn script(p: &str) -> envtool::result::TargetAction {
    ScriptExecute(p.to_owned())
}

fn varadd(var: &str, value: &str) -> envtool::result::TargetAction {
    VariableAdd(var.to_owned(), value.to_owned())
}

fn mergedadd(var: &str, values: &[&str]) -> MergedVarAdd {
    MergedVarAdd {
        var: var.to_owned(),
        values: values.iter().map(|s| s.to_string()).collect(),
    }
}

#[test]
pub fn result_merge() {
    // Normal: results concatenate in caller order, actions keep their
    // declared order, and per-variable buckets keep the same order.
    match ConfigResult::merge(vec![
        Actions(vec![path("123"), script("456"), varadd("789", "101112")]),
        Actions(vec![script("404142"), path("161718"), path("192021"), varadd("789", "222324"), varadd("252627", "282930")]),
        Actions(vec![varadd("313233", "343536"), varadd("313233", "373839"), script("131415"), varadd("789", "434445")]),
        Actions(vec![path("474849")]),
        Actions(vec![path("505152")]),
    ]) {
        Ok(MergedResult { vars, paths, scripts }) => {
            assert_eq!(vars.into_iter().collect::<HashSet<MergedVarAdd>>(), vec![
                mergedadd("252627", &["282930"]),
                mergedadd("313233", &["343536", "373839"]),
                mergedadd("789", &["101112", "222324", "434445"]),
            ].into_iter().collect::<HashSet<MergedVarAdd>>());
            assert_eq!(paths, mergedadd("PATH", &["123", "161718", "192021", "474849", "505152"]));
            assert_eq!(scripts, vec![
                "456".to_owned(),
                "404142".to_owned(),
                "131415".to_owned(),
            ]);
        }
        Err(e) => panic!("Unexpeted error: {:?}", e),
    }

    // Empty
    match ConfigResult::merge(Vec::new()) {
        Ok(merged) => assert_eq!(merged, MergedResult::new()),
        Err(e) => panic!("Unexpected error: {:?}", e),
    };

    // Internal error
    match ConfigResult::merge(vec![
        Actions(vec![
            PathAdd("123".to_owned()),
            ScriptExecute("456".to_owned()),
        VariableAdd("var2".to_owned(),"789".to_owned()),
        ]),
        AvailablePathNodes(vec!["123".to_owned(), "456".to_owned()]),
        AvailablePathNodes(vec!["789".to_owned(), "123".to_owned()]),
        Actions(vec![
        VariableAdd("var1".to_owned(), "101112".to_owned()),
            ScriptExecute("456".to_owned()),
        ]),
        AvailablePathNodes(vec!["101112".to_owned()]),
        Actions(vec![
            PathAdd("131415".to_owned())
        ])
    ]) {
        Ok(_) => panic!("Unexpected succeed"),
        Err(Error::UnexpectedInternalError_AvailableNextsCannotCombine) => println!("Get expected error"),
        Err(e) => panic!("Unexpected other error: {:?}", e),
    }
}

#[test]
fn merge_empty_is_identity() {
    // The empty merge is the empty configuration...
    let merged = ConfigResult::merge(Vec::new()).unwrap();
    assert!(merged.vars.is_empty());
    assert!(merged.paths.values.is_empty());
    assert_eq!(merged.paths.var, "PATH");
    assert!(merged.scripts.is_empty());
    // ... and appending it to a batch changes nothing.
    let some = || vec![Actions(vec![PathAdd("a".to_owned()), ScriptExecute("s".to_owned())])];
    let alone = ConfigResult::merge(some()).unwrap();
    let mut padded = some();
    padded.extend(Vec::new());
    assert_eq!(ConfigResult::merge(padded).unwrap(), alone);
}

#[test]
fn merge_concatenation_order() {
    // merge([A, B]) lists A's contributions before B's, list by list and
    // bucket by bucket.
    let a = || Actions(vec![
        PathAdd("p1".to_owned()),
        VariableAdd("V".to_owned(), "v1".to_owned()),
        ScriptExecute("s1".to_owned()),
    ]);
    let b = || Actions(vec![
        ScriptExecute("s2".to_owned()),
        PathAdd("p2".to_owned()),
        VariableAdd("V".to_owned(), "v2".to_owned()),
        VariableAdd("W".to_owned(), "w1".to_owned()),
    ]);
    let ma = ConfigResult::merge(vec![a()]).unwrap();
    let mb = ConfigResult::merge(vec![b()]).unwrap();
    let mab = ConfigResult::merge(vec![a(), b()]).unwrap();

    let mut paths = ma.paths.values.clone();
    paths.extend(mb.paths.values.clone());
    assert_eq!(mab.paths.values, paths);

    let mut scripts = ma.scripts.clone();
    scripts.extend(mb.scripts.clone());
    assert_eq!(mab.scripts, scripts);

    assert_eq!(mab.vars.len(), 2);
    assert_eq!(mab.vars[0], MergedVarAdd {
        var: "V".to_owned(),
        values: vec!["v1".to_owned(), "v2".to_owned()],
    });
    assert_eq!(mab.vars[1], MergedVarAdd {
        var: "W".to_owned(),
        values: vec!["w1".to_owned()],
    });
}

#[test]
fn merge_rejects_listing_anywhere() {
    // A listing element fails the merge wherever it stands.
    let actions = || Actions(vec![PathAdd("p".to_owned())]);
    let listing = || AvailablePathNodes(vec!["n".to_owned()]);
    for position in 0..3 {
        let mut input = vec![actions(), actions()];
        input.insert(position, listing());
        match ConfigResult::merge(input) {
            Err(Error::UnexpectedInternalError_AvailableNextsCannotCombine) => {}
            other => panic!("Unexpected result: {:?}", other),
        }
    }
    match ConfigResult::merge(vec![listing()]) {
        Err(Error::UnexpectedInternalError_AvailableNextsCannotCombine) => {}
        other => panic!("Unexpected result: {:?}", other),
    }
}
