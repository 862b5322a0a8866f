use wasm::ci_reports::{CIAssert, CIFullReport, CIReportData, CIReportHeader};
use wasm::deltas::{generate, AssertDifference, DeltaError, FileDelta, FileDeltaType};

fn passing(line_number: u32, command: &str) -> CIAssert {
    CIAssert { error: None, line_number, command: command.to_string() }
}

fn failing(line_number: u32, command: &str, error: &str) -> CIAssert {
    CIAssert { error: Some(error.to_string()), line_number, command: command.to_string() }
}

fn asserts(filepath: &str, results: Vec<CIAssert>) -> CIReportHeader {
    CIReportHeader { filepath: filepath.to_string(), data: CIReportData::Assert { results } }
}

fn script_error(filepath: &str) -> CIReportHeader {
    CIReportHeader {
        filepath: filepath.to_string(),
        data: CIReportData::ScriptError {
            error: "parse error".to_string(),
            context: "ctx".to_string(),
            line_number: Some(1),
            command: None,
        },
    }
}

#[test]
fn identical_reports_have_no_deltas() {
    let old = CIFullReport { entries: vec![asserts("a.wast", vec![passing(1, "x")]), script_error("b.wast")] };
    let new = old.clone();
    let deltas = generate(&old, &new).unwrap();
    assert!(deltas.is_empty());
    assert_eq!(deltas.to_string(), "<b> No changes detected </b>\n");
}

#[test]
fn deltas_come_in_byte_order_of_paths_each_once() {
    let old = CIFullReport {
        entries: vec![asserts("z.wast", vec![]), asserts("b.wast", vec![]), asserts("m.wast", vec![])],
    };
    let new = CIFullReport {
        entries: vec![script_error("m.wast"), asserts("a.wast", vec![]), asserts("z.wast", vec![])],
    };
    let deltas = generate(&old, &new).unwrap();
    assert_eq!(
        deltas.deltas(),
        &vec![
            FileDelta { filename: "a.wast", ty: FileDeltaType::FileAdded },
            FileDelta { filename: "b.wast", ty: FileDeltaType::FileDeleted },
            FileDelta { filename: "m.wast", ty: FileDeltaType::NewScriptError },
        ]
    );
}

#[test]
fn script_error_resolved_is_reported() {
    let old = CIFullReport { entries: vec![script_error("a.wast")] };
    let new = CIFullReport { entries: vec![asserts("a.wast", vec![passing(1, "x")])] };
    let deltas = generate(&old, &new).unwrap();
    assert_eq!(deltas.deltas(), &vec![FileDelta { filename: "a.wast", ty: FileDeltaType::ScriptErrorResolved }]);
    assert_eq!(deltas.len(), 1);
}

#[test]
fn later_entry_of_a_path_counts() {
    let old = CIFullReport { entries: vec![script_error("a.wast"), asserts("a.wast", vec![])] };
    let new = CIFullReport { entries: vec![script_error("a.wast")] };
    let deltas = generate(&old, &new).unwrap();
    assert_eq!(deltas.deltas(), &vec![FileDelta { filename: "a.wast", ty: FileDeltaType::NewScriptError }]);
}

#[test]
fn assert_changes_are_sorted_into_three_lists() {
    let old = CIFullReport {
        entries: vec![asserts(
            "a.wast",
            vec![failing(1, "c1", "e1"), passing(2, "c2"), failing(3, "c3", "e3"), failing(4, "c4", "same"), passing(5, "c5")],
        )],
    };
    let new = CIFullReport {
        entries: vec![asserts(
            "a.wast",
            vec![passing(5, "c5"), failing(4, "c4", "same"), failing(3, "c3", "other"), failing(2, "c2", "e2"), passing(1, "c1")],
        )],
    };
    let deltas = generate(&old, &new).unwrap();
    let list = deltas.deltas();
    assert_eq!(list.len(), 1);
    assert_eq!(list[0].filename, "a.wast");
    match &list[0].ty {
        FileDeltaType::AssertsChanged { now_passing, now_failing, now_with_different_error_message } => {
            assert_eq!(now_passing, &vec![AssertDifference { line_number: 1, command: "c1", error: "e1" }]);
            assert_eq!(now_failing, &vec![AssertDifference { line_number: 2, command: "c2", error: "e2" }]);
            assert_eq!(now_with_different_error_message.len(), 1);
            assert_eq!(now_with_different_error_message[0].line_number, 3);
            assert_eq!(now_with_different_error_message[0].old_error, "e3");
            assert_eq!(now_with_different_error_message[0].new_error, "other");
        }
        other => panic!("unexpected delta {:?}", other),
    }
    assert_eq!(
        deltas.to_string(),
        "\\\n            ## PR delta:\n\n            | **File** | **Notes** | \u{2753} |\n            |:--------:|:---------:|:--:|\n            | a.wast | +1 passing<br>-1 failing<br>1 with changed errors | \u{26a0} |\n\n"
    );
}

#[test]
fn different_assert_counts_are_an_error() {
    let old = CIFullReport { entries: vec![asserts("a.wast", vec![passing(1, "x")])] };
    let new = CIFullReport { entries: vec![asserts("a.wast", vec![])] };
    assert_eq!(
        generate(&old, &new).err(),
        Some(DeltaError::DifferentAssertCounts { filepath: "a.wast".to_string() })
    );
}

#[test]
fn missing_partner_is_an_error() {
    let old = CIFullReport { entries: vec![asserts("a.wast", vec![failing(7, "x", "boom")])] };
    let new = CIFullReport { entries: vec![asserts("a.wast", vec![passing(8, "x")])] };
    assert_eq!(
        generate(&old, &new).err(),
        Some(DeltaError::MissingAssert {
            filepath: "a.wast".to_string(),
            line_number: 7,
            command: "x".to_string(),
            error: Some("boom".to_string()),
        })
    );
}

#[test]
fn first_error_in_path_order_wins() {
    let old = CIFullReport {
        entries: vec![asserts("b.wast", vec![passing(1, "x")]), asserts("a.wast", vec![passing(1, "y")])],
    };
    let new = CIFullReport { entries: vec![asserts("b.wast", vec![]), asserts("a.wast", vec![])] };
    assert_eq!(
        generate(&old, &new).err(),
        Some(DeltaError::DifferentAssertCounts { filepath: "a.wast".to_string() })
    );
}

#[test]
fn rows_show_counts_in_decimal_and_icons() {
    let mut old_results = Vec::new();
    let mut new_results = Vec::new();
    for i in 0..12u32 {
        old_results.push(failing(i, "c", "e"));
        new_results.push(passing(i, "c"));
    }
    let old = CIFullReport { entries: vec![asserts("p.wast", old_results), asserts("f.wast", vec![passing(1, "c")])] };
    let new = CIFullReport { entries: vec![asserts("p.wast", new_results), asserts("f.wast", vec![failing(1, "c", "e")])] };
    let deltas = generate(&old, &new).unwrap();
    let list = deltas.deltas();
    assert_eq!(list[0].to_row("shown/f"), "| shown/f | -1 failing<br>| \u{274c} |\n");
    assert_eq!(list[1].to_row("shown/p"), "| shown/p | +12 passing<br>| \u{2705} |\n");
    assert_eq!(deltas.render(&vec!["only one".to_string()]), None);
    let table = deltas.render(&vec!["F".to_string(), "P".to_string()]).unwrap();
    assert!(table.ends_with("| F | -1 failing<br>| \u{274c} |\n\n| P | +12 passing<br>| \u{2705} |\n\n"));
}

#[test]
fn rows_of_whole_file_changes() {
    let added = FileDelta { filename: "a", ty: FileDeltaType::FileAdded };
    let deleted = FileDelta { filename: "a", ty: FileDeltaType::FileDeleted };
    let broken = FileDelta { filename: "a", ty: FileDeltaType::NewScriptError };
    let mended = FileDelta { filename: "a", ty: FileDeltaType::ScriptErrorResolved };
    assert_eq!(added.to_row("a"), "| a | File missing in target branch | \u{26a0} |\n");
    assert_eq!(deleted.to_row("a"), "| a | File missing in this PR | \u{26a0} |\n");
    assert_eq!(broken.to_row("a"), "| a | File no longer compiles | \u{274c} |\n");
    assert_eq!(mended.to_row("a"), "| a | File now compiles | \u{2705} |\n");
}

#[test]
fn paths_are_ordered_by_their_bytes() {
    let names = ["b", "a/b", "a", "\u{e9}", "z", "a/", "A", ""];
    let old = CIFullReport { entries: names.iter().map(|n| asserts(n, vec![])).collect() };
    let new = CIFullReport { entries: vec![] };
    let deltas = generate(&old, &new).unwrap();
    let listed: Vec<&str> = deltas.deltas().iter().map(|d| d.filename).collect();
    assert_eq!(listed, vec!["", "A", "a", "a/", "a/b", "b", "z", "\u{e9}"]);
    assert!(deltas.deltas().iter().all(|d| d.ty == FileDeltaType::FileDeleted));
}
