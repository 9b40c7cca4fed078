use cargo_near::errors::PipelineError;
use cargo_near::invoke::ProcessOutcome;
use cargo_near::metadata::{CrateMetadata, PackageInfo};
use cargo_near::pipeline::{
    exec, execute, step, AbiCommand, Pipeline, PipelineAction, PipelineEvent,
};

fn bv(s: &str) -> Vec<u8> {
    s.as_bytes().to_vec()
}

fn abi_elf() -> Vec<u8> {
    vec![127,69,76,70,2,1,1,0,0,0,0,0,0,0,0,0,3,0,62,0,1,0,0,0,0,0,0,0,0,0,0,0,0,0,0,0,0,0,0,0,64,0,0,0,0,0,0,0,0,0,0,0,64,0,0,0,0,0,64,0,5,0,4,0,0,0,0,0,0,0,0,0,0,0,0,0,0,0,0,0,0,0,0,0,0,0,0,0,0,0,0,0,0,0,0,0,0,0,0,0,0,0,0,0,0,0,0,0,0,0,0,0,0,0,0,0,0,0,0,0,0,0,0,0,0,0,0,0,1,0,0,0,1,0,0,0,6,0,0,0,0,0,0,0,0,0,0,0,0,0,0,0,128,1,0,0,0,0,0,0,0,0,0,0,0,0,0,0,0,0,0,0,0,0,0,0,16,0,0,0,0,0,0,0,0,0,0,0,0,0,0,0,7,0,0,0,2,0,0,0,0,0,0,0,0,0,0,0,0,0,0,0,0,0,0,0,128,1,0,0,0,0,0,0,144,0,0,0,0,0,0,0,3,0,0,0,1,0,0,0,8,0,0,0,0,0,0,0,24,0,0,0,0,0,0,0,15,0,0,0,3,0,0,0,0,0,0,0,0,0,0,0,0,0,0,0,0,0,0,0,16,2,0,0,0,0,0,0,66,0,0,0,0,0,0,0,0,0,0,0,0,0,0,0,1,0,0,0,0,0,0,0,0,0,0,0,0,0,0,0,23,0,0,0,3,0,0,0,0,0,0,0,0,0,0,0,0,0,0,0,0,0,0,0,82,2,0,0,0,0,0,0,33,0,0,0,0,0,0,0,0,0,0,0,0,0,0,0,1,0,0,0,0,0,0,0,0,0,0,0,0,0,0,0,0,0,0,0,0,0,0,0,0,0,0,0,0,0,0,0,0,0,0,0,0,0,0,0,1,0,0,0,18,0,1,0,0,0,0,0,0,0,0,0,0,0,0,0,0,0,0,0,16,0,0,0,18,0,1,0,0,0,0,0,0,0,0,0,0,0,0,0,0,0,0,0,31,0,0,0,18,0,1,0,0,0,0,0,0,0,0,0,0,0,0,0,0,0,0,0,39,0,0,0,18,0,1,0,0,0,0,0,0,0,0,0,0,0,0,0,0,0,0,0,54,0,0,0,18,0,1,0,0,0,0,0,0,0,0,0,0,0,0,0,0,0,0,0,0,95,95,110,101,97,114,95,97,98,105,95,102,111,111,0,95,95,110,101,97,114,95,97,98,105,95,98,97,114,0,110,111,116,95,97,98,105,0,95,95,110,101,97,114,95,97,98,105,95,102,111,111,0,122,122,95,110,101,97,114,95,97,98,105,0,0,46,116,101,120,116,0,46,115,121,109,116,97,98,0,46,115,116,114,116,97,98,0,46,115,104,115,116,114,116,97,98,0]
}

fn plain_elf() -> Vec<u8> {
    vec![127,69,76,70,2,1,1,0,0,0,0,0,0,0,0,0,3,0,62,0,1,0,0,0,0,0,0,0,0,0,0,0,0,0,0,0,0,0,0,0,64,0,0,0,0,0,0,0,0,0,0,0,64,0,0,0,0,0,64,0,5,0,4,0,0,0,0,0,0,0,0,0,0,0,0,0,0,0,0,0,0,0,0,0,0,0,0,0,0,0,0,0,0,0,0,0,0,0,0,0,0,0,0,0,0,0,0,0,0,0,0,0,0,0,0,0,0,0,0,0,0,0,0,0,0,0,0,0,1,0,0,0,1,0,0,0,6,0,0,0,0,0,0,0,0,0,0,0,0,0,0,0,128,1,0,0,0,0,0,0,0,0,0,0,0,0,0,0,0,0,0,0,0,0,0,0,16,0,0,0,0,0,0,0,0,0,0,0,0,0,0,0,7,0,0,0,2,0,0,0,0,0,0,0,0,0,0,0,0,0,0,0,0,0,0,0,128,1,0,0,0,0,0,0,72,0,0,0,0,0,0,0,3,0,0,0,1,0,0,0,8,0,0,0,0,0,0,0,24,0,0,0,0,0,0,0,15,0,0,0,3,0,0,0,0,0,0,0,0,0,0,0,0,0,0,0,0,0,0,0,200,1,0,0,0,0,0,0,19,0,0,0,0,0,0,0,0,0,0,0,0,0,0,0,1,0,0,0,0,0,0,0,0,0,0,0,0,0,0,0,23,0,0,0,3,0,0,0,0,0,0,0,0,0,0,0,0,0,0,0,0,0,0,0,219,1,0,0,0,0,0,0,33,0,0,0,0,0,0,0,0,0,0,0,0,0,0,0,1,0,0,0,0,0,0,0,0,0,0,0,0,0,0,0,0,0,0,0,0,0,0,0,0,0,0,0,0,0,0,0,0,0,0,0,0,0,0,0,1,0,0,0,18,0,1,0,0,0,0,0,0,0,0,0,0,0,0,0,0,0,0,0,10,0,0,0,18,0,1,0,0,0,0,0,0,0,0,0,0,0,0,0,0,0,0,0,0,112,108,97,105,110,95,102,110,0,111,116,104,101,114,95,102,110,0,0,46,116,101,120,116,0,46,115,121,109,116,97,98,0,46,115,116,114,116,97,98,0,46,115,104,115,116,114,116,97,98,0]
}

fn artifact_line(filenames: &[&str]) -> String {
    let files: Vec<String> = filenames.iter().map(|f| format!("{:?}", f)).collect();
    format!(
        "{{\"reason\":\"compiler-artifact\",\"package_id\":\"contract 0.1.0 (path+file:///p)\",\"manifest_path\":\"/p/Cargo.toml\",\"target\":{{\"name\":\"contract\",\"kind\":[\"cdylib\"],\"crate_types\":[\"cdylib\"],\"required-features\":[],\"src_path\":\"/p/src/lib.rs\",\"edition\":\"2021\",\"doctest\":false,\"test\":false,\"doc\":false}},\"profile\":{{\"opt_level\":\"3\",\"debug_assertions\":false,\"overflow_checks\":false,\"test\":false}},\"features\":[],\"filenames\":[{}],\"executable\":null,\"fresh\":false}}\n",
        files.join(",")
    )
}

fn sample_meta() -> CrateMetadata {
    CrateMetadata {
        manifest_path: bv("/proj/Cargo.toml"),
        root_package: PackageInfo {
            id: bv("contract 0.1.0"),
            name: bv("contract"),
            version: bv("0.1.0"),
            authors: vec![bv("a <a@x>")],
            manifest_path: bv("/proj/Cargo.toml"),
        },
        target_directory: bv("/out/near"),
    }
}

const ROOT_MANIFEST: &str = "[package]\nname = \"contract\"\nversion = \"0.1.0\"\n\n[dependencies.near-sdk]\nversion = \"4.0.0\"\ndefault-features = false\n";

fn start() -> (Pipeline, PipelineAction) {
    execute(
        sample_meta(),
        bv(ROOT_MANIFEST),
        vec![(bv("member/Cargo.toml"), bv("[package]\nname = \"member\"\n"))],
        None,
        bv("HEADER{"),
        bv("}MIDDLE{"),
        bv("}FOOTER"),
    )
}

fn exited(code: i32, stdout: Vec<u8>) -> ProcessOutcome {
    ProcessOutcome::Exited {
        code: Some(code),
        stdout,
    }
}

#[test]
fn exec_resolves_default_manifest_path() {
    let r = exec(&AbiCommand {
        manifest_path: None,
    });
    assert_eq!(r, bv("Cargo.toml"));
    let r = exec(&AbiCommand {
        manifest_path: Some(bv("/x/Cargo.toml")),
    });
    assert_eq!(r, bv("/x/Cargo.toml"));
}

#[test]
fn run_starts_with_release_build() {
    let (p, action) = start();
    match action {
        PipelineAction::RunProcess(inv) => {
            assert_eq!(inv.subcommand, bv("build"));
            assert_eq!(
                inv.args,
                vec![
                    bv("--release"),
                    bv("--message-format=json"),
                    bv("--target-dir=/out/near"),
                ]
            );
            assert_eq!(inv.working_dir, Some(bv("/proj")));
        }
        _ => panic!("expected a process invocation"),
    }
    drop(p);
}

#[test]
fn spawn_failure_reports_unavailable() {
    let (p, _) = start();
    let (p, action) = step(p, PipelineEvent::BuildFinished(ProcessOutcome::SpawnFailed));
    assert!(matches!(
        action,
        PipelineAction::Report(Err(PipelineError::BuildProcessUnavailable))
    ));
    drop(p);
}

#[test]
fn failed_build_reports_exit_code() {
    let (p, _) = start();
    let (_, action) = step(p, PipelineEvent::BuildFinished(exited(101, Vec::new())));
    match action {
        PipelineAction::Report(Err(PipelineError::BuildProcessFailed { command, exit_code })) => {
            assert_eq!(exit_code, Some(101));
            let c = String::from_utf8(command).unwrap();
            assert!(c.starts_with("cargo build"));
        }
        _ => panic!("expected a build failure report"),
    }
}

#[test]
fn empty_build_output_is_no_artifact_and_writes_nothing() {
    let (p, _) = start();
    let (p, action) = step(p, PipelineEvent::BuildFinished(exited(0, Vec::new())));
    assert!(matches!(
        action,
        PipelineAction::Report(Err(PipelineError::NoArtifactProduced))
    ));
    drop(p);
}

#[test]
fn two_shared_libraries_stop_the_run() {
    let (p, _) = start();
    let line = artifact_line(&["/t/a.so", "/t/b.so"]);
    let (_, action) = step(p, PipelineEvent::BuildFinished(exited(0, line.into_bytes())));
    match action {
        PipelineAction::Report(Err(PipelineError::AmbiguousArtifact { candidates })) => {
            assert_eq!(candidates, vec![bv("/t/a.so"), bv("/t/b.so")]);
        }
        _ => panic!("expected an ambiguous artifact report"),
    }
}

fn run_to_staging(elf: Vec<u8>) -> (Pipeline, Vec<(Vec<u8>, Vec<u8>)>) {
    let (p, _) = start();
    let line = artifact_line(&["/t/libcontract.so"]);
    let (p, action) = step(p, PipelineEvent::BuildFinished(exited(0, line.into_bytes())));
    assert!(matches!(action, PipelineAction::ReadFile(ref f) if f == &bv("/t/libcontract.so")));
    let (p, action) = step(p, PipelineEvent::ArtifactRead(Some(elf)));
    match action {
        PipelineAction::StageSnapshot(plan) => (p, plan.files),
        _ => panic!("expected a snapshot plan"),
    }
}

#[test]
fn snapshot_plan_edits_root_and_copies_members_verbatim() {
    let (_, files) = run_to_staging(abi_elf());
    assert_eq!(files.len(), 4);
    assert_eq!(files[0].0, bv("Cargo.toml"));
    let root = String::from_utf8(files[0].1.clone()).unwrap();
    assert!(root.contains("rlib"));
    assert!(root.contains("lto = false"));
    assert!(root.contains("metadata-gen"));
    assert_eq!(files[1].0, bv("member/Cargo.toml"));
    assert_eq!(files[1].1, bv("[package]\nname = \"member\"\n"));
    assert_eq!(files[2].0, bv("metadata-gen/Cargo.toml"));
    let agg = String::from_utf8(files[2].1.clone()).unwrap();
    assert!(agg.contains("near-sdk"));
    assert!(!agg.contains("default-features"));
    assert_eq!(files[3].0, bv("metadata-gen/src/main.rs"));
}

#[test]
fn generated_program_binds_and_calls_each_entry_point_once() {
    let (_, files) = run_to_staging(abi_elf());
    let main_rs = String::from_utf8(files[3].1.clone()).unwrap();
    assert_eq!(
        main_rs,
        "HEADER{fn __near_abi_bar() -> near_sdk::__private::AbiRoot;\nfn __near_abi_foo() -> near_sdk::__private::AbiRoot;\n}MIDDLE{__near_abi_bar(), __near_abi_foo(), }FOOTER"
    );
}

#[test]
fn zero_entry_points_still_generate_a_program() {
    let (_, files) = run_to_staging(plain_elf());
    let main_rs = String::from_utf8(files[3].1.clone()).unwrap();
    assert_eq!(main_rs, "HEADER{}MIDDLE{}FOOTER");
}

fn run_to_aggregator() -> Pipeline {
    let (p, _) = run_to_staging(abi_elf());
    let (p, action) = step(p, PipelineEvent::SnapshotStaged(Some(bv("/tmp/snap1"))));
    match action {
        PipelineAction::RunProcess(inv) => {
            assert_eq!(inv.subcommand, bv("run"));
            assert!(inv.args.contains(&bv("--package")));
            assert!(inv.args.contains(&bv("metadata-gen")));
            assert!(inv.args.contains(&bv("--manifest-path=/tmp/snap1/Cargo.toml")));
            assert_eq!(inv.working_dir, Some(bv("/tmp/snap1")));
        }
        _ => panic!("expected the aggregator invocation"),
    }
    p
}

#[test]
fn successful_run_writes_stamped_document_then_cleans_up() {
    let p = run_to_aggregator();
    let captured = bv("{\"body\":[{\"f\":1},{\"f\":2}],\"metadata\":{}}");
    let (p, action) = step(p, PipelineEvent::AggregatorFinished(exited(0, captured)));
    let contents = match action {
        PipelineAction::WriteFile { path, contents } => {
            assert_eq!(path, bv("/out/near/abi.json"));
            contents
        }
        _ => panic!("expected the document write"),
    };
    let doc: serde_json::Value = serde_json::from_slice(&contents).unwrap();
    assert_eq!(doc["metadata"]["name"], serde_json::Value::String("contract".into()));
    assert_eq!(doc["body"].as_array().unwrap().len(), 2);
    let (p, action) = step(p, PipelineEvent::DocumentWritten(true));
    assert!(matches!(action, PipelineAction::RemoveSnapshot(ref d) if d == &bv("/tmp/snap1")));
    let (_, action) = step(p, PipelineEvent::SnapshotRemoved(true));
    match action {
        PipelineAction::Report(Ok(result)) => {
            assert_eq!(result.dest_abi, bv("/out/near/abi.json"));
        }
        _ => panic!("expected a successful report"),
    }
}

#[test]
fn failed_aggregator_still_removes_snapshot() {
    let p = run_to_aggregator();
    let (p, action) = step(p, PipelineEvent::AggregatorFinished(exited(1, Vec::new())));
    assert!(matches!(action, PipelineAction::RemoveSnapshot(ref d) if d == &bv("/tmp/snap1")));
    let (_, action) = step(p, PipelineEvent::SnapshotRemoved(true));
    match action {
        PipelineAction::Report(Err(PipelineError::BuildProcessFailed { exit_code, .. })) => {
            assert_eq!(exit_code, Some(1));
        }
        _ => panic!("expected the aggregator failure report"),
    }
}

#[test]
fn cleanup_failure_never_masks_the_result() {
    let p = run_to_aggregator();
    let captured = bv("{\"body\":[],\"metadata\":{}}");
    let (p, action) = step(p, PipelineEvent::AggregatorFinished(exited(0, captured)));
    assert!(matches!(action, PipelineAction::WriteFile { .. }));
    let (p, _) = step(p, PipelineEvent::DocumentWritten(true));
    let (_, action) = step(p, PipelineEvent::SnapshotRemoved(false));
    assert!(matches!(action, PipelineAction::Report(Ok(_))));
}

#[test]
fn unparsable_aggregator_output_is_a_parse_failure_after_cleanup() {
    let p = run_to_aggregator();
    let (p, action) = step(p, PipelineEvent::AggregatorFinished(exited(0, bv("not json"))));
    assert!(matches!(action, PipelineAction::RemoveSnapshot(_)));
    let (_, action) = step(p, PipelineEvent::SnapshotRemoved(true));
    assert!(matches!(
        action,
        PipelineAction::Report(Err(PipelineError::DocumentParse))
    ));
}

#[test]
fn workspace_member_manifest_receives_the_target_edits() {
    let member_manifest = "[package]\nname = \"contract\"\nversion = \"0.1.0\"\n\n[dependencies.near-sdk]\nversion = \"4.0.0\"\ndefault-features = false\n";
    let (p, _) = execute(
        sample_meta(),
        bv("[workspace]\nmembers = [\"contract\"]\n"),
        vec![(bv("contract/Cargo.toml"), bv(member_manifest))],
        Some(bv("contract/Cargo.toml")),
        bv("H{"),
        bv("}M{"),
        bv("}F"),
    );
    let line = artifact_line(&["/t/libcontract.so"]);
    let (p, _) = step(p, PipelineEvent::BuildFinished(exited(0, line.into_bytes())));
    let (_, action) = step(p, PipelineEvent::ArtifactRead(Some(abi_elf())));
    let files = match action {
        PipelineAction::StageSnapshot(plan) => plan.files,
        _ => panic!("expected a snapshot plan"),
    };
    let root = String::from_utf8(files[0].1.clone()).unwrap();
    assert!(root.contains("metadata-gen"));
    assert!(!root.contains("rlib"));
    let member = String::from_utf8(files[1].1.clone()).unwrap();
    assert!(member.contains("rlib"));
    assert!(member.contains("lto = false"));
    let agg = String::from_utf8(files[2].1.clone()).unwrap();
    assert!(agg.contains("near-sdk"));
    assert!(!agg.contains("default-features"));
}
