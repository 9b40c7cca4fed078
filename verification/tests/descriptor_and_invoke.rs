use cargo_near::errors::PipelineError;
use cargo_near::invoke::{build_invocation, describe_invocation, interpret_outcome, ProcessOutcome};
use cargo_near::metadata::{extract_metadata, CrateMetadata, PackageInfo};
use cargo_near::pipeline::{execute, step, PipelineAction, PipelineEvent};

fn bv(s: &str) -> Vec<u8> {
    s.as_bytes().to_vec()
}

fn package(id: &str, name: &str) -> PackageInfo {
    PackageInfo {
        id: bv(id),
        name: bv(name),
        version: bv("0.1.0"),
        authors: vec![bv("a <a@x>")],
        manifest_path: bv("/w/p/Cargo.toml"),
    }
}

#[test]
fn collect_finds_root_package_and_target_dir() {
    let cm = CrateMetadata::collect(
        bv("/w/Cargo.toml"),
        &bv("/w"),
        &bv("/w"),
        &bv("/w/target"),
        vec![package("dep 1.0.0", "dep"), package("contract 0.1.0", "my-contract")],
        Some(bv("contract 0.1.0")),
    )
    .unwrap();
    assert_eq!(cm.root_package.name, bv("my-contract"));
    assert_eq!(cm.target_directory, bv("/w/target/near"));
}

#[test]
fn collect_in_workspace_uses_normalized_package_folder() {
    let cm = CrateMetadata::collect(
        bv("/w/p/Cargo.toml"),
        &bv("/w/p"),
        &bv("/w"),
        &bv("/w/target"),
        vec![package("contract 0.1.0", "my-contract")],
        Some(bv("contract 0.1.0")),
    )
    .unwrap();
    assert_eq!(cm.target_directory, bv("/w/target/near/my_contract"));
}

#[test]
fn collect_without_root_id_fails() {
    let r = CrateMetadata::collect(
        bv("/w/Cargo.toml"),
        &bv("/w"),
        &bv("/w"),
        &bv("/w/target"),
        vec![package("contract 0.1.0", "contract")],
        None,
    );
    assert!(matches!(r, Err(PipelineError::ManifestResolution)));
}

#[test]
fn collect_with_unknown_root_id_fails() {
    let r = CrateMetadata::collect(
        bv("/w/Cargo.toml"),
        &bv("/w"),
        &bv("/w"),
        &bv("/w/target"),
        vec![package("contract 0.1.0", "contract")],
        Some(bv("nobody 9.9.9")),
    );
    assert!(matches!(r, Err(PipelineError::ManifestResolution)));
}

#[test]
fn metadata_is_derived_from_the_root_package() {
    let m = extract_metadata(&package("contract 0.1.0", "contract"));
    assert_eq!(m.name, Some(bv("contract")));
    assert_eq!(m.version, Some(bv("0.1.0")));
    assert_eq!(m.authors, vec![bv("a <a@x>")]);
}

#[test]
fn outcomes_map_to_typed_failures() {
    let ok = interpret_outcome(
        bv("cargo build"),
        ProcessOutcome::Exited {
            code: Some(0),
            stdout: bv("out"),
        },
    );
    assert_eq!(ok.unwrap(), bv("out"));
    let spawn = interpret_outcome(bv("cargo build"), ProcessOutcome::SpawnFailed);
    assert!(matches!(spawn, Err(PipelineError::BuildProcessUnavailable)));
    let failed = interpret_outcome(
        bv("cargo build"),
        ProcessOutcome::Exited {
            code: Some(7),
            stdout: Vec::new(),
        },
    );
    match failed {
        Err(PipelineError::BuildProcessFailed { command, exit_code }) => {
            assert_eq!(command, bv("cargo build"));
            assert_eq!(exit_code, Some(7));
        }
        _ => panic!("expected a build failure"),
    }
}

#[test]
fn invocation_description_lists_subcommand_and_args() {
    let inv = build_invocation(Some(bv("/w")), &bv("/w/target/near"));
    let desc = describe_invocation(&inv);
    assert_eq!(
        String::from_utf8(desc).unwrap(),
        "cargo build --release --message-format=json --target-dir=/w/target/near"
    );
}

fn sample_run() -> (cargo_near::pipeline::Pipeline, PipelineAction) {
    let meta = CrateMetadata {
        manifest_path: bv("/w/Cargo.toml"),
        root_package: package("contract 0.1.0", "contract"),
        target_directory: bv("/w/target/near"),
    };
    execute(
        meta,
        bv("[package]\nname = \"contract\"\n"),
        Vec::new(),
        None,
        bv("H"),
        bv("M"),
        bv("F"),
    )
}

#[test]
fn unreadable_artifact_stops_the_run() {
    let (p, _) = sample_run();
    let line = "{\"reason\":\"compiler-artifact\",\"package_id\":\"contract 0.1.0 (path+file:///p)\",\"manifest_path\":\"/p/Cargo.toml\",\"target\":{\"name\":\"contract\",\"kind\":[\"cdylib\"],\"crate_types\":[\"cdylib\"],\"required-features\":[],\"src_path\":\"/p/src/lib.rs\",\"edition\":\"2021\",\"doctest\":false,\"test\":false,\"doc\":false},\"profile\":{\"opt_level\":\"3\",\"debug_assertions\":false,\"overflow_checks\":false,\"test\":false},\"features\":[],\"filenames\":[\"/t/c.so\"],\"executable\":null,\"fresh\":false}\n";
    let (p, _) = step(
        p,
        PipelineEvent::BuildFinished(ProcessOutcome::Exited {
            code: Some(0),
            stdout: bv(line),
        }),
    );
    let (_, action) = step(p, PipelineEvent::ArtifactRead(None));
    assert!(matches!(
        action,
        PipelineAction::Report(Err(PipelineError::SnapshotIo))
    ));
}

#[test]
fn garbage_artifact_bytes_are_unrecognized() {
    let (p, _) = sample_run();
    let line = "{\"reason\":\"compiler-artifact\",\"package_id\":\"contract 0.1.0 (path+file:///p)\",\"manifest_path\":\"/p/Cargo.toml\",\"target\":{\"name\":\"contract\",\"kind\":[\"cdylib\"],\"crate_types\":[\"cdylib\"],\"required-features\":[],\"src_path\":\"/p/src/lib.rs\",\"edition\":\"2021\",\"doctest\":false,\"test\":false,\"doc\":false},\"profile\":{\"opt_level\":\"3\",\"debug_assertions\":false,\"overflow_checks\":false,\"test\":false},\"features\":[],\"filenames\":[\"/t/c.so\"],\"executable\":null,\"fresh\":false}\n";
    let (p, _) = step(
        p,
        PipelineEvent::BuildFinished(ProcessOutcome::Exited {
            code: Some(0),
            stdout: bv(line),
        }),
    );
    let (_, action) = step(p, PipelineEvent::ArtifactRead(Some(bv("garbage"))));
    assert!(matches!(
        action,
        PipelineAction::Report(Err(PipelineError::UnrecognizedBinaryFormat))
    ));
}
