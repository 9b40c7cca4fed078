use cargo_near::artifact::{locate_artifact, parse_build_events, BuildEvent};
use cargo_near::errors::PipelineError;

fn bv(s: &str) -> Vec<u8> {
    s.as_bytes().to_vec()
}

fn artifact_line(filenames: &[&str]) -> String {
    let files: Vec<String> = filenames.iter().map(|f| format!("{:?}", f)).collect();
    format!(
        "{{\"reason\":\"compiler-artifact\",\"package_id\":\"contract 0.1.0 (path+file:///p)\",\"manifest_path\":\"/p/Cargo.toml\",\"target\":{{\"name\":\"contract\",\"kind\":[\"cdylib\"],\"crate_types\":[\"cdylib\"],\"required-features\":[],\"src_path\":\"/p/src/lib.rs\",\"edition\":\"2021\",\"doctest\":false,\"test\":false,\"doc\":false}},\"profile\":{{\"opt_level\":\"3\",\"debug_assertions\":false,\"overflow_checks\":false,\"test\":false}},\"features\":[],\"filenames\":[{}],\"executable\":null,\"fresh\":false}}\n",
        files.join(",")
    )
}

#[test]
fn parses_artifact_events_from_stream() {
    let text = artifact_line(&["/t/libcontract.so", "/t/contract.d"]);
    let events = parse_build_events(&text.into_bytes());
    assert_eq!(events.len(), 1);
    match &events[0] {
        BuildEvent::CompilerArtifact { filenames } => {
            assert_eq!(filenames, &vec![bv("/t/libcontract.so"), bv("/t/contract.d")]);
        }
        BuildEvent::Other => panic!("expected an artifact event"),
    }
}

#[test]
fn one_shared_library_is_located() {
    let text = artifact_line(&["/t/libcontract.so", "/t/contract.d"]);
    let events = parse_build_events(&text.into_bytes());
    let r = locate_artifact(&events);
    assert_eq!(r.unwrap(), bv("/t/libcontract.so"));
}

#[test]
fn no_events_is_no_artifact() {
    let events: Vec<BuildEvent> = Vec::new();
    assert!(matches!(
        locate_artifact(&events),
        Err(PipelineError::NoArtifactProduced)
    ));
}

#[test]
fn no_shared_library_is_no_artifact() {
    let events = vec![BuildEvent::CompilerArtifact {
        filenames: vec![bv("/t/contract.d"), bv("/t/contract.rlib")],
    }];
    assert!(matches!(
        locate_artifact(&events),
        Err(PipelineError::NoArtifactProduced)
    ));
}

#[test]
fn two_shared_libraries_are_ambiguous() {
    let events = vec![BuildEvent::CompilerArtifact {
        filenames: vec![bv("/t/a.so"), bv("/t/b.so")],
    }];
    match locate_artifact(&events) {
        Err(PipelineError::AmbiguousArtifact { candidates }) => {
            assert_eq!(candidates, vec![bv("/t/a.so"), bv("/t/b.so")]);
        }
        _ => panic!("expected an ambiguous artifact"),
    }
}

#[test]
fn only_the_last_artifact_event_counts() {
    let events = vec![
        BuildEvent::CompilerArtifact {
            filenames: vec![bv("/t/old.so")],
        },
        BuildEvent::Other,
        BuildEvent::CompilerArtifact {
            filenames: vec![bv("/t/new.so")],
        },
    ];
    assert_eq!(locate_artifact(&events).unwrap(), bv("/t/new.so"));
}
