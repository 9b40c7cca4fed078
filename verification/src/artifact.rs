//! Compiled-artifact location: reduces the build-event stream to exactly one
//! produced shared-library path.

use vstd::prelude::*;
use vstd::string::StringSliceAdditionalSpecFns;
use crate::errors::PipelineError;
use crate::symbols::views_of;
use crate::text::{ends_with, is_suffix_of, str_to_bytes};

verus! {

/// One event of the build tool's structured output stream.
pub enum BuildEvent {
    /// The compiler produced the listed files.
    CompilerArtifact { filenames: Vec<Vec<u8>> },
    /// Any other event; its contents do not matter here.
    Other,
}

/// The platform shared-library suffix the locator filters for.
pub open spec fn so_suffix() -> Seq<u8> {
    ".so".spec_bytes()
}

/// The filenames of the most recent artifact event, if any.
pub open spec fn last_artifact_filenames(events: Seq<BuildEvent>) -> Option<Seq<Vec<u8>>>
    decreases events.len(),
{
    if events.len() == 0 {
        None
    } else {
        match events.last() {
            BuildEvent::CompilerArtifact { filenames } => Some(filenames@),
            BuildEvent::Other => last_artifact_filenames(events.drop_last()),
        }
    }
}

/// The filenames with the shared-library suffix, in order.
pub open spec fn filter_so(fs: Seq<Seq<u8>>) -> Seq<Seq<u8>>
    decreases fs.len(),
{
    if fs.len() == 0 {
        Seq::empty()
    } else {
        filter_so(fs.drop_last()) + (if is_suffix_of(so_suffix(), fs.last()) {
            seq![fs.last()]
        } else {
            Seq::empty()
        })
    }
}

/// The shared-library candidates of a build-event stream.
pub open spec fn so_candidates(events: Seq<BuildEvent>) -> Seq<Seq<u8>> {
    match last_artifact_filenames(events) {
        None => Seq::empty(),
        Some(fs) => filter_so(views_of(fs)),
    }
}

/// The model of one build event: the produced file paths of an artifact
/// event, or nothing for any other event.
pub open spec fn event_model(e: BuildEvent) -> Option<Seq<Seq<u8>>> {
    match e {
        BuildEvent::CompilerArtifact { filenames } => Some(views_of(filenames@)),
        BuildEvent::Other => None,
    }
}

/// The models of a whole event stream.
pub open spec fn event_models(events: Seq<BuildEvent>) -> Seq<Option<Seq<Seq<u8>>>> {
    events.map_values(|e: BuildEvent| event_model(e))
}

/// The event stream parsed from the build tool's output, by each event's
/// model: a function of the output bytes alone.
pub uninterp spec fn events_of(stdout: Seq<u8>) -> Seq<Option<Seq<Seq<u8>>>>;

/// The filenames of the most recent artifact event, over event models.
pub open spec fn last_artifact_model(ms: Seq<Option<Seq<Seq<u8>>>>) -> Option<Seq<Seq<u8>>>
    decreases ms.len(),
{
    if ms.len() == 0 {
        None
    } else {
        match ms.last() {
            Some(fs) => Some(fs),
            None => last_artifact_model(ms.drop_last()),
        }
    }
}

/// The shared-library candidates of an event stream, over event models.
pub open spec fn so_candidates_model(ms: Seq<Option<Seq<Seq<u8>>>>) -> Seq<Seq<u8>> {
    match last_artifact_model(ms) {
        None => Seq::empty(),
        Some(fs) => filter_so(fs),
    }
}

/// The candidates of an event stream are a function of its models.
pub proof fn lemma_so_candidates_model(events: Seq<BuildEvent>)
    ensures
        so_candidates(events) == so_candidates_model(event_models(events)),
    decreases events.len(),
{
    if events.len() == 0 {
    } else {
        assert(event_models(events).last() == event_model(events.last()));
        assert(event_models(events).drop_last() =~= event_models(events.drop_last()));
        match events.last() {
            BuildEvent::CompilerArtifact { filenames } => {
                assert(last_artifact_filenames(events) == Some(filenames@));
                assert(last_artifact_model(event_models(events)) == Some(views_of(filenames@)));
            },
            BuildEvent::Other => {
                lemma_so_candidates_model(events.drop_last());
                assert(last_artifact_filenames(events) == last_artifact_filenames(
                    events.drop_last(),
                ));
                assert(last_artifact_model(event_models(events)) == last_artifact_model(
                    event_models(events.drop_last()),
                ));
            },
        }
    }
}

/// Relies on `cargo_metadata::Message::parse_stream`: parses the build
/// tool's JSON-line output into a sequence of events, in stream order;
/// unreadable lines are passed over. Only the artifact events and their
/// produced file paths are retained; what is retained is a function of the
/// output bytes alone.
#[verifier::external_body]
pub fn parse_build_events(stdout: &Vec<u8>) -> (r: Vec<BuildEvent>)
    ensures
        event_models(r@) == events_of(stdout@),
{
    let reader = std::io::BufReader::new(stdout.as_slice());
    let mut out: Vec<BuildEvent> = Vec::new();
    for msg in cargo_metadata::Message::parse_stream(reader) {
        match msg {
            Ok(cargo_metadata::Message::CompilerArtifact(artifact)) => {
                let filenames = artifact.filenames.into_iter().map(
                    |f| f.into_string().into_bytes(),
                ).collect();
                out.push(BuildEvent::CompilerArtifact { filenames });
            }
            Ok(_) => out.push(BuildEvent::Other),
            Err(_) => {}
        }
    }
    out
}

/// Locates the single shared-library artifact among the build events.
///
/// Zero candidates is a hard failure, as is more than one: an ambiguous
/// build is never resolved by silently picking the first path.
pub fn locate_artifact(events: &Vec<BuildEvent>) -> (r: Result<Vec<u8>, PipelineError>)
    ensures
        ({
            let c = so_candidates(events@);
            match r {
                Ok(p) => c.len() == 1 && p@ == c[0],
                Err(PipelineError::NoArtifactProduced) => c.len() == 0,
                Err(PipelineError::AmbiguousArtifact { candidates }) => c.len() >= 2 && views_of(
                    candidates@,
                ) == c,
                Err(_) => false,
            }
        }),
{
    let mut last: Option<usize> = None;
    let mut i: usize = 0;
    while i < events.len()
        invariant
            i <= events@.len(),
            match last {
                None => last_artifact_filenames(events@.subrange(0, i as int)) matches Option::<
                    Seq<Vec<u8>>,
                >::None,
                Some(k) => {
                    &&& k < i
                    &&& (events@[k as int] matches BuildEvent::CompilerArtifact { filenames }
                        && last_artifact_filenames(events@.subrange(0, i as int)) == Some(
                        filenames@,
                    ))
                },
            },
        decreases events@.len() - i,
    {
        proof {
            assert(events@.subrange(0, i + 1 as int).drop_last() =~= events@.subrange(0, i as int));
            assert(events@.subrange(0, i + 1 as int).last() == events@[i as int]);
        }
        match &events[i] {
            BuildEvent::CompilerArtifact { filenames } => {
                last = Some(i);
            },
            BuildEvent::Other => {},
        }
        i = i + 1;
    }
    proof {
        assert(events@.subrange(0, events@.len() as int) =~= events@);
    }
    match last {
        None => Err(PipelineError::NoArtifactProduced),
        Some(k) => {
            let filenames = match &events[k] {
                BuildEvent::CompilerArtifact { filenames } => filenames,
                BuildEvent::Other => {
                    proof {
                        assert(false);
                    }
                    return Err(PipelineError::NoArtifactProduced);
                },
            };
            let suffix = str_to_bytes(".so");
            let mut candidates: Vec<Vec<u8>> = Vec::new();
            let mut j: usize = 0;
            while j < filenames.len()
                invariant
                    j <= filenames@.len(),
                    suffix@ == so_suffix(),
                    views_of(candidates@) == filter_so(views_of(filenames@.subrange(0, j as int))),
                decreases filenames@.len() - j,
            {
                let ghost pre = views_of(filenames@.subrange(0, j as int));
                let ghost post = views_of(filenames@.subrange(0, j + 1 as int));
                proof {
                    assert(post.drop_last() =~= pre);
                    assert(post.last() == filenames@[j as int]@);
                }
                if ends_with(&filenames[j], &suffix) {
                    candidates.push(filenames[j].clone());
                    proof {
                        assert(views_of(candidates@) =~= filter_so(pre) + seq![
                            filenames@[j as int]@,
                        ]);
                        assert(filter_so(post) == filter_so(pre) + seq![post.last()]);
                    }
                } else {
                    proof {
                        assert(filter_so(post) == filter_so(pre));
                    }
                }
                j = j + 1;
            }
            proof {
                assert(views_of(filenames@.subrange(0, filenames@.len() as int)) =~= views_of(
                    filenames@,
                ));
            }
            if candidates.len() == 0 {
                Err(PipelineError::NoArtifactProduced)
            } else if candidates.len() == 1 {
                let p = candidates.pop().unwrap();
                proof {
                    assert(p@ == views_of(candidates@.push(p))[0]);
                }
                Ok(p)
            } else {
                Err(PipelineError::AmbiguousArtifact { candidates })
            }
        },
    }
}

} // verus!
