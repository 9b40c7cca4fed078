//! The pipeline orchestrator.
//!
//! The run is a state machine: each step consumes the outcome of one
//! outside interaction (a build, a file read, the staging of the snapshot)
//! and decides the next action. The machine itself never touches the
//! filesystem or spawns a process; the caller performs each action and
//! hands the outcome back.
//!
//! Every transition is pinned by the step contract: each failure is
//! reported as its typed error; a successful build is reduced to the
//! shared-library candidates of its event stream; the staged snapshot is
//! the plan for exactly the artifact's canonical entry points, with the
//! copied build-description files handed over byte-identical; and a
//! successful aggregator run ends in the stamped document. The only file
//! ever written outside the snapshot is `abi.json` under the shared output
//! directory, so the original project is never altered. Once the snapshot
//! stands, every path through the machine issues its removal before
//! reporting, whether the aggregator stage succeeded or failed; a cleanup
//! failure never masks the run's result.

use vstd::prelude::*;
use vstd::string::StringSliceAdditionalSpecFns;
use crate::artifact::{
    events_of, lemma_so_candidates_model, locate_artifact, parse_build_events, so_candidates_model,
};
use crate::codegen::{aggregator_source, generate_aggregator_source};
use crate::docjson::{json_object_parses, stamp_document, stamped_document};
use crate::errors::PipelineError;
use crate::invoke::{
    build_invocation, describe_invocation, interpret_outcome, run_invocation, BuildInvocation,
    ProcessOutcome,
};
use crate::manifest::{
    add_crate_type, add_workspace_member, aggregator_manifest, aggregator_manifest_model,
    find_dependency, item_model, manifest_model, parse_manifest_text, parsed_manifest_of,
    render_manifest_text, rendered_manifest_of, set_release_lto, spec_ensure_in_list,
    spec_find_dependency, spec_set_table_leaf, spec_strip_dependency, strip_dependency_flags,
    ItemModel, LeafModel, TomlItem,
};
use crate::metadata::{extract_metadata, CrateMetadata};
use crate::symbols::{
    abi_symbol_set, canonical_entry_points, filter_abi_symbols, lemma_filter_is_canonical,
    object_symbol_names, symbol_scan_of, views_of,
};
use crate::text::{append_bytes, append_str_bytes, bytes_eq, str_to_bytes};

verus! {

/// The command: a path to the contract's build manifest, or the default.
pub struct AbiCommand {
    pub manifest_path: Option<Vec<u8>>,
}

/// The result of a successful run.
pub struct AbiResult {
    /// Path of the written document.
    pub dest_abi: Vec<u8>,
}

/// Resolves the manifest path named by the command.
pub fn exec(cmd: &AbiCommand) -> (r: Vec<u8>)
    ensures
        match cmd.manifest_path {
            Some(p) => r@ == p@,
            None => r@ == "Cargo.toml".spec_bytes(),
        },
{
    match &cmd.manifest_path {
        Some(p) => {
            let mut out = Vec::new();
            append_bytes(&mut out, p);
            proof {
                assert(out@ =~= p@);
            }
            out
        },
        None => str_to_bytes("Cargo.toml"),
    }
}

/// Where the run stands.
pub enum PipelineStage {
    /// The contract's own release build is running.
    BuildingContract,
    /// The compiled artifact is being read.
    ReadingArtifact,
    /// The snapshot is being staged on disk.
    Staging,
    /// The synthetic aggregator is being built and run in the snapshot.
    RunningAggregator,
    /// The stamped document is being written.
    WritingDocument,
    /// The snapshot is being removed.
    CleaningUp,
    /// The run is over.
    Finished,
}

/// The files to stage: relative path and contents, materialized by the
/// caller under a fresh temporary directory.
pub struct SnapshotPlan {
    pub files: Vec<(Vec<u8>, Vec<u8>)>,
}

/// What the caller must do next.
pub enum PipelineAction {
    /// Spawn the build tool and hand back its outcome.
    RunProcess(BuildInvocation),
    /// Read the file and hand back its bytes.
    ReadFile(Vec<u8>),
    /// Create a fresh temporary directory, write the planned files under
    /// it, and hand back its path.
    StageSnapshot(SnapshotPlan),
    /// Write the contents to the path.
    WriteFile { path: Vec<u8>, contents: Vec<u8> },
    /// Delete the snapshot directory and everything under it.
    RemoveSnapshot(Vec<u8>),
    /// The run is over; this is its result.
    Report(Result<AbiResult, PipelineError>),
}

/// What the caller observed.
pub enum PipelineEvent {
    BuildFinished(ProcessOutcome),
    /// The artifact's bytes, or nothing on a read failure.
    ArtifactRead(Option<Vec<u8>>),
    /// The staged snapshot's root directory, or nothing when staging
    /// failed (the caller removes any partial directory itself).
    SnapshotStaged(Option<Vec<u8>>),
    AggregatorFinished(ProcessOutcome),
    DocumentWritten(bool),
    SnapshotRemoved(bool),
}

/// One pipeline run.
pub struct Pipeline {
    pub stage: PipelineStage,
    pub meta: CrateMetadata,
    /// The root build manifest, byte for byte as read.
    pub root_manifest_text: Vec<u8>,
    /// The other build-description files of the graph: relative path and
    /// contents. They are copied into the snapshot unchanged, except the
    /// root unit's own manifest, which receives the target edits.
    pub extra_manifests: Vec<(Vec<u8>, Vec<u8>)>,
    /// The root unit's manifest path relative to the workspace root, when
    /// the root unit is one member of a larger workspace; nothing when the
    /// workspace root manifest is the root unit's own.
    pub root_package_rel: Option<Vec<u8>>,
    /// The fixed sections of the generated aggregator program.
    pub template_header: Vec<u8>,
    pub template_middle: Vec<u8>,
    pub template_footer: Vec<u8>,
    /// The description of the last spawned invocation, for failure reports.
    pub last_command: Vec<u8>,
    pub snapshot_root: Option<Vec<u8>>,
    /// The result to report once cleanup has run.
    pub pending: Option<Result<AbiResult, PipelineError>>,
}

/// The event each stage waits for.
pub open spec fn stage_expects(stage: PipelineStage, ev: PipelineEvent) -> bool {
    match stage {
        PipelineStage::BuildingContract => ev is BuildFinished,
        PipelineStage::ReadingArtifact => ev is ArtifactRead,
        PipelineStage::Staging => ev is SnapshotStaged,
        PipelineStage::RunningAggregator => ev is AggregatorFinished,
        PipelineStage::WritingDocument => ev is DocumentWritten,
        PipelineStage::CleaningUp => ev is SnapshotRemoved,
        PipelineStage::Finished => false,
    }
}

/// The run's structural invariant: each stage holds what it needs.
pub open spec fn wf(p: Pipeline) -> bool {
    &&& (p.stage is RunningAggregator || p.stage is WritingDocument || p.stage is CleaningUp
        ==> p.snapshot_root is Some)
    &&& (p.stage is CleaningUp ==> p.pending is Some)
}

/// The one path the pipeline ever writes outside the snapshot.
pub open spec fn output_path(p: Pipeline) -> Seq<u8> {
    p.meta.target_directory@ + "/abi.json".spec_bytes()
}

/// The directory part of a path, up to its last separator.
pub open spec fn dirname_spec(s: Seq<u8>) -> Option<Seq<u8>>
    decreases s.len(),
{
    if s.len() == 0 {
        None
    } else if s.last() == 47 {
        Some(s.drop_last())
    } else {
        dirname_spec(s.drop_last())
    }
}

/// The directory part of a path.
pub fn dirname(path: &Vec<u8>) -> (r: Option<Vec<u8>>)
    ensures
        match dirname_spec(path@) {
            Some(d) => r matches Some(v) && v@ == d,
            None => r matches Option::<Vec<u8>>::None,
        },
{
    let mut i: usize = path.len();
    proof {
        assert(path@.subrange(0, path@.len() as int) =~= path@);
    }
    while i > 0
        invariant
            i <= path@.len(),
            dirname_spec(path@) == dirname_spec(path@.subrange(0, i as int)),
        decreases i,
    {
        proof {
            let cur = path@.subrange(0, i as int);
            assert(cur.last() == path@[i - 1]);
            assert(cur.drop_last() =~= path@.subrange(0, i - 1 as int));
        }
        if path[i - 1] == 47 {
            let mut out = Vec::new();
            let mut j: usize = 0;
            while j < i - 1
                invariant
                    j <= i - 1,
                    i <= path@.len(),
                    i >= 1,
                    out@ == path@.subrange(0, j as int),
                decreases i - 1 - j,
            {
                out.push(path[j]);
                proof {
                    assert(path@.subrange(0, j + 1 as int) =~= path@.subrange(0, j as int).push(
                        path@[j as int],
                    ));
                }
                j = j + 1;
            }
            proof {
                assert(dirname_spec(path@.subrange(0, i as int)) == Some(
                    path@.subrange(0, i - 1 as int),
                ));
            }
            return Some(out);
        }
        i = i - 1;
    }
    proof {
        assert(path@.subrange(0, 0).len() == 0);
    }
    None
}

/// Starts a run: the first action builds the contract in release mode with
/// event reporting, from the manifest's directory, into the shared output
/// directory.
pub fn execute(
    meta: CrateMetadata,
    root_manifest_text: Vec<u8>,
    extra_manifests: Vec<(Vec<u8>, Vec<u8>)>,
    root_package_rel: Option<Vec<u8>>,
    template_header: Vec<u8>,
    template_middle: Vec<u8>,
    template_footer: Vec<u8>,
) -> (r: (Pipeline, PipelineAction))
    ensures
        wf(r.0),
        r.0.stage is BuildingContract,
        r.1 matches PipelineAction::RunProcess(inv) && {
            &&& inv.subcommand@ == "build".spec_bytes()
            &&& views_of(inv.args@) == seq![
                "--release".spec_bytes(),
                "--message-format=json".spec_bytes(),
                "--target-dir=".spec_bytes() + meta.target_directory@,
            ]
            &&& match dirname_spec(meta.manifest_path@) {
                Some(d) => inv.working_dir matches Some(w) && w@ == d,
                None => inv.working_dir is None,
            }
            &&& inv.env@.len() == 0
        },
        r.0.meta == meta,
        r.0.root_manifest_text == root_manifest_text,
        r.0.extra_manifests == extra_manifests,
        r.0.root_package_rel == root_package_rel,
        r.0.template_header == template_header,
        r.0.template_middle == template_middle,
        r.0.template_footer == template_footer,
        r.0.snapshot_root is None,
{
    let wd = dirname(&meta.manifest_path);
    let inv = build_invocation(wd, &meta.target_directory);
    let desc = describe_invocation(&inv);
    let p = Pipeline {
        stage: PipelineStage::BuildingContract,
        meta,
        root_manifest_text,
        extra_manifests,
        root_package_rel,
        template_header,
        template_middle,
        template_footer,
        last_command: desc,
        snapshot_root: None,
        pending: None,
    };
    (p, PipelineAction::RunProcess(inv))
}

/// True when the copied file at `path` is the root unit's own manifest.
pub open spec fn is_root_unit_manifest(p: Pipeline, path: Seq<u8>) -> bool {
    p.root_package_rel matches Some(r) && r@ == path
}

/// The contents of the first copied build-description file at path `rel`.
pub open spec fn first_file_text(files: Seq<(Vec<u8>, Vec<u8>)>, rel: Seq<u8>) -> Option<Seq<u8>>
    decreases files.len(),
{
    if files.len() == 0 {
        None
    } else if files[0].0@ == rel {
        Some(files[0].1@)
    } else {
        first_file_text(files.drop_first(), rel)
    }
}

/// The target edits applied to the root unit's manifest model: the
/// build-output kind added, then the release optimization disabled.
#[verifier::opaque]
pub open spec fn unit_edits(
    mm: Seq<(Seq<u8>, Seq<(Seq<u8>, ItemModel)>)>,
) -> Seq<(Seq<u8>, Seq<(Seq<u8>, ItemModel)>)> {
    spec_set_table_leaf(
        spec_ensure_in_list(mm, "lib".spec_bytes(), "crate-type".spec_bytes(), "rlib".spec_bytes()),
        "profile".spec_bytes(),
        "release".spec_bytes(),
        "lto".spec_bytes(),
        LeafModel::Truth(false),
    )
}

/// The model of the root unit's own manifest text: the workspace root's,
/// or its copied member file's in the workspace case.
#[verifier::opaque]
pub open spec fn unit_manifest_model(p: Pipeline) -> Option<
    Seq<(Seq<u8>, Seq<(Seq<u8>, ItemModel)>)>,
> {
    match p.root_package_rel {
        None => parsed_manifest_of(p.root_manifest_text@),
        Some(rel) => match first_file_text(p.extra_manifests@, rel@) {
            None => None,
            Some(t) => parsed_manifest_of(t),
        },
    }
}

/// The edited workspace root manifest model: the synthetic member
/// registered and, when the root manifest is the root unit's own, the
/// target edits as well.
#[verifier::opaque]
pub open spec fn edited_root_model(p: Pipeline) -> Seq<(Seq<u8>, Seq<(Seq<u8>, ItemModel)>)> {
    let with_member = spec_ensure_in_list(
        parsed_manifest_of(p.root_manifest_text@)->Some_0,
        "workspace".spec_bytes(),
        "members".spec_bytes(),
        "metadata-gen".spec_bytes(),
    );
    if p.root_package_rel is None {
        unit_edits(with_member)
    } else {
        with_member
    }
}

/// The edited root unit manifest model.
#[verifier::opaque]
pub open spec fn edited_unit_model(p: Pipeline) -> Seq<(Seq<u8>, Seq<(Seq<u8>, ItemModel)>)> {
    if p.root_package_rel is None {
        edited_root_model(p)
    } else {
        unit_edits(unit_manifest_model(p)->Some_0)
    }
}

/// The ABI-runtime dependency the aggregator copies: the root unit's
/// `near-sdk` entry, stripped of its flags.
#[verifier::opaque]
pub open spec fn plan_sdk_model(p: Pipeline) -> Option<ItemModel> {
    match spec_find_dependency(edited_unit_model(p), "near-sdk".spec_bytes()) {
        Some(i) => Some(spec_strip_dependency(i)),
        None => None,
    }
}

/// The root unit's directory in the original tree.
#[verifier::opaque]
pub open spec fn contract_dir_spec(p: Pipeline) -> Seq<u8> {
    dirname_spec(p.meta.root_package.manifest_path@)->Some_0
}

/// True when the snapshot can be planned from the run's inputs: the root
/// manifest parses, the root unit's manifest is among the copied files and
/// parses, and the root unit's manifest path has a directory part.
pub open spec fn plan_possible(p: Pipeline) -> bool {
    &&& parsed_manifest_of(p.root_manifest_text@) is Some
    &&& unit_manifest_model(p) is Some
    &&& dirname_spec(p.meta.root_package.manifest_path@) is Some
}

/// What a staged snapshot holds for the given entry-point names: the
/// edited workspace root manifest under `Cargo.toml`, every other
/// build-description file under its own path - byte-identical unless it is
/// the root unit's manifest, which carries the target edits - the
/// generated aggregator manifest, and the generated program, the spliced
/// source for exactly these names.
/// The rendered text owed for the root unit's copied manifest.
pub open spec fn unit_goal_of(p: Pipeline) -> Seq<u8> {
    rendered_manifest_of(unit_edits(unit_manifest_model(p)->Some_0))
}

pub open spec fn plan_shape(p: Pipeline, plan: SnapshotPlan, names: Seq<Seq<u8>>) -> bool {
    &&& plan.files@.len() == p.extra_manifests@.len() + 3
    &&& plan.files@[0].0@ == "Cargo.toml".spec_bytes()
    &&& plan.files@[0].1@ == rendered_manifest_of(edited_root_model(p))
    &&& forall|j: int|
        1 <= j <= p.extra_manifests@.len() ==> (#[trigger] plan.files@[j]).0@
            == p.extra_manifests@[j - 1].0@ && plan.files@[j].1@ == (if is_root_unit_manifest(
            p,
            p.extra_manifests@[j - 1].0@,
        ) {
            unit_goal_of(p)
        } else {
            p.extra_manifests@[j - 1].1@
        })
    &&& plan.files@[plan.files@.len() - 2].0@ == "metadata-gen/Cargo.toml".spec_bytes()
    &&& plan.files@[plan.files@.len() - 2].1@ == rendered_manifest_of(
        aggregator_manifest_model(
            p.meta.root_package.name@,
            contract_dir_spec(p),
            plan_sdk_model(p),
        ),
    )
    &&& plan.files@[plan.files@.len() - 1].0@ == "metadata-gen/src/main.rs".spec_bytes()
    &&& plan.files@[plan.files@.len() - 1].1@ == aggregator_source(
        p.template_header@,
        p.template_middle@,
        p.template_footer@,
        names,
    )
}

/// Finds the first copied build-description file at `rel` and hands back a
/// copy of its contents.
fn find_unit_manifest(files: &Vec<(Vec<u8>, Vec<u8>)>, rel: &Vec<u8>) -> (r: Option<Vec<u8>>)
    ensures
        match first_file_text(files@, rel@) {
            Some(t) => r matches Some(v) && v@ == t,
            None => r matches Option::<Vec<u8>>::None,
        },
{
    let n: usize = files.len();
    let mut j: usize = 0;
    proof {
        assert(files@.subrange(0, n as int) =~= files@);
    }
    while j < n
        invariant
            j <= n,
            n == files@.len(),
            first_file_text(files@, rel@) == first_file_text(
                files@.subrange(j as int, n as int),
                rel@,
            ),
        decreases n - j,
    {
        proof {
            let rest = files@.subrange(j as int, n as int);
            assert(rest[0] == files@[j as int]);
            assert(rest.drop_first() =~= files@.subrange(j + 1 as int, n as int));
        }
        if bytes_eq(&files[j].0, rel) {
            let mut out = Vec::new();
            append_bytes(&mut out, &files[j].1);
            proof {
                assert(out@ =~= files@[j as int].1@);
            }
            return Some(out);
        }
        j = j + 1;
    }
    proof {
        assert(files@.subrange(n as int, n as int).len() == 0);
    }
    None
}

/// Assembles the snapshot plan from the prepared texts: the root manifest
/// first, then the copied files - the one at `unit_rel`, if any, replaced
/// by `unit_text` - then the two generated member files.
fn assemble_plan(
    extras: &Vec<(Vec<u8>, Vec<u8>)>,
    unit_rel: &Option<Vec<u8>>,
    root_text: Vec<u8>,
    unit_text: Option<Vec<u8>>,
    agg_text: Vec<u8>,
    source: Vec<u8>,
) -> (plan: SnapshotPlan)
    requires
        unit_rel is Some ==> unit_text is Some,
    ensures
        plan.files@.len() == extras@.len() + 3,
        plan.files@[0].0@ == "Cargo.toml".spec_bytes(),
        plan.files@[0].1@ == root_text@,
        forall|j: int|
            1 <= j <= extras@.len() ==> (#[trigger] plan.files@[j]).0@ == extras@[j - 1].0@
                && plan.files@[j].1@ == (if (unit_rel matches Some(r) && extras@[j - 1].0@
                == r@) {
                unit_text->Some_0@
            } else {
                extras@[j - 1].1@
            }),
        plan.files@[plan.files@.len() - 2].0@ == "metadata-gen/Cargo.toml".spec_bytes(),
        plan.files@[plan.files@.len() - 2].1@ == agg_text@,
        plan.files@[plan.files@.len() - 1].0@ == "metadata-gen/src/main.rs".spec_bytes(),
        plan.files@[plan.files@.len() - 1].1@ == source@,
{
    let ghost uv: Seq<u8> = unit_text->Some_0@;
    let ghost rt: Seq<u8> = root_text@;
    let mut files: Vec<(Vec<u8>, Vec<u8>)> = Vec::new();
    files.push((str_to_bytes("Cargo.toml"), root_text));
    let mut i: usize = 0;
    while i < extras.len()
        invariant
            i <= extras@.len(),
            files@.len() == i + 1,
            files@[0].0@ == "Cargo.toml".spec_bytes(),
            files@[0].1@ == rt,
            unit_rel is Some ==> unit_text is Some,
            uv == unit_text->Some_0@,
            forall|k: int|
                1 <= k <= i ==> (#[trigger] files@[k]).0@ == extras@[k - 1].0@ && files@[k].1@
                    == (if (unit_rel matches Some(r) && extras@[k - 1].0@ == r@) {
                    uv
                } else {
                    extras@[k - 1].1@
                }),
        decreases extras@.len() - i,
    {
        let mut path = Vec::new();
        append_bytes(&mut path, &extras[i].0);
        let is_unit = match unit_rel {
            Some(rel) => bytes_eq(&extras[i].0, rel),
            None => false,
        };
        let mut contents = Vec::new();
        if is_unit {
            match &unit_text {
                Some(t) => append_bytes(&mut contents, t),
                None => {
                    proof {
                        assert(false);
                    }
                },
            }
        } else {
            append_bytes(&mut contents, &extras[i].1);
        }
        proof {
            assert(path@ =~= extras@[i as int].0@);
            if is_unit {
                assert(contents@ =~= uv);
            } else {
                assert(contents@ =~= extras@[i as int].1@);
            }
        }
        let ghost prev = files@;
        let ghost pv = path@;
        let ghost cv = contents@;
        files.push((path, contents));
        proof {
            assert forall|k: int|
                1 <= k <= i + 1 implies (#[trigger] files@[k]).0@ == extras@[k - 1].0@
                && files@[k].1@ == (if (unit_rel matches Some(r) && extras@[k - 1].0@ == r@) {
                uv
            } else {
                extras@[k - 1].1@
            }) by {
                if k <= i {
                    assert(files@[k] == prev[k]);
                    assert(prev[k].0@ == extras@[k - 1].0@);
                } else {
                    assert(files@[k].0@ == pv);
                    assert(files@[k].1@ == cv);
                }
            }
        }
        i = i + 1;
    }
    let ghost n_extra = extras@.len();
    let ghost before = files@;
    let agg_path = str_to_bytes("metadata-gen/Cargo.toml");
    let ghost agg_path_v = agg_path@;
    let ghost agg_text_v = agg_text@;
    files.push((agg_path, agg_text));
    let src_path = str_to_bytes("metadata-gen/src/main.rs");
    let ghost src_path_v = src_path@;
    let ghost src_v = source@;
    files.push((src_path, source));
    proof {
        assert(files@.len() == n_extra + 3);
        assert(files@[0] == before[0]);
        assert(files@[files@.len() - 2].0@ == agg_path_v);
        assert(files@[files@.len() - 2].1@ == agg_text_v);
        assert(files@[files@.len() - 1].0@ == src_path_v);
        assert(files@[files@.len() - 1].1@ == src_v);
        assert forall|j: int|
            1 <= j <= n_extra implies (#[trigger] files@[j]).0@ == extras@[j - 1].0@
            && files@[j].1@ == (if (unit_rel matches Some(r) && extras@[j - 1].0@ == r@) {
            uv
        } else {
            extras@[j - 1].1@
        }) by {
            assert(files@[j] == before[j]);
            assert(before[j].0@ == extras@[j - 1].0@);
        }
    }
    SnapshotPlan { files }
}

/// Prepares the texts of the snapshot's manifests: the edited workspace
/// root, the edited root unit manifest in the workspace case, and the
/// generated aggregator manifest with the dependency on the root unit's
/// own directory.
#[verifier::rlimit(100)]
fn prepare_plan_texts(p: &Pipeline) -> (r: Result<
    (Vec<u8>, Option<Vec<u8>>, Vec<u8>),
    PipelineError,
>)
    ensures
        r matches Err(e) ==> e matches PipelineError::ManifestResolution && !plan_possible(*p),
        r matches Ok(t) ==> {
            &&& plan_possible(*p)
            &&& t.0@ == rendered_manifest_of(edited_root_model(*p))
            &&& (p.root_package_rel is Some ==> (t.1 matches Some(u) && u@
                == rendered_manifest_of(unit_edits(unit_manifest_model(*p)->Some_0))))
            &&& t.2@ == rendered_manifest_of(
                aggregator_manifest_model(
                    p.meta.root_package.name@,
                    contract_dir_spec(*p),
                    plan_sdk_model(*p),
                ),
            )
        },
{
    proof {
        reveal(unit_manifest_model);
    }
    let root = match parse_manifest_text(&p.root_manifest_text) {
        Some(m) => m,
        None => {
            return Err(PipelineError::ManifestResolution);
        },
    };
    let contract_dir = match dirname(&p.meta.root_package.manifest_path) {
        Some(d) => d,
        None => {
            return Err(PipelineError::ManifestResolution);
        },
    };
    let member = str_to_bytes("metadata-gen");
    let root = add_workspace_member(root, &member);
    let sdk_name = str_to_bytes("near-sdk");
    let kind = str_to_bytes("rlib");
    let mut sdk: Option<TomlItem> = None;
    let mut unit_text: Option<Vec<u8>> = None;
    let root = match &p.root_package_rel {
        None => {
            let root = add_crate_type(root, &kind);
            let root = set_release_lto(root, false);
            proof {
                reveal(unit_manifest_model);
                reveal(edited_root_model);
                reveal(edited_unit_model);
                reveal(unit_edits);
                assert(manifest_model(root) == edited_root_model(*p));
                assert(edited_unit_model(*p) == edited_root_model(*p));
            }
            sdk = match find_dependency(&root, &sdk_name) {
                Some(dep) => Some(strip_dependency_flags(dep)),
                None => None,
            };
            root
        },
        Some(rel) => {
            let unit_src = match find_unit_manifest(&p.extra_manifests, rel) {
                Some(t) => t,
                None => {
                    return Err(PipelineError::ManifestResolution);
                },
            };
            let unit = match parse_manifest_text(&unit_src) {
                Some(m) => m,
                None => {
                    return Err(PipelineError::ManifestResolution);
                },
            };
            let unit = add_crate_type(unit, &kind);
            let unit = set_release_lto(unit, false);
            proof {
                reveal(unit_manifest_model);
                reveal(edited_unit_model);
                reveal(unit_edits);
                assert(unit_manifest_model(*p) is Some);
                assert(manifest_model(unit) == edited_unit_model(*p));
            }
            sdk = match find_dependency(&unit, &sdk_name) {
                Some(dep) => Some(strip_dependency_flags(dep)),
                None => None,
            };
            unit_text = Some(render_manifest_text(&unit));
            proof {
                reveal(edited_root_model);
                assert(manifest_model(root) == edited_root_model(*p));
                assert(unit_text matches Some(t) && t@ == rendered_manifest_of(
                    unit_edits(unit_manifest_model(*p)->Some_0),
                ));
            }
            root
        },
    };
    proof {
        reveal(plan_sdk_model);
        assert((if sdk is Some {
            Some(item_model(sdk->Some_0))
        } else {
            None::<ItemModel>
        }) == plan_sdk_model(*p));
    }
    let agg = aggregator_manifest(&p.meta.root_package.name, &contract_dir, sdk);
    let agg_text = render_manifest_text(&agg);
    proof {
        reveal(contract_dir_spec);
        assert(contract_dir@ == contract_dir_spec(*p));
        assert(agg_text@ == rendered_manifest_of(
            aggregator_manifest_model(
                p.meta.root_package.name@,
                contract_dir_spec(*p),
                plan_sdk_model(*p),
            ),
        ));
    }
    let root_text = render_manifest_text(&root);
    proof {
        assert(root_text@ == rendered_manifest_of(edited_root_model(*p)));
    }
    Ok((root_text, unit_text, agg_text))
}

/// Bridges the assembled plan's file-level facts to `plan_shape`.
#[verifier::rlimit(100)]
#[verifier::spinoff_prover]
proof fn lemma_plan_bridge(p: Pipeline, plan: SnapshotPlan, nms: Seq<Seq<u8>>, unit_opt: Option<
    Vec<u8>,
>)
    requires
        plan.files@.len() == p.extra_manifests@.len() + 3,
        plan.files@[0].0@ == "Cargo.toml".spec_bytes(),
        plan.files@[0].1@ == rendered_manifest_of(edited_root_model(p)),
        p.root_package_rel is Some ==> (unit_opt matches Some(u) && u@ == rendered_manifest_of(
            unit_edits(unit_manifest_model(p)->Some_0),
        )),
        forall|j: int|
            1 <= j <= p.extra_manifests@.len() ==> (#[trigger] plan.files@[j]).0@
                == p.extra_manifests@[j - 1].0@ && plan.files@[j].1@ == (if (
            p.root_package_rel matches Some(r) && p.extra_manifests@[j - 1].0@ == r@) {
                unit_opt->Some_0@
            } else {
                p.extra_manifests@[j - 1].1@
            }),
        plan.files@[plan.files@.len() - 2].0@ == "metadata-gen/Cargo.toml".spec_bytes(),
        plan.files@[plan.files@.len() - 2].1@ == rendered_manifest_of(
            aggregator_manifest_model(
                p.meta.root_package.name@,
                contract_dir_spec(p),
                plan_sdk_model(p),
            ),
        ),
        plan.files@[plan.files@.len() - 1].0@ == "metadata-gen/src/main.rs".spec_bytes(),
        plan.files@[plan.files@.len() - 1].1@ == aggregator_source(
            p.template_header@,
            p.template_middle@,
            p.template_footer@,
            nms,
        ),
    ensures
        plan_shape(p, plan, nms),
{
    assert forall|j: int|
        1 <= j <= p.extra_manifests@.len() implies (#[trigger] plan.files@[j]).0@
        == p.extra_manifests@[j - 1].0@ && plan.files@[j].1@ == (if is_root_unit_manifest(
        p,
        p.extra_manifests@[j - 1].0@,
    ) {
        unit_goal_of(p)
    } else {
        p.extra_manifests@[j - 1].1@
    }) by {
        assert(plan.files@[j].0@ == p.extra_manifests@[j - 1].0@);
        if is_root_unit_manifest(p, p.extra_manifests@[j - 1].0@) {
            assert(p.root_package_rel matches Some(r) && p.extra_manifests@[j - 1].0@ == r@);
            assert(unit_opt matches Some(u) && u@ == unit_goal_of(p));
            assert(plan.files@[j].1@ == unit_opt->Some_0@);
        } else {
            assert(plan.files@[j].1@ == p.extra_manifests@[j - 1].1@);
        }
    }
    assert(plan_shape(p, plan, nms));
}

/// Computes the snapshot plan from the discovered entry-point names: the
/// workspace root manifest with the synthetic member registered, then every
/// other build-description file byte-identical - except the root unit's own
/// manifest, which carries the target edits - then the generated aggregator
/// member.
#[verifier::rlimit(100)]
#[verifier::spinoff_prover]
fn build_snapshot_plan(p: &Pipeline, names: &Vec<Vec<u8>>) -> (r: Result<
    SnapshotPlan,
    PipelineError,
>)
    ensures
        r matches Err(e) ==> e matches PipelineError::ManifestResolution && !plan_possible(*p),
        r matches Ok(plan) ==> plan_possible(*p) && plan_shape(*p, plan, views_of(names@)),
{
    let texts = match prepare_plan_texts(p) {
        Ok(t) => t,
        Err(e) => {
            return Err(e);
        },
    };
    let (root_text, unit_text, agg_text) = texts;
    let source = generate_aggregator_source(
        &p.template_header,
        &p.template_middle,
        &p.template_footer,
        names,
    );
    let ghost nms = views_of(names@);
    let ghost uo = unit_text;
    let plan = assemble_plan(
        &p.extra_manifests,
        &p.root_package_rel,
        root_text,
        unit_text,
        agg_text,
        source,
    );
    proof {
        lemma_plan_bridge(*p, plan, nms, uo);
    }
    Ok(plan)
}


/// True when the process ran and exited successfully.
pub open spec fn outcome_ok(out: ProcessOutcome) -> bool {
    out matches ProcessOutcome::Exited { code, stdout } && code == Some(0i32)
}

/// One step of the run: consumes the outcome of the last action and
/// decides the next one.
pub fn step(p: Pipeline, ev: PipelineEvent) -> (r: (Pipeline, PipelineAction))
    requires
        wf(p),
        stage_expects(p.stage, ev),
    ensures
        wf(r.0),
        // A step never touches the run's inputs: the descriptor, the copied
        // build-description files and the template sections carry through
        // unchanged.
        r.0.meta == p.meta,
        r.0.root_manifest_text == p.root_manifest_text,
        r.0.extra_manifests == p.extra_manifests,
        r.0.root_package_rel == p.root_package_rel,
        r.0.template_header == p.template_header,
        r.0.template_middle == p.template_middle,
        r.0.template_footer == p.template_footer,
        !(p.stage is Staging) ==> r.0.snapshot_root == p.snapshot_root,
        // The only file ever written outside the snapshot is the document,
        // at its fixed path under the shared output directory.
        r.1 matches PipelineAction::WriteFile { path, contents } ==> path@ == output_path(p),
        // Once the snapshot stands, no step leaves it behind: every
        // transition out of the aggregator and writing stages issues its
        // removal, and failures are reported only after it.
        p.stage is RunningAggregator ==> {
            ||| (r.0.stage is WritingDocument && r.1 is WriteFile)
            ||| {
                &&& r.0.stage is CleaningUp
                &&& (r.1 matches PipelineAction::RemoveSnapshot(d) && (p.snapshot_root matches Some(
                    sr,
                ) && d@ == sr@))
                &&& r.0.pending is Some
            }
        },
        (p.stage is RunningAggregator && (ev matches PipelineEvent::AggregatorFinished(out)
            && !outcome_ok(out))) ==> {
            &&& r.0.stage is CleaningUp
            &&& (r.1 matches PipelineAction::RemoveSnapshot(d) && (p.snapshot_root matches Some(
                sr,
            ) && d@ == sr@))
            &&& (r.0.pending matches Some(res) && res is Err)
        },
        p.stage is WritingDocument ==> {
            &&& r.0.stage is CleaningUp
            &&& (r.1 matches PipelineAction::RemoveSnapshot(d) && (p.snapshot_root matches Some(
                sr,
            ) && d@ == sr@))
        },
        // A cleanup failure never masks the pending result.
        p.stage is CleaningUp ==> {
            &&& r.0.stage is Finished
            &&& (r.1 matches PipelineAction::Report(res) && Some(res) == p.pending)
        },
        (p.stage is WritingDocument && (ev matches PipelineEvent::DocumentWritten(ok) && ok)) ==> (
        r.0.pending matches Some(res) && res matches Ok(a) && a.dest_abi@ == output_path(p)),
        (p.stage is WritingDocument && (ev matches PipelineEvent::DocumentWritten(ok) && !ok)) ==> (
        r.0.pending matches Some(res) && res matches Err(PipelineError::DocumentWrite)),
        // The build stage: a spawn failure or non-zero exit is reported as
        // its typed error; a successful build is reduced to the
        // shared-library candidates of its event stream - none stops the
        // run, one is read, two or more are ambiguous - and nothing is
        // written or staged.
        p.stage is BuildingContract ==> (ev matches PipelineEvent::BuildFinished(out) ==> {
            &&& (out is SpawnFailed ==> r.0.stage is Finished && (r.1 matches
                PipelineAction::Report(res) && res matches Err(
                PipelineError::BuildProcessUnavailable,
            )))
            &&& (out matches ProcessOutcome::Exited { code, stdout } ==> {
                &&& (code != Some(0i32) ==> r.0.stage is Finished && (r.1 matches
                    PipelineAction::Report(res) && res matches Err(
                    PipelineError::BuildProcessFailed { command, exit_code },
                ) && command@ == p.last_command@ && exit_code == code))
                &&& (code == Some(0i32) ==> {
                    let c = so_candidates_model(events_of(stdout@));
                    &&& (c.len() == 0 ==> r.0.stage is Finished && (r.1 matches
                        PipelineAction::Report(res) && res matches Err(
                        PipelineError::NoArtifactProduced,
                    )))
                    &&& (c.len() == 1 ==> r.0.stage is ReadingArtifact && (r.1 matches
                        PipelineAction::ReadFile(f) && f@ == c[0]))
                    &&& (c.len() >= 2 ==> r.0.stage is Finished && (r.1 matches
                        PipelineAction::Report(res) && res matches Err(
                        PipelineError::AmbiguousArtifact { candidates },
                    ) && views_of(candidates@) == c))
                })
            })
        }),
        // The artifact stage: an unreadable file is a filesystem failure;
        // bytes in no known object format are the extractor's error; a
        // manifest that cannot be planned from is the parser's error; and
        // otherwise the snapshot plan for exactly the canonical entry
        // points of those bytes is staged.
        p.stage is ReadingArtifact ==> (ev matches PipelineEvent::ArtifactRead(ob) ==> {
            &&& (ob is None ==> r.0.stage is Finished && (r.1 matches PipelineAction::Report(res)
                && res matches Err(PipelineError::SnapshotIo)))
            &&& (ob matches Some(bytes) ==> {
                &&& (symbol_scan_of(bytes@) is None ==> r.0.stage is Finished && (r.1 matches
                    PipelineAction::Report(res) && res matches Err(
                    PipelineError::UnrecognizedBinaryFormat,
                )))
                &&& (symbol_scan_of(bytes@) matches Some(found) ==> {
                    &&& (!plan_possible(p) ==> r.0.stage is Finished && (r.1 matches
                        PipelineAction::Report(res) && res matches Err(
                        PipelineError::ManifestResolution,
                    )))
                    &&& (plan_possible(p) ==> r.0.stage is Staging && (r.1 matches
                        PipelineAction::StageSnapshot(plan) && plan_shape(
                        p,
                        plan,
                        canonical_entry_points(found),
                    )))
                })
            })
        }),
        // The staging stage: a staging failure is a filesystem failure; a
        // staged snapshot is followed by the aggregator invocation from its
        // root, into the shared output directory.
        p.stage is Staging ==> (ev matches PipelineEvent::SnapshotStaged(ob) ==> {
            &&& (ob is None ==> r.0.stage is Finished && (r.1 matches PipelineAction::Report(res)
                && res matches Err(PipelineError::SnapshotIo)))
            &&& (ob matches Some(root) ==> {
                &&& r.0.stage is RunningAggregator
                &&& r.0.snapshot_root == Some(root)
                &&& (r.1 matches PipelineAction::RunProcess(inv) && {
                    &&& inv.subcommand@ == "run".spec_bytes()
                    &&& views_of(inv.args@) == seq![
                        "--package".spec_bytes(),
                        "metadata-gen".spec_bytes(),
                        "--manifest-path=".spec_bytes() + root@ + "/Cargo.toml".spec_bytes(),
                        "--target-dir=".spec_bytes() + p.meta.target_directory@,
                        "--release".spec_bytes(),
                    ]
                    &&& (inv.working_dir matches Some(w) && w@ == root@)
                    &&& inv.env@.len() == 0
                })
            })
        }),
        // The aggregator stage, on success: output whose top level parses
        // as an object is stamped with the root package's metadata and
        // written; output that does not parse is a document-parse failure,
        // reported after cleanup.
        p.stage is RunningAggregator ==> (ev matches PipelineEvent::AggregatorFinished(out) ==> (
        out matches ProcessOutcome::Exited { code, stdout } ==> (code == Some(0i32) ==> {
            &&& (json_object_parses(stdout@) ==> r.0.stage is WritingDocument && (r.1 matches
                PipelineAction::WriteFile { path, contents } && contents@ == stamped_document(
                stdout@,
                Some(p.meta.root_package.name@),
                Some(p.meta.root_package.version@),
                views_of(p.meta.root_package.authors@),
            )))
            &&& (!json_object_parses(stdout@) ==> r.0.stage is CleaningUp && (r.0.pending matches
                Some(res) && res matches Err(PipelineError::DocumentParse)))
        }))),
{
    match ev {
        PipelineEvent::BuildFinished(out) => {
            let mut desc = Vec::new();
            append_bytes(&mut desc, &p.last_command);
            proof {
                assert(desc@ =~= p.last_command@);
            }
            match interpret_outcome(desc, out) {
                Err(e) => finish(p, Err(e)),
                Ok(stdout) => {
                    let events = parse_build_events(&stdout);
                    proof {
                        lemma_so_candidates_model(events@);
                    }
                    match locate_artifact(&events) {
                        Err(e) => finish(p, Err(e)),
                        Ok(path) => {
                            let action = PipelineAction::ReadFile(path);
                            (
                                Pipeline { stage: PipelineStage::ReadingArtifact, ..p },
                                action,
                            )
                        },
                    }
                },
            }
        },
        PipelineEvent::ArtifactRead(opt) => {
            let bytes = match opt {
                Some(b) => b,
                None => {
                    return finish(p, Err(PipelineError::SnapshotIo));
                },
            };
            let syms = match object_symbol_names(&bytes) {
                Ok(s) => s,
                Err(e) => {
                    return finish(p, Err(e));
                },
            };
            let names = filter_abi_symbols(&syms);
            proof {
                assert(symbol_scan_of(bytes@) matches Some(found) && views_of(syms@) =~= found);
                assert(views_of(names@).to_set() == abi_symbol_set(views_of(syms@)));
                lemma_filter_is_canonical(views_of(names@), views_of(syms@));
            }
            match build_snapshot_plan(&p, &names) {
                Err(e) => finish(p, Err(e)),
                Ok(plan) => (
                    Pipeline { stage: PipelineStage::Staging, ..p },
                    PipelineAction::StageSnapshot(plan),
                ),
            }
        },
        PipelineEvent::SnapshotStaged(opt) => {
            let root = match opt {
                Some(r) => r,
                None => {
                    return finish(p, Err(PipelineError::SnapshotIo));
                },
            };
            let mut manifest = Vec::new();
            append_bytes(&mut manifest, &root);
            append_str_bytes(&mut manifest, "/Cargo.toml");
            let mut wd = Vec::new();
            append_bytes(&mut wd, &root);
            proof {
                assert(manifest@ =~= root@ + "/Cargo.toml".spec_bytes());
                assert(wd@ =~= root@);
            }
            let inv = run_invocation(&manifest, wd, &p.meta.target_directory);
            proof {
                assert("--manifest-path=".spec_bytes() + manifest@ =~= "--manifest-path=".spec_bytes()
                    + root@ + "/Cargo.toml".spec_bytes());
                assert(views_of(inv.args@) =~= seq![
                    "--package".spec_bytes(),
                    "metadata-gen".spec_bytes(),
                    "--manifest-path=".spec_bytes() + root@ + "/Cargo.toml".spec_bytes(),
                    "--target-dir=".spec_bytes() + p.meta.target_directory@,
                    "--release".spec_bytes(),
                ]);
            }
            let desc = describe_invocation(&inv);
            (
                Pipeline {
                    stage: PipelineStage::RunningAggregator,
                    snapshot_root: Some(root),
                    last_command: desc,
                    ..p
                },
                PipelineAction::RunProcess(inv),
            )
        },
        PipelineEvent::AggregatorFinished(out) => {
            let root = match &p.snapshot_root {
                Some(r) => r,
                None => {
                    proof {
                        assert(false);
                    }
                    return finish(p, Err(PipelineError::SnapshotIo));
                },
            };
            let mut rootc = Vec::new();
            append_bytes(&mut rootc, root);
            proof {
                assert(rootc@ =~= root@);
            }
            let mut desc = Vec::new();
            append_bytes(&mut desc, &p.last_command);
            match interpret_outcome(desc, out) {
                Err(e) => {
                    let action = PipelineAction::RemoveSnapshot(rootc);
                    (
                        Pipeline {
                            stage: PipelineStage::CleaningUp,
                            pending: Some(Err(e)),
                            ..p
                        },
                        action,
                    )
                },
                Ok(stdout) => {
                    let meta = extract_metadata(&p.meta.root_package);
                    match stamp_document(&stdout, &meta) {
                        Err(e) => {
                            let action = PipelineAction::RemoveSnapshot(rootc);
                            (
                                Pipeline {
                                    stage: PipelineStage::CleaningUp,
                                    pending: Some(Err(e)),
                                    ..p
                                },
                                action,
                            )
                        },
                        Ok(contents) => {
                            let mut path = Vec::new();
                            append_bytes(&mut path, &p.meta.target_directory);
                            append_str_bytes(&mut path, "/abi.json");
                            proof {
                                assert(path@ =~= output_path(p));
                            }
                            (
                                Pipeline { stage: PipelineStage::WritingDocument, ..p },
                                PipelineAction::WriteFile { path, contents },
                            )
                        },
                    }
                },
            }
        },
        PipelineEvent::DocumentWritten(ok) => {
            let root = match &p.snapshot_root {
                Some(r) => r,
                None => {
                    proof {
                        assert(false);
                    }
                    return finish(p, Err(PipelineError::SnapshotIo));
                },
            };
            let mut rootc = Vec::new();
            append_bytes(&mut rootc, root);
            proof {
                assert(rootc@ =~= root@);
            }
            let pending: Result<AbiResult, PipelineError> = if ok {
                let mut path = Vec::new();
                append_bytes(&mut path, &p.meta.target_directory);
                append_str_bytes(&mut path, "/abi.json");
                proof {
                    assert(path@ =~= output_path(p));
                }
                Ok(AbiResult { dest_abi: path })
            } else {
                Err(PipelineError::DocumentWrite)
            };
            let action = PipelineAction::RemoveSnapshot(rootc);
            (
                Pipeline { stage: PipelineStage::CleaningUp, pending: Some(pending), ..p },
                action,
            )
        },
        PipelineEvent::SnapshotRemoved(_ok) => {
            let res = match p.pending {
                Some(r) => r,
                None => {
                    proof {
                        assert(false);
                    }
                    Err(PipelineError::SnapshotIo)
                },
            };
            let ghost pend = p.pending;
            (
                Pipeline { stage: PipelineStage::Finished, pending: None, ..p },
                PipelineAction::Report(res),
            )
        },
    }
}

/// Ends the run before any snapshot exists.
fn finish(p: Pipeline, res: Result<AbiResult, PipelineError>) -> (r: (Pipeline, PipelineAction))
    ensures
        wf(r.0),
        r.0.stage is Finished,
        r.0.meta == p.meta,
        r.0.root_manifest_text == p.root_manifest_text,
        r.0.extra_manifests == p.extra_manifests,
        r.0.root_package_rel == p.root_package_rel,
        r.0.template_header == p.template_header,
        r.0.template_middle == p.template_middle,
        r.0.template_footer == p.template_footer,
        r.0.snapshot_root == p.snapshot_root,
        r.1 matches PipelineAction::Report(rr) && rr == res,
{
    (Pipeline { stage: PipelineStage::Finished, ..p }, PipelineAction::Report(res))
}

} // verus!
