//! Process-invoker decisions: which build command to run, and what its
//! outcome means. Spawning the process itself is outside code; this module
//! fixes the invocation value handed out and the interpretation of what
//! came back.

use vstd::prelude::*;
use vstd::string::StringSliceAdditionalSpecFns;
use crate::errors::PipelineError;
use crate::symbols::views_of;
use crate::text::{append_bytes, append_str_bytes, str_to_bytes};

verus! {

/// One environment override for the child process: set `key` to the value,
/// or unset it.
pub struct EnvEdit {
    pub key: Vec<u8>,
    pub value: Option<Vec<u8>>,
}

/// A build-tool invocation: a value object, consumed once per call.
pub struct BuildInvocation {
    pub subcommand: Vec<u8>,
    pub args: Vec<Vec<u8>>,
    pub working_dir: Option<Vec<u8>>,
    pub env: Vec<EnvEdit>,
}

/// What running an external process produced.
pub enum ProcessOutcome {
    /// The binary could not be spawned at all.
    SpawnFailed,
    /// The process ran to completion with this status and captured output.
    Exited { code: Option<i32>, stdout: Vec<u8> },
}

/// The parts of an invocation joined with single spaces.
pub open spec fn with_spaces(parts: Seq<Seq<u8>>) -> Seq<u8>
    decreases parts.len(),
{
    if parts.len() == 0 {
        Seq::empty()
    } else {
        with_spaces(parts.drop_last()) + " ".spec_bytes() + parts.last()
    }
}

/// The one-line description of an invocation, used in failure reports.
pub open spec fn invocation_description(inv: BuildInvocation) -> Seq<u8> {
    "cargo".spec_bytes() + with_spaces(seq![inv.subcommand@] + views_of(inv.args@))
}

/// Renders the invocation description.
pub fn describe_invocation(inv: &BuildInvocation) -> (r: Vec<u8>)
    ensures
        r@ == invocation_description(*inv),
{
    let ghost parts = seq![inv.subcommand@] + views_of(inv.args@);
    let mut out = str_to_bytes("cargo");
    append_str_bytes(&mut out, " ");
    append_bytes(&mut out, &inv.subcommand);
    proof {
        assert(parts.subrange(0, 1).drop_last() =~= Seq::<Seq<u8>>::empty());
        assert(parts[0] == inv.subcommand@);
        assert(parts.subrange(0, 1).last() == parts[0]);
        assert(with_spaces(Seq::<Seq<u8>>::empty()) == Seq::<u8>::empty());
        assert(with_spaces(parts.subrange(0, 1)) == with_spaces(Seq::<Seq<u8>>::empty())
            + " ".spec_bytes() + parts[0]);
        assert(out@ =~= "cargo".spec_bytes() + with_spaces(parts.subrange(0, 1)));
    }
    let mut i: usize = 0;
    while i < inv.args.len()
        invariant
            i <= inv.args@.len(),
            parts == seq![inv.subcommand@] + views_of(inv.args@),
            parts.len() == 1 + inv.args@.len(),
            out@ == "cargo".spec_bytes() + with_spaces(parts.subrange(0, i + 1 as int)),
        decreases inv.args@.len() - i,
    {
        append_str_bytes(&mut out, " ");
        append_bytes(&mut out, &inv.args[i]);
        proof {
            assert(parts.subrange(0, i + 2 as int).drop_last() =~= parts.subrange(0, i + 1 as int));
            assert(parts.subrange(0, i + 2 as int).last() == inv.args@[i as int]@);
            assert(out@ =~= "cargo".spec_bytes() + with_spaces(parts.subrange(0, i + 2 as int)));
        }
        i = i + 1;
    }
    proof {
        assert(parts.subrange(0, parts.len() as int) =~= parts);
    }
    out
}

/// The release-mode build invocation with event reporting and an explicit
/// shared output directory.
pub fn build_invocation(manifest_dir: Option<Vec<u8>>, target_dir: &Vec<u8>) -> (r:
    BuildInvocation)
    ensures
        r.subcommand@ == "build".spec_bytes(),
        views_of(r.args@) == seq![
            "--release".spec_bytes(),
            "--message-format=json".spec_bytes(),
            "--target-dir=".spec_bytes() + target_dir@,
        ],
        r.working_dir == manifest_dir,
        r.env@.len() == 0,
{
    let mut args: Vec<Vec<u8>> = Vec::new();
    args.push(str_to_bytes("--release"));
    args.push(str_to_bytes("--message-format=json"));
    let mut td = str_to_bytes("--target-dir=");
    append_bytes(&mut td, target_dir);
    args.push(td);
    proof {
        assert(views_of(args@) =~= seq![
            "--release".spec_bytes(),
            "--message-format=json".spec_bytes(),
            "--target-dir=".spec_bytes() + target_dir@,
        ]);
    }
    BuildInvocation {
        subcommand: str_to_bytes("build"),
        args,
        working_dir: manifest_dir,
        env: Vec::new(),
    }
}

/// The release-mode invocation that builds and runs the synthetic
/// aggregator member from the snapshot root.
pub fn run_invocation(snapshot_manifest: &Vec<u8>, snapshot_dir: Vec<u8>, target_dir: &Vec<u8>)
    -> (r: BuildInvocation)
    ensures
        r.subcommand@ == "run".spec_bytes(),
        views_of(r.args@) == seq![
            "--package".spec_bytes(),
            "metadata-gen".spec_bytes(),
            "--manifest-path=".spec_bytes() + snapshot_manifest@,
            "--target-dir=".spec_bytes() + target_dir@,
            "--release".spec_bytes(),
        ],
        r.working_dir matches Some(d) && d@ == snapshot_dir@,
        r.env@.len() == 0,
{
    let mut args: Vec<Vec<u8>> = Vec::new();
    args.push(str_to_bytes("--package"));
    args.push(str_to_bytes("metadata-gen"));
    let mut mp = str_to_bytes("--manifest-path=");
    append_bytes(&mut mp, snapshot_manifest);
    args.push(mp);
    let mut td = str_to_bytes("--target-dir=");
    append_bytes(&mut td, target_dir);
    args.push(td);
    args.push(str_to_bytes("--release"));
    proof {
        assert(views_of(args@) =~= seq![
            "--package".spec_bytes(),
            "metadata-gen".spec_bytes(),
            "--manifest-path=".spec_bytes() + snapshot_manifest@,
            "--target-dir=".spec_bytes() + target_dir@,
            "--release".spec_bytes(),
        ]);
    }
    BuildInvocation { subcommand: str_to_bytes("run"), args, working_dir: Some(snapshot_dir), env: Vec::new() }
}

/// Maps a process outcome to the captured output or a typed failure:
/// spawn failure, or a non-zero exit carrying the invocation description
/// and the exit status.
pub fn interpret_outcome(command: Vec<u8>, outcome: ProcessOutcome) -> (r: Result<
    Vec<u8>,
    PipelineError,
>)
    ensures
        (outcome matches ProcessOutcome::SpawnFailed) ==> (r
            matches Err(PipelineError::BuildProcessUnavailable)),
        outcome matches ProcessOutcome::Exited { code, stdout } ==> {
            &&& code == Some(0i32) ==> (r matches Ok(s) && s@ == stdout@)
            &&& code != Some(0i32) ==> (r matches Err(PipelineError::BuildProcessFailed {
                command: c,
                exit_code,
            }) && c@ == command@ && exit_code == code)
        },
{
    match outcome {
        ProcessOutcome::SpawnFailed => Err(PipelineError::BuildProcessUnavailable),
        ProcessOutcome::Exited { code, stdout } => {
            match code {
                Some(c) => {
                    if c == 0 {
                        Ok(stdout)
                    } else {
                        Err(PipelineError::BuildProcessFailed { command, exit_code: Some(c) })
                    }
                },
                None => Err(PipelineError::BuildProcessFailed { command, exit_code: None }),
            }
        },
    }
}

} // verus!
