//! The project descriptor and the metadata stamped into the final document.
//!
//! The build-manifest parser is an external collaborator: it reports the
//! package list, the root unit's identity, the workspace root and the shared
//! output directory as plain values, and this module derives the descriptor
//! from them.

use vstd::prelude::*;
use vstd::string::StringSliceAdditionalSpecFns;
use crate::errors::PipelineError;
use crate::symbols::views_of;
use crate::text::{append_bytes, append_str_bytes, bytes_eq, str_to_bytes};

verus! {

/// One package of the dependency-graph snapshot, as plain values.
pub struct PackageInfo {
    /// The package's unique identity in the graph.
    pub id: Vec<u8>,
    pub name: Vec<u8>,
    pub version: Vec<u8>,
    pub authors: Vec<Vec<u8>>,
    /// The package's own manifest file path.
    pub manifest_path: Vec<u8>,
}

/// The metadata written into the final document: derived once from the
/// root package.
pub struct AbiMetadata {
    pub name: Option<Vec<u8>>,
    pub version: Option<Vec<u8>>,
    pub authors: Vec<Vec<u8>>,
}

/// Relevant metadata obtained from the project's build manifest.
pub struct CrateMetadata {
    pub manifest_path: Vec<u8>,
    pub root_package: PackageInfo,
    pub target_directory: Vec<u8>,
}

/// The package name with every `-` normalized to `_`.
pub open spec fn normalized_name(n: Seq<u8>) -> Seq<u8> {
    n.map_values(|b: u8| if b == 45 { 95u8 } else { b })
}

/// The first package whose id is `id`.
pub open spec fn find_package(packages: Seq<PackageInfo>, id: Seq<u8>) -> Option<PackageInfo>
    decreases packages.len(),
{
    if packages.len() == 0 {
        None
    } else if packages[0].id@ == id {
        Some(packages[0])
    } else {
        find_package(packages.drop_first(), id)
    }
}

/// The shared output directory of a run: a `near` folder under the build's
/// target directory, with a per-package subfolder when the contract is one
/// member of a larger workspace.
pub open spec fn shared_target_dir(
    target_directory: Seq<u8>,
    in_workspace: bool,
    package_name: Seq<u8>,
) -> Seq<u8> {
    if in_workspace {
        target_directory + "/near/".spec_bytes() + normalized_name(package_name)
    } else {
        target_directory + "/near".spec_bytes()
    }
}

/// Normalizes a package name.
pub fn normalize_name(n: &Vec<u8>) -> (r: Vec<u8>)
    ensures
        r@ == normalized_name(n@),
{
    let mut out: Vec<u8> = Vec::new();
    let mut i: usize = 0;
    while i < n.len()
        invariant
            i <= n@.len(),
            out@ == normalized_name(n@.subrange(0, i as int)),
        decreases n@.len() - i,
    {
        let b = n[i];
        if b == 45 {
            out.push(95);
        } else {
            out.push(b);
        }
        proof {
            assert(n@.subrange(0, i + 1 as int) =~= n@.subrange(0, i as int).push(n@[i as int]));
            assert(out@ =~= normalized_name(n@.subrange(0, i + 1 as int)));
        }
        i = i + 1;
    }
    proof {
        assert(n@.subrange(0, n@.len() as int) =~= n@);
    }
    out
}

impl CrateMetadata {
    /// Resolves the descriptor from the reported build-manifest data: finds
    /// the root package by identity and fixes the shared output directory.
    ///
    /// A missing root identity, or an identity naming no reported package,
    /// is a manifest-resolution failure.
    pub fn collect(
        manifest_path: Vec<u8>,
        manifest_dir: &Vec<u8>,
        workspace_root: &Vec<u8>,
        target_directory: &Vec<u8>,
        packages: Vec<PackageInfo>,
        root_id: Option<Vec<u8>>,
    ) -> (r: Result<CrateMetadata, PipelineError>)
        ensures
            root_id matches Option::<Vec<u8>>::None ==> (r matches Err(
                PipelineError::ManifestResolution,
            )),
            root_id matches Some(id) ==> match find_package(packages@, id@) {
                None => r matches Err(PipelineError::ManifestResolution),
                Some(p) => r matches Ok(cm) && {
                    &&& cm.manifest_path@ == manifest_path@
                    &&& cm.root_package == p
                    &&& cm.target_directory@ == shared_target_dir(
                        target_directory@,
                        manifest_dir@ != workspace_root@,
                        p.name@,
                    )
                },
            },
    {
        let id = match root_id {
            Some(id) => id,
            None => {
                return Err(PipelineError::ManifestResolution);
            },
        };
        let mut pkgs = packages;
        let mut i: usize = 0;
        let n: usize = pkgs.len();
        proof {
            assert(pkgs@.subrange(0, n as int) =~= pkgs@);
        }
        while i < n
            invariant
                i <= n,
                n == pkgs@.len(),
                pkgs@ == packages@,
                root_id == Some(id),
                find_package(packages@, id@) == find_package(
                    packages@.subrange(i as int, n as int),
                    id@,
                ),
            decreases n - i,
        {
            proof {
                let rest = packages@.subrange(i as int, n as int);
                assert(rest[0] == packages@[i as int]);
                assert(rest.drop_first() =~= packages@.subrange(i + 1 as int, n as int));
            }
            if bytes_eq(&pkgs[i].id, &id) {
                proof {
                    assert(find_package(packages@, id@) == Some(packages@[i as int]));
                }
                let in_workspace = !bytes_eq(manifest_dir, workspace_root);
                let mut target = Vec::new();
                append_bytes(&mut target, target_directory);
                if in_workspace {
                    append_str_bytes(&mut target, "/near/");
                    let norm = normalize_name(&pkgs[i].name);
                    append_bytes(&mut target, &norm);
                } else {
                    append_str_bytes(&mut target, "/near");
                }
                let p = pkgs.remove(i);
                return Ok(CrateMetadata {
                    manifest_path,
                    root_package: p,
                    target_directory: target,
                });
            }
            i = i + 1;
        }
        proof {
            assert(packages@.subrange(n as int, n as int).len() == 0);
        }
        Err(PipelineError::ManifestResolution)
    }
}

/// Derives the document metadata from the root package: its name, its
/// version, and its authors in their original order.
pub fn extract_metadata(p: &PackageInfo) -> (r: AbiMetadata)
    ensures
        r.name matches Some(n) && n@ == p.name@,
        r.version matches Some(v) && v@ == p.version@,
        views_of(r.authors@) == views_of(p.authors@),
{
    let mut name = Vec::new();
    append_bytes(&mut name, &p.name);
    let mut version = Vec::new();
    append_bytes(&mut version, &p.version);
    let mut authors: Vec<Vec<u8>> = Vec::new();
    let mut i: usize = 0;
    while i < p.authors.len()
        invariant
            i <= p.authors@.len(),
            views_of(authors@) == views_of(p.authors@).subrange(0, i as int),
        decreases p.authors@.len() - i,
    {
        let ghost pre = views_of(p.authors@).subrange(0, i as int);
        let ghost post = views_of(p.authors@).subrange(0, i + 1 as int);
        proof {
            assert(post =~= pre.push(p.authors@[i as int]@));
        }
        let mut a = Vec::new();
        append_bytes(&mut a, &p.authors[i]);
        proof {
            assert(a@ == p.authors@[i as int]@);
        }
        authors.push(a);
        proof {
            assert(views_of(authors@) =~= pre.push(a@));
        }
        i = i + 1;
    }
    proof {
        assert(views_of(p.authors@).subrange(0, views_of(p.authors@).len() as int) =~= views_of(
            p.authors@,
        ));
    }
    AbiMetadata { name: Some(name), version: Some(version), authors }
}

} // verus!
