//! What is on disk of an artifact.
use crate::catalog::{Artifact, ArtifactView, Catalog};
use crate::download::{artifact_target, capped, covered, target_of, temp_paths, RangeState};
use vstd::prelude::*;

verus! {

/// What is on disk of an artifact.
#[derive(Clone, Copy, Debug, PartialEq, Eq, Structural)]
pub enum ArtifactStatus {
    Missing,
    Installed,
    Partial { downloaded_bytes: u64, expected_bytes: Option<u64> },
    SizeMismatch { actual: u64, expected: u64 },
}

/// What was found at an artifact's paths.
pub struct ArtifactFiles {
    /// The length of the final file, where it is there.
    pub target_length: Option<u64>,
    /// Whether the `.part` file is there.
    pub part_exists: bool,
    /// The record of completed ranges, where it is there and can be read.
    pub saved: Option<RangeState>,
}

/// An installation and what can be installed in it.
pub struct Inventory<'a> {
    pub comfy_root: &'a str,
    pub catalog: &'a Catalog,
    pub windows: bool,
}

/// What the files found say of an artifact. Progress is what the record of ranges says: the length
/// of the `.part` file plays no part.
pub open spec fn status_of(a: ArtifactView, files: ArtifactFiles) -> ArtifactStatus {
    match files.target_length {
        Some(n) => match a.size_bytes {
            Some(expected) => if n != expected {
                ArtifactStatus::SizeMismatch { actual: n, expected }
            } else {
                ArtifactStatus::Installed
            },
            None => ArtifactStatus::Installed,
        },
        None => if files.part_exists {
            ArtifactStatus::Partial {
                downloaded_bytes: match files.saved {
                    Some(s) => capped(covered(s.completed@)),
                    None => 0,
                },
                expected_bytes: a.size_bytes,
            }
        } else {
            ArtifactStatus::Missing
        },
    }
}

impl<'a> Inventory<'a> {
    /// Where an artifact's file goes.
    pub fn artifact_path(&self, artifact: &Artifact) -> (r: String)
        ensures
            r@ == target_of(self.windows, self.comfy_root@, artifact.deep_view()),
    {
        artifact_target(self.windows, self.comfy_root, artifact)
    }

    /// The paths that are looked at for an artifact's status: the final file, the `.part` file and
    /// the record of ranges.
    pub fn watched_paths(&self, artifact: &Artifact) -> (r: (String, String, String))
        ensures
            r.0@ == target_of(self.windows, self.comfy_root@, artifact.deep_view()),
            r.1@ == crate::download::part_of(self.windows, self.comfy_root@, artifact.deep_view()),
            r.2@ == crate::download::ranges_of(
                self.windows,
                self.comfy_root@,
                artifact.deep_view(),
            ),
    {
        let (_, part, ranges) = temp_paths(self.comfy_root, artifact, self.windows);
        let target = self.artifact_path(artifact);
        match ranges {
            Some(ranges) => (target, part, ranges),
            None => (target, part, String::new()),
        }
    }

    /// What the files found say of an artifact.
    pub fn status(&self, artifact: &Artifact, files: &ArtifactFiles) -> (r: ArtifactStatus)
        ensures
            r == status_of(artifact.deep_view(), *files),
    {
        if let Some(actual) = files.target_length {
            if let Some(expected) = artifact.size_bytes {
                if actual != expected {
                    return ArtifactStatus::SizeMismatch { actual, expected };
                }
            }
            return ArtifactStatus::Installed;
        }
        if files.part_exists {
            let downloaded_bytes: u64 = match &files.saved {
                Some(s) => s.completed_bytes(),
                None => 0,
            };
            return ArtifactStatus::Partial {
                downloaded_bytes,
                expected_bytes: artifact.size_bytes,
            };
        }
        ArtifactStatus::Missing
    }
}

}
