//! The data each subcommand carries, and the version-list filtering the
//! `list` subcommand performs. Argument parsing and terminal output are
//! the surrounding program's job.

use vstd::prelude::*;

verus! {

use crate::metadata::ServerSpec;
use crate::minecraft::{MinecraftVersion, VersionId, VersionManifest};
use crate::version::{spec_parse_version, VersionNumber, VersionView};

broadcast use vstd::seq_lib::group_seq_properties;

/// Show information about a version.
pub struct InfoCmd {
    /// The version to show information about.
    pub version: VersionId,
}

/// Install server instances.
pub struct InstallCmd {
    /// Specifications of the instances to install; none means the
    /// latest release with defaults.
    pub specs: Option<Vec<ServerSpec>>,
}

/// Uninstall a server instance.
pub struct UninstallCmd {
    /// Name or identifier of the instance to uninstall.
    pub specifier: String,
}

/// Which version shapes the `list` subcommand shows.
#[derive(Clone, Copy, Debug, PartialEq, Eq, Structural)]
pub struct VersionTypeFilter {
    pub show_release: bool,
    pub show_pre_release: bool,
    pub show_snapshot: bool,
    pub show_non_standard: bool,
}

impl Default for VersionTypeFilter {
    /// With no filter given, only release versions are shown.
    fn default() -> (r: VersionTypeFilter)
        ensures
            r.show_release && !r.show_pre_release && !r.show_snapshot && !r.show_non_standard,
    {
        VersionTypeFilter {
            show_release: true,
            show_pre_release: false,
            show_snapshot: false,
            show_non_standard: false,
        }
    }
}

/// List installed or available versions.
pub struct ListCmd {
    /// Show installed instances instead of available versions.
    pub show_installed: bool,
    pub filter: VersionTypeFilter,
}

/// Filter over the version list: which of the four shapes to include
/// (exclusive), and whether to list installed versions only
/// (inclusive).
#[derive(Clone, Copy, Debug)]
pub struct ListFilter {
    /// If set, only installed versions are listed.
    pub installed: bool,
    /// Whether release, pre-release, snapshot and non-standard versions
    /// are included, in that order.
    pub included_types: (bool, bool, bool, bool),
}

impl ListFilter {
    /// Which classified shapes the filter includes.
    pub open spec fn spec_includes(self, v: VersionView) -> bool {
        match v {
            VersionView::Release { .. } => self.included_types.0,
            VersionView::PreRelease { .. } => self.included_types.1,
            VersionView::Snapshot { .. } => self.included_types.2,
            VersionView::NonStandard { .. } => self.included_types.3,
        }
    }

    /// Whether the filter includes this version. The installed-only
    /// filter needs the instance store and is decided by the caller.
    pub fn includes(&self, version: &VersionNumber) -> (r: bool)
        requires
            !self.installed,
        ensures
            r == self.spec_includes(version@),
    {
        match version {
            VersionNumber::Release(_) => self.included_types.0,
            VersionNumber::PreRelease(_) => self.included_types.1,
            VersionNumber::Snapshot(_) => self.included_types.2,
            VersionNumber::NonStandard(_) => self.included_types.3,
        }
    }
}

/// Whether the filter includes a raw identifier: the identifier is
/// classified first; one that fits no grammar is never listed.
pub open spec fn spec_included(filter: ListFilter, id: Seq<char>) -> bool {
    match spec_parse_version(id) {
        Some(v) => filter.spec_includes(v),
        None => false,
    }
}

/// The identifiers of the manifest entries the filter includes, in
/// manifest order.
pub fn filter_versions(manifest: &VersionManifest, filter: &ListFilter) -> (r: Vec<VersionId>)
    requires
        !filter.installed,
    ensures
        r@.map_values(|id: VersionId| id@) == manifest.versions@.map_values(
            |e: MinecraftVersion| e.id@,
        ).filter(|id: Seq<char>| spec_included(*filter, id)),
{
    let ghost pred = |id: Seq<char>| spec_included(*filter, id);
    let mut r: Vec<VersionId> = Vec::new();
    let mut k: usize = 0;
    while k < manifest.versions.len()
        invariant
            !filter.installed,
            k <= manifest.versions@.len(),
            r@.map_values(|id: VersionId| id@) == manifest.versions@.take(k as int).map_values(
                |e: MinecraftVersion| e.id@,
            ).filter(|id: Seq<char>| spec_included(*filter, id)),
        decreases manifest.versions@.len() - k,
    {
        let ghost prefix = manifest.versions@.take(k as int).map_values(
            |e: MinecraftVersion| e.id@,
        );
        proof {
            assert(manifest.versions@.take(k as int + 1).drop_last() =~= manifest.versions@.take(
                k as int,
            ));
            assert(manifest.versions@.take(k as int + 1).last() == manifest.versions@[k as int]);
            assert(manifest.versions@.take(k as int + 1).map_values(|e: MinecraftVersion| e.id@)
                =~= prefix.push(manifest.versions@[k as int].id@));
            prefix.lemma_filter_push(
                manifest.versions@[k as int].id@,
                |id: Seq<char>| spec_included(*filter, id),
            );
        }
        let entry = &manifest.versions[k];
        let included = match VersionNumber::parse(entry.id.as_str()) {
            Ok(v) => filter.includes(&v),
            Err(_) => false,
        };
        if included {
            let ghost r0 = r@;
            r.push(VersionId::new(entry.id.as_str().to_owned()));
            proof {
                assert(r@.map_values(|id: VersionId| id@) =~= r0.map_values(|id: VersionId| id@)
                    .push(entry.id@));
            }
        }
        k = k + 1;
    }
    proof {
        assert(manifest.versions@.take(manifest.versions@.len() as int) =~= manifest.versions@);
    }
    r
}

} // verus!
