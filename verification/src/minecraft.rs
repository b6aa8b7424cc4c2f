//! The upstream version manifest and per-version package metadata,
//! modeled as plain values: identifiers as strings, instants as seconds
//! since the epoch. The surrounding program fetches and decodes the JSON
//! documents; every rule about their contents lives here.

use vstd::prelude::*;

verus! {

use crate::net::FetchError;

/// A Minecraft version identifier, as the manifest spells it.
///
/// The type itself is a plain string; membership in a concrete manifest
/// is checked by [`VersionId::parse_in`].
#[derive(Clone, Debug, Eq, Hash)]
pub struct VersionId(pub String);

impl View for VersionId {
    type V = Seq<char>;

    open spec fn view(&self) -> Seq<char> {
        self.0@
    }
}

impl PartialEq for VersionId {
    fn eq(&self, other: &VersionId) -> (r: bool) {
        self.0 == other.0
    }
}

impl vstd::std_specs::cmp::PartialEqSpecImpl for VersionId {
    open spec fn obeys_eq_spec() -> bool {
        true
    }

    open spec fn eq_spec(&self, other: &VersionId) -> bool {
        self.0@ == other.0@
    }
}

impl VersionId {
    pub fn new(id: String) -> (r: VersionId)
        ensures
            r@ == id@,
    {
        VersionId(id)
    }

    /// The identifier as a string slice.
    pub fn as_str(&self) -> (r: &str)
        ensures
            r@ == self@,
    {
        self.0.as_str()
    }
}

/// Failure to read a string as a known version identifier.
#[derive(Clone, Copy, Debug, PartialEq, Eq, Structural)]
pub enum VersionIdParseError {
    /// The manifest needed for validation could not be fetched.
    Network(FetchError),
    /// The string names no version the manifest knows.
    Invalid,
}

/// Type of a release, as the manifest's `type` field spells it.
#[derive(Clone, Copy, Debug, PartialEq, Eq, Structural, Hash)]
pub enum VersionType {
    /// Stable, major version releases suitable for all players.
    Release,
    /// In-development versions that may change frequently.
    Snapshot,
    OldAlpha,
    OldBeta,
}

/// One entry of the manifest's `versions` list.
#[derive(Clone, Debug)]
pub struct MinecraftVersion {
    /// The unique identifier (version number) of the release.
    pub id: VersionId,
    /// Type of release.
    pub kind: VersionType,
    /// URL of the release's package document.
    pub url: String,
    /// Last modified instant, seconds since the epoch.
    pub time: i64,
    /// Release instant, seconds since the epoch.
    pub release_time: i64,
}

impl MinecraftVersion {
    /// Whether this release came out strictly before the other; entries
    /// order by release instant, not by identifier.
    pub fn released_before(&self, other: &MinecraftVersion) -> (r: bool)
        ensures
            r == (self.release_time < other.release_time),
    {
        self.release_time < other.release_time
    }
}

/// The manifest's two "latest" pointers.
#[derive(Clone, Debug)]
pub struct LatestVersions {
    pub release: VersionId,
    pub snapshot: VersionId,
}

/// The upstream index of all known versions.
#[derive(Clone, Debug)]
pub struct VersionManifest {
    pub latest: LatestVersions,
    pub versions: Vec<MinecraftVersion>,
}

impl VersionManifest {
    /// Whether some entry carries this identifier.
    pub open spec fn spec_contains_id(&self, id: Seq<char>) -> bool {
        exists|i: int| 0 <= i < self.versions@.len() && self.versions@[i].id@ == id
    }

    /// The first entry carrying this identifier, if any.
    pub fn find_version(&self, id: &VersionId) -> (r: Option<&MinecraftVersion>)
        ensures
            match r {
                Some(v) => v.id@ == id@ && exists|i: int|
                    0 <= i < self.versions@.len() && self.versions@[i] == *v && forall|j: int|
                        0 <= j < i ==> self.versions@[j].id@ != id@,
                None => !self.spec_contains_id(id@),
            },
    {
        let mut i: usize = 0;
        while i < self.versions.len()
            invariant
                i <= self.versions@.len(),
                forall|j: int| 0 <= j < i ==> self.versions@[j].id@ != id@,
            decreases self.versions@.len() - i,
        {
            if self.versions[i].id == *id {
                return Some(&self.versions[i]);
            }
            i = i + 1;
        }
        None
    }

    /// Whether the manifest knows this identifier.
    pub fn contains(&self, id: &VersionId) -> (r: bool)
        ensures
            r == self.spec_contains_id(id@),
    {
        self.find_version(id).is_some()
    }

    /// The entry of the latest release. The manifest must list it: the
    /// upstream index always does, and a caller that cannot assume so
    /// uses `find_version` on `latest_release_id` instead.
    pub fn latest_release(&self) -> (r: &MinecraftVersion)
        requires
            self.spec_contains_id(self.latest.release@),
        ensures
            r.id@ == self.latest.release@,
            exists|i: int|
                0 <= i < self.versions@.len() && self.versions@[i] == *r && forall|j: int|
                    0 <= j < i ==> self.versions@[j].id@ != self.latest.release@,
    {
        match self.find_version(&self.latest.release) {
            Some(v) => v,
            None => vstd::pervasive::unreached(),
        }
    }

    /// The entry of the latest snapshot; the manifest must list it.
    pub fn latest_snapshot(&self) -> (r: &MinecraftVersion)
        requires
            self.spec_contains_id(self.latest.snapshot@),
        ensures
            r.id@ == self.latest.snapshot@,
            exists|i: int|
                0 <= i < self.versions@.len() && self.versions@[i] == *r && forall|j: int|
                    0 <= j < i ==> self.versions@[j].id@ != self.latest.snapshot@,
    {
        match self.find_version(&self.latest.snapshot) {
            Some(v) => v,
            None => vstd::pervasive::unreached(),
        }
    }

    /// Identifier of the latest release.
    pub fn latest_release_id(&self) -> (r: &VersionId)
        ensures
            r@ == self.latest.release@,
    {
        &self.latest.release
    }

    /// Identifier of the latest snapshot.
    pub fn latest_snapshot_id(&self) -> (r: &VersionId)
        ensures
            r@ == self.latest.snapshot@,
    {
        &self.latest.snapshot
    }
}

impl VersionId {
    /// Reads a string as a version identifier, valid exactly when the
    /// given manifest lists it.
    pub fn parse_in(s: &str, manifest: &VersionManifest) -> (r: Result<
        VersionId,
        VersionIdParseError,
    >)
        ensures
            match r {
                Ok(id) => id@ == s@ && manifest.spec_contains_id(s@),
                Err(e) => e == VersionIdParseError::Invalid && !manifest.spec_contains_id(s@),
            },
    {
        let id = VersionId(s.to_owned());
        if manifest.contains(&id) {
            Ok(id)
        } else {
            Err(VersionIdParseError::Invalid)
        }
    }
}

/// Whether the manifest lists a version with this identifier.
pub fn version_exists(manifest: &VersionManifest, id: &VersionId) -> (r: bool)
    ensures
        r == manifest.spec_contains_id(id@),
{
    manifest.contains(id)
}

/// Download information for one artifact of a game package.
#[derive(Clone, Debug)]
pub struct Download {
    pub size: u64,
    pub url: String,
}

/// Java runtime requirement of a game package.
#[derive(Clone, Debug)]
pub struct JavaVersion {
    pub component: String,
    pub major_version: u8,
}

impl Default for JavaVersion {
    /// A `JavaVersion` with major version 8 and unspecified component,
    /// for package documents that omit the field.
    fn default() -> (r: JavaVersion)
        ensures
            r.major_version == 8,
            r.component@ == Seq::<char>::empty(),
    {
        JavaVersion { component: String::new(), major_version: 8 }
    }
}

/// Package metadata of one game version: its downloads, keyed by kind
/// (`server`, `client`, ...), and the runtime it requires.
#[derive(Clone, Debug)]
pub struct GamePackage {
    pub downloads: Vec<(String, Download)>,
    pub id: VersionId,
    pub java_version: JavaVersion,
    pub release_time: i64,
    pub time: i64,
    pub kind: String,
}

impl GamePackage {
    /// Whether a download of this kind is listed.
    pub open spec fn spec_has_download(&self, kind: Seq<char>) -> bool {
        exists|i: int| 0 <= i < self.downloads@.len() && self.downloads@[i].0@ == kind
    }

    /// The first download listed under this kind, if any.
    pub fn get_download(&self, kind: &str) -> (r: Option<&Download>)
        ensures
            match r {
                Some(d) => self.spec_has_download(kind@) && exists|i: int|
                    0 <= i < self.downloads@.len() && self.downloads@[i].0@ == kind@
                        && self.downloads@[i].1 == *d,
                None => !self.spec_has_download(kind@),
            },
    {
        let k = kind.to_owned();
        let mut i: usize = 0;
        while i < self.downloads.len()
            invariant
                k@ == kind@,
                i <= self.downloads@.len(),
                forall|j: int| 0 <= j < i ==> self.downloads@[j].0@ != kind@,
            decreases self.downloads@.len() - i,
        {
            if self.downloads[i].0 == k {
                return Some(&self.downloads[i].1);
            }
            i = i + 1;
        }
        None
    }
}

/// Base of the upstream metadata service.
pub open spec fn spec_api_url(path: Seq<char>) -> Seq<char> {
    "https://piston-meta.mojang.com/"@ + path
}

/// Base of the Fabric metadata service.
pub open spec fn spec_fabric_api_url(path: Seq<char>) -> Seq<char> {
    "https://meta.fabricmc.net/"@ + path
}

/// Full URL of a path under the upstream metadata service.
pub fn api_path(path: &str) -> (r: String)
    ensures
        r@ == spec_api_url(path@),
{
    let mut out = "https://piston-meta.mojang.com/".to_owned();
    out.append(path);
    out
}

/// Full URL of a path under the Fabric metadata service.
pub fn fabric_api_path(path: &str) -> (r: String)
    ensures
        r@ == spec_fabric_api_url(path@),
{
    let mut out = "https://meta.fabricmc.net/".to_owned();
    out.append(path);
    out
}

} // verus!
