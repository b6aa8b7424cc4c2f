//! Install orchestration: the durable metadata store of installed
//! runtimes and instances, and the planning of a batch install — one
//! server-install task per requested version, plus exactly one
//! runtime-install task per runtime major version the batch newly needs.
//!
//! The functions here decide; the surrounding program downloads,
//! extracts and writes, then commits results back into the store.

use vstd::prelude::*;

verus! {

use vstd::string::*;
use crate::minecraft::{GamePackage, VersionId};

broadcast use vstd::seq_lib::lemma_seq_contains_after_push;

/// Durable record of one installed server instance.
#[derive(Clone, Debug)]
pub struct InstanceMeta {
    /// The version identifier the instance runs.
    pub id: VersionId,
    /// Instance directory, relative to the data directory.
    pub path: String,
    /// Settings document, relative to the config directory.
    pub settings_path: String,
    /// Major version of the Java runtime the instance needs.
    pub jre: u8,
}

impl InstanceMeta {
    pub fn new(id: VersionId, path: String, settings_path: String, jre: u8) -> (r: InstanceMeta)
        ensures
            r.id@ == id@ && r.path@ == path@ && r.settings_path@ == settings_path@ && r.jre == jre,
    {
        InstanceMeta { id, path, settings_path, jre }
    }
}

/// The durable metadata store: which runtime major versions and which
/// instances are installed. One guarded copy lives in the process; it is
/// persisted after every successful mutation and read at start.
#[derive(Clone, Debug)]
pub struct AppMeta {
    pub jres: Vec<u8>,
    pub instances: Vec<InstanceMeta>,
}

impl AppMeta {
    /// Whether this runtime major version is recorded as installed.
    pub open spec fn spec_jre_installed(&self, major: u8) -> bool {
        self.jres@.contains(major)
    }

    /// Whether an instance of this version is recorded as installed.
    pub open spec fn spec_instance_installed(&self, id: Seq<char>) -> bool {
        exists|i: int| 0 <= i < self.instances@.len() && self.instances@[i].id@ == id
    }

    /// An empty store.
    pub fn new() -> (r: AppMeta)
        ensures
            forall|m: u8| !r.spec_jre_installed(m),
            forall|id: Seq<char>| !r.spec_instance_installed(id),
    {
        AppMeta { jres: Vec::new(), instances: Vec::new() }
    }

    /// Whether this runtime major version is installed.
    pub fn jre_installed(&self, major: u8) -> (r: bool)
        ensures
            r == self.spec_jre_installed(major),
    {
        let mut i: usize = 0;
        while i < self.jres.len()
            invariant
                i <= self.jres@.len(),
                forall|j: int| 0 <= j < i ==> self.jres@[j] != major,
            decreases self.jres@.len() - i,
        {
            if self.jres[i] == major {
                return true;
            }
            i = i + 1;
        }
        false
    }

    /// Whether an instance of this version is installed.
    pub fn instance_installed(&self, id: &VersionId) -> (r: bool)
        ensures
            r == self.spec_instance_installed(id@),
    {
        let mut i: usize = 0;
        while i < self.instances.len()
            invariant
                i <= self.instances@.len(),
                forall|j: int| 0 <= j < i ==> self.instances@[j].id@ != id@,
            decreases self.instances@.len() - i,
        {
            if self.instances[i].id == *id {
                return true;
            }
            i = i + 1;
        }
        false
    }

    /// Records a runtime major version as installed.
    pub fn add_jre(&mut self, major: u8)
        ensures
            final(self).spec_jre_installed(major),
            forall|m: u8|
                final(self).spec_jre_installed(m) == (old(self).spec_jre_installed(m) || m
                    == major),
            final(self).instances@ == old(self).instances@,
    {
        if !self.jre_installed(major) {
            self.jres.push(major);
        }
    }

    /// Removes a runtime major version from the store; reports whether
    /// it was recorded.
    pub fn remove_jre(&mut self, major: u8) -> (r: bool)
        ensures
            r == old(self).spec_jre_installed(major),
            !final(self).spec_jre_installed(major),
            forall|m: u8|
                m != major ==> final(self).spec_jre_installed(m) == old(self).spec_jre_installed(
                    m,
                ),
            final(self).instances@ == old(self).instances@,
    {
        let found = self.jre_installed(major);
        let mut kept: Vec<u8> = Vec::new();
        let mut i: usize = 0;
        while i < self.jres.len()
            invariant
                i <= self.jres@.len(),
                forall|j: int| 0 <= j < kept@.len() ==> kept@[j] != major,
                forall|j: int| 0 <= j < kept@.len() ==> self.jres@.contains(#[trigger] kept@[j]),
                forall|w: int|
                    0 <= w < i && self.jres@[w] != major ==> kept@.contains(
                        #[trigger] self.jres@[w],
                    ),
            decreases self.jres@.len() - i,
        {
            let v = self.jres[i];
            if v != major {
                kept.push(v);
                proof {
                    assert(self.jres@.contains(v)) by {
                        assert(self.jres@[i as int] == v);
                    }
                }
            }
            i = i + 1;
        }
        self.jres = kept;
        found
    }

    /// Records an installed instance. The caller checks beforehand that
    /// the version is not yet installed; recording it again is harmless
    /// (the newest record is as good as the first).
    pub fn add_instance(&mut self, inst: InstanceMeta)
        ensures
            final(self).spec_instance_installed(inst.id@),
            forall|id: Seq<char>|
                final(self).spec_instance_installed(id) == (old(self).spec_instance_installed(id)
                    || id == inst.id@),
            final(self).jres@ == old(self).jres@,
    {
        let ghost id = inst.id@;
        self.instances.push(inst);
        proof {
            assert(self.instances@.last().id@ == id);
            assert forall|x: Seq<char>|
                final(self).spec_instance_installed(x) == (old(self).spec_instance_installed(x)
                    || x == id) by {
                if old(self).spec_instance_installed(x) {
                    let i = choose|i: int|
                        0 <= i < old(self).instances@.len() && old(self).instances@[i].id@ == x;
                    assert(self.instances@[i].id@ == x);
                } else if x == id {
                    assert(self.instances@[self.instances@.len() - 1].id@ == x);
                } else {
                    if final(self).spec_instance_installed(x) {
                        let i = choose|i: int|
                            0 <= i < self.instances@.len() && self.instances@[i].id@ == x;
                        assert(i < self.instances@.len() - 1 ==> old(self).instances@[i].id@ == x);
                    }
                }
            }
        }
    }
}

/// What the server-install task for one version will do.
pub enum ServerPlan {
    /// The manifest lists no server artifact: the version is skipped,
    /// not failed, and no directory is created.
    NoServerJar,
    /// An instance of this version exists: a no-op success.
    AlreadyInstalled,
    /// Download the server artifact from this URL and set the instance up.
    Download { url: String },
}

/// The three possible outcomes of planning a server install.
#[derive(Clone, Copy, Debug, PartialEq, Eq, Structural)]
pub enum ServerPlanKind {
    NoServerJar,
    AlreadyInstalled,
    Download,
}

/// Decision rule of the server-install task: a version without a server
/// download is skipped before anything else; an installed instance is a
/// no-op; only otherwise is anything downloaded.
pub open spec fn spec_server_plan(meta: &AppMeta, pkg: &GamePackage) -> ServerPlanKind {
    if !pkg.spec_has_download("server"@) {
        ServerPlanKind::NoServerJar
    } else if meta.spec_instance_installed(pkg.id@) {
        ServerPlanKind::AlreadyInstalled
    } else {
        ServerPlanKind::Download
    }
}

/// Whether a concrete plan is the one the decision rule prescribes for
/// this store and package, URL included.
pub open spec fn server_plan_ok(meta: &AppMeta, pkg: &GamePackage, p: ServerPlan) -> bool {
    match p {
        ServerPlan::NoServerJar => spec_server_plan(meta, pkg) == ServerPlanKind::NoServerJar,
        ServerPlan::AlreadyInstalled => spec_server_plan(meta, pkg)
            == ServerPlanKind::AlreadyInstalled,
        ServerPlan::Download { url } => spec_server_plan(meta, pkg) == ServerPlanKind::Download
            && exists|i: int|
            0 <= i < pkg.downloads@.len() && pkg.downloads@[i].0@ == "server"@
                && pkg.downloads@[i].1.url@ == url@,
    }
}

/// Plans the server-install task for one version.
pub fn plan_server_install(meta: &AppMeta, pkg: &GamePackage) -> (p: ServerPlan)
    ensures
        server_plan_ok(meta, pkg, p),
{
    match pkg.get_download("server") {
        None => ServerPlan::NoServerJar,
        Some(d) => {
            if meta.instance_installed(&pkg.id) {
                ServerPlan::AlreadyInstalled
            } else {
                ServerPlan::Download { url: d.url.clone() }
            }
        },
    }
}

/// Idempotent-install law: once a store records an instance of a
/// version (as committing a successful install does), planning that
/// version again is a no-op success — the artifact is downloaded at
/// most once across repeated install calls.
pub proof fn lemma_install_idempotent(meta: AppMeta, pkg: GamePackage)
    requires
        meta.spec_instance_installed(pkg.id@),
        pkg.spec_has_download("server"@),
    ensures
        spec_server_plan(&meta, &pkg) == ServerPlanKind::AlreadyInstalled,
{
}

/// Skip law: a version whose package lists no server artifact is
/// always skipped — never an error, never a download, whatever the
/// store holds.
pub proof fn lemma_no_server_jar_skips(meta: AppMeta, pkg: GamePackage)
    requires
        !pkg.spec_has_download("server"@),
    ensures
        spec_server_plan(&meta, &pkg) == ServerPlanKind::NoServerJar,
{
}

/// No element occurs twice.
pub open spec fn no_dup(s: Seq<u8>) -> bool {
    forall|i: int, j: int| 0 <= i < j < s.len() ==> s[i] != s[j]
}

/// Whether some package among the first `k` needs runtime major `m`.
pub open spec fn spec_prefix_needs(pkgs: Seq<GamePackage>, k: int, m: u8) -> bool {
    exists|i: int| 0 <= i < k && (#[trigger] pkgs[i]).java_version.major_version == m
}

/// Which runtime major versions a batch of packages needs installed.
pub open spec fn spec_batch_needs(pkgs: Seq<GamePackage>, m: u8) -> bool {
    spec_prefix_needs(pkgs, pkgs.len() as int, m)
}

/// The whole batch plan: one server task per requested version, and
/// the deduplicated runtime majors to install.
pub struct BatchPlan {
    pub servers: Vec<ServerPlan>,
    pub runtimes: Vec<u8>,
}

/// Plans a batch install. Every requested version gets its server task;
/// a runtime-install task is queued exactly once per distinct runtime
/// major version the batch needs that the store does not already have —
/// the dedup happens here, in the single-threaded dispatch, before any
/// task runs.
pub fn plan_install_batch(meta: &AppMeta, pkgs: &Vec<GamePackage>) -> (plan: BatchPlan)
    ensures
        plan.servers@.len() == pkgs@.len(),
        forall|i: int|
            0 <= i < pkgs@.len() ==> server_plan_ok(meta, &pkgs@[i], #[trigger] plan.servers@[i]),
        no_dup(plan.runtimes@),
        forall|m: u8|
            plan.runtimes@.contains(m) == (spec_batch_needs(pkgs@, m)
                && !meta.spec_jre_installed(m)),
{
    let mut servers: Vec<ServerPlan> = Vec::new();
    let mut runtimes: Vec<u8> = Vec::new();
    let mut k: usize = 0;
    while k < pkgs.len()
        invariant
            k <= pkgs@.len(),
            servers@.len() == k,
            forall|i: int| 0 <= i < k ==> server_plan_ok(meta, &pkgs@[i], #[trigger] servers@[i]),
            no_dup(runtimes@),
            forall|m: u8| #[trigger]
                runtimes@.contains(m) ==> spec_prefix_needs(pkgs@, k as int, m)
                    && !meta.spec_jre_installed(m),
            forall|w: int|
                0 <= w < k ==> meta.spec_jre_installed(
                    (#[trigger] pkgs@[w]).java_version.major_version,
                ) || runtimes@.contains(pkgs@[w].java_version.major_version),
        decreases pkgs@.len() - k,
    {
        let pkg = &pkgs[k];
        let p = plan_server_install(meta, pkg);
        servers.push(p);
        let major = pkg.java_version.major_version;
        let mut queued = false;
        let mut j: usize = 0;
        while j < runtimes.len()
            invariant
                j <= runtimes@.len(),
                queued == exists|w: int| 0 <= w < j && runtimes@[w] == major,
            decreases runtimes@.len() - j,
        {
            if runtimes[j] == major {
                queued = true;
                proof {
                    assert(runtimes@[j as int] == major);
                }
            }
            j = j + 1;
        }
        let ghost r0 = runtimes@;
        proof {
            assert(queued == r0.contains(major));
        }
        let installed = meta.jre_installed(major);
        if !queued && !installed {
            runtimes.push(major);
            proof {
                assert(no_dup(runtimes@)) by {
                    assert forall|a: int, b: int|
                        0 <= a < b < runtimes@.len() implies runtimes@[a] != runtimes@[b] by {
                        if b == runtimes@.len() - 1 {
                            assert(r0.contains(runtimes@[a]) ==> runtimes@[a] != major) by {
                                if runtimes@[a] == major {
                                    assert(r0[a] == major);
                                }
                            }
                            assert(r0[a] == runtimes@[a]);
                            assert(r0.contains(runtimes@[a]));
                        }
                    }
                }
            }
        }
        proof {
            assert(spec_prefix_needs(pkgs@, k as int + 1, major)) by {
                assert(pkgs@[k as int].java_version.major_version == major);
            }
            assert forall|m: u8| #[trigger]
                runtimes@.contains(m) implies spec_prefix_needs(pkgs@, k as int + 1, m)
                    && !meta.spec_jre_installed(m) by {
                if runtimes@ == r0 {
                    assert(spec_prefix_needs(pkgs@, k as int, m) ==> spec_prefix_needs(
                        pkgs@,
                        k as int + 1,
                        m,
                    ));
                } else {
                    if m != major {
                        assert(r0.contains(m));
                        assert(spec_prefix_needs(pkgs@, k as int, m) ==> spec_prefix_needs(
                            pkgs@,
                            k as int + 1,
                            m,
                        ));
                    }
                }
            }
            assert forall|w: int|
                0 <= w < k + 1 implies meta.spec_jre_installed(
                (#[trigger] pkgs@[w]).java_version.major_version,
            ) || runtimes@.contains(pkgs@[w].java_version.major_version) by {
                if w < k {
                    if r0.contains(pkgs@[w].java_version.major_version) {
                        assert(runtimes@.contains(pkgs@[w].java_version.major_version));
                    }
                } else {
                    if queued {
                        assert(runtimes@.contains(major));
                    } else if !meta.spec_jre_installed(major) {
                        assert(runtimes@ == r0.push(major));
                        assert(runtimes@.contains(major));
                    }
                }
            }
        }
        k = k + 1;
    }
    proof {
        assert forall|m: u8|
            runtimes@.contains(m) == (spec_batch_needs(pkgs@, m) && !meta.spec_jre_installed(
                m,
            )) by {
            if spec_batch_needs(pkgs@, m) && !meta.spec_jre_installed(m) {
                let w = choose|i: int|
                    0 <= i < pkgs@.len() && (#[trigger] pkgs@[i]).java_version.major_version == m;
                assert(meta.spec_jre_installed(pkgs@[w].java_version.major_version)
                    || runtimes@.contains(pkgs@[w].java_version.major_version));
            }
        }
    }
    BatchPlan { servers, runtimes }
}

/// Runtime-dedup law: the queued runtime installs hold each major
/// version at most once, so two requested versions that share a runtime
/// cause exactly one runtime download.
pub proof fn lemma_runtime_dedup(runtimes: Seq<u8>, i: int, j: int)
    requires
        no_dup(runtimes),
        0 <= i < runtimes.len(),
        0 <= j < runtimes.len(),
        runtimes[i] == runtimes[j],
    ensures
        i == j,
{
}

/// What the runtime-install task for one major version will do. Each
/// task re-checks the durable store before downloading, so a runtime
/// installed by a prior run is a no-op success.
pub enum RuntimePlan {
    AlreadyInstalled,
    /// Download the platform archive from this URL and extract it.
    Download { url: String },
}

/// The runtime-binary distribution endpoint, parameterized by major
/// version, operating system and architecture.
pub open spec fn spec_jre_url(major: u8, os: Seq<char>, arch: Seq<char>) -> Seq<char> {
    "https://api.adoptium.net/v3/binary/latest/"@ + crate::version::dec_str(major as nat)
        + "/ga/"@ + os + "/"@ + arch + "/jre/hotspot/normal/eclipse"@
}

/// Builds the download URL of a runtime archive.
pub fn jre_download_url(major: u8, os: &str, arch: &str) -> (r: String)
    ensures
        r@ == spec_jre_url(major, os@, arch@),
{
    let mut out = "https://api.adoptium.net/v3/binary/latest/".to_owned();
    crate::version::push_dec_u8(&mut out, major);
    out.append("/ga/");
    out.append(os);
    out.append("/");
    out.append(arch);
    out.append("/jre/hotspot/normal/eclipse");
    proof {
        assert(out@ =~= spec_jre_url(major, os@, arch@));
    }
    out
}

/// Plans the runtime-install task for one major version.
pub fn plan_runtime_install(meta: &AppMeta, major: u8, os: &str, arch: &str) -> (p: RuntimePlan)
    ensures
        meta.spec_jre_installed(major) ==> p is AlreadyInstalled,
        !meta.spec_jre_installed(major) ==> (p matches RuntimePlan::Download { url } && url@
            == spec_jre_url(major, os@, arch@)),
{
    if meta.jre_installed(major) {
        RuntimePlan::AlreadyInstalled
    } else {
        RuntimePlan::Download { url: jre_download_url(major, os, arch) }
    }
}

/// How the runtime distribution endpoint answered.
#[derive(Clone, Copy, Debug, PartialEq, Eq, Structural)]
pub enum JreStatus {
    /// The archive follows (directly or through the redirect).
    Success,
    /// A parameter of the URL is bad.
    BadRequest,
    /// No binary exists for the given parameters.
    NotFound,
    /// Any other status.
    Unexpected,
}

/// Classifies the status code of a runtime download response: 200 and
/// the temporary redirect succeed, 400 and 404 carry their own
/// messages, anything else is unexpected.
pub fn classify_jre_status(code: u16) -> (r: JreStatus)
    ensures
        r == (if code == 200 || code == 307 {
            JreStatus::Success
        } else if code == 400 {
            JreStatus::BadRequest
        } else if code == 404 {
            JreStatus::NotFound
        } else {
            JreStatus::Unexpected
        }),
{
    if code == 200 || code == 307 {
        JreStatus::Success
    } else if code == 400 {
        JreStatus::BadRequest
    } else if code == 404 {
        JreStatus::NotFound
    } else {
        JreStatus::Unexpected
    }
}

/// Instance directory for a version, relative to the data directory.
pub fn instance_rel_dir(id: &VersionId) -> (r: String)
    ensures
        r@ == "instance/"@ + id@,
{
    let mut out = "instance/".to_owned();
    out.append(id.as_str());
    out
}

/// Settings document of an instance, relative to the config directory.
pub fn settings_rel_path(id: &VersionId) -> (r: String)
    ensures
        r@ == "instance/"@ + id@ + ".toml"@,
{
    let mut out = "instance/".to_owned();
    out.append(id.as_str());
    out.append(".toml");
    out
}

/// Runtime directory for a major version, relative to the data
/// directory.
pub fn jre_rel_dir(major: u8) -> (r: String)
    ensures
        r@ == "jre/"@ + crate::version::dec_str(major as nat),
{
    let mut out = "jre/".to_owned();
    crate::version::push_dec_u8(&mut out, major);
    out
}

/// The java executable of an installed runtime, relative to the data
/// directory; the platform's executable suffix is appended.
pub fn java_rel_path(major: u8, exe_suffix: &str) -> (r: String)
    ensures
        r@ == "jre/"@ + crate::version::dec_str(major as nat) + "/bin/java"@ + exe_suffix@,
{
    let mut out = "jre/".to_owned();
    crate::version::push_dec_u8(&mut out, major);
    out.append("/bin/java");
    out.append(exe_suffix);
    proof {
        assert(out@ =~= "jre/"@ + crate::version::dec_str(major as nat) + "/bin/java"@
            + exe_suffix@);
    }
    out
}

/// Drops the first path component of an archive entry: runtime archives
/// are rooted in a version-qualified directory that is not preserved.
/// A path without a separator strips to the empty path.
pub fn strip_first_component(path: &str) -> (r: String)
    ensures
        match crate::version::find_char(path@, '/') {
            Some(i) => r@ == path@.skip(i + 1),
            None => r@.len() == 0,
        },
{
    let n: usize = path.unicode_len();
    let mut i: usize = 0;
    while i < n
        invariant
            i <= n,
            n == path@.len(),
            forall|j: int| 0 <= j < i ==> path@[j] != '/',
        decreases n - i,
    {
        if path.get_char(i) == '/' {
            proof {
                crate::version::lemma_find_at(path@, '/', i as int);
                assert(path@.subrange(i as int + 1, n as int) =~= path@.skip(i as int + 1));
            }
            return path.substring_char(i + 1, n).to_owned();
        }
        i = i + 1;
    }
    proof {
        crate::version::lemma_find_none(path@, '/');
    }
    String::new()
}

/// The agreement file every instance directory gets.
pub fn eula_contents() -> (r: String)
    ensures
        r@ == "eula=true"@,
{
    "eula=true".to_owned()
}

/// Per-instance settings: the runtime it needs and the launch
/// arguments, written beside every installed instance.
#[derive(Clone, Debug)]
pub struct InstanceSettings {
    pub java_version: u8,
    pub java_args: Vec<String>,
    pub server_jar: String,
    pub server_args: Vec<String>,
}

impl InstanceSettings {
    /// Fresh settings for an instance that needs this runtime: default
    /// jar name, no extra arguments.
    pub fn new(java_version: u8) -> (r: InstanceSettings)
        ensures
            r.java_version == java_version,
            r.java_args@.len() == 0,
            r.server_jar@ == "server.jar"@,
            r.server_args@.len() == 0,
    {
        InstanceSettings {
            java_version,
            java_args: Vec::new(),
            server_jar: "server.jar".to_owned(),
            server_args: Vec::new(),
        }
    }
}

/// The locations the tool can report.
#[derive(Clone, Copy, Debug, PartialEq, Eq, Structural)]
pub enum LocateTarget {
    /// The runtime base directory.
    Java,
    /// The instance base directory.
    Instance,
    /// The instance settings base directory.
    Config,
}

/// Reads a location name; anything but the three known names is
/// rejected.
pub fn parse_locate_target(s: &str) -> (r: Option<LocateTarget>)
    ensures
        r == (if s@ == "java"@ {
            Some(LocateTarget::Java)
        } else if s@ == "instance"@ {
            Some(LocateTarget::Instance)
        } else if s@ == "config"@ {
            Some(LocateTarget::Config)
        } else {
            None::<LocateTarget>
        }),
{
    let v = s.to_owned();
    if v == "java".to_owned() {
        Some(LocateTarget::Java)
    } else if v == "instance".to_owned() {
        Some(LocateTarget::Instance)
    } else if v == "config".to_owned() {
        Some(LocateTarget::Config)
    } else {
        None
    }
}

} // verus!
