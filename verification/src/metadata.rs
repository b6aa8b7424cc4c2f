//! Server specifications: which version to install, under what name,
//! and which server flavour, read from the `[version][:[name][:[kind]]]`
//! form the install command takes.

use vstd::prelude::*;

verus! {

use vstd::string::*;
use crate::identifiers::NamedId;
use crate::minecraft::{VersionId, VersionManifest};

/// The string names none of the known server kinds.
#[derive(Clone, Debug)]
pub struct ServerKindParseError {
    pub value: String,
}

/// The server flavours an instance can run.
#[derive(Clone, Copy, Debug, PartialEq, Eq, Structural, Hash, Default)]
pub enum ServerKind {
    #[default]
    Vanilla,
    Fabric,
    Forge,
    Neoforge,
    Paper,
}

/// Whether `s` spells `word` up to ASCII case: `upper` is the uppercase
/// spelling of the same word.
pub open spec fn matches_ci(s: Seq<char>, word: Seq<char>, upper: Seq<char>) -> bool {
    s.len() == word.len() && forall|i: int|
        0 <= i < s.len() ==> ((#[trigger] s[i]) == word[i] || s[i] == upper[i])
}

/// Which server kind a string names, compared without regard to ASCII
/// case; `None` for anything else.
pub open spec fn spec_server_kind(s: Seq<char>) -> Option<ServerKind> {
    if matches_ci(s, "vanilla"@, "VANILLA"@) {
        Some(ServerKind::Vanilla)
    } else if matches_ci(s, "fabric"@, "FABRIC"@) {
        Some(ServerKind::Fabric)
    } else if matches_ci(s, "forge"@, "FORGE"@) {
        Some(ServerKind::Forge)
    } else if matches_ci(s, "neoforge"@, "NEOFORGE"@) {
        Some(ServerKind::Neoforge)
    } else if matches_ci(s, "paper"@, "PAPER"@) {
        Some(ServerKind::Paper)
    } else {
        None
    }
}

/// Compares the characters of `cs[from..to]` with a word given in both
/// its lowercase and uppercase spellings.
fn range_matches_ci(cs: &Vec<char>, from: usize, to: usize, word: &str, upper: &str) -> (r: bool)
    requires
        from <= to <= cs@.len(),
        word@.len() == upper@.len(),
    ensures
        r == matches_ci(cs@.subrange(from as int, to as int), word@, upper@),
{
    let ghost sub = cs@.subrange(from as int, to as int);
    let n: usize = word.unicode_len();
    if to - from != n {
        return false;
    }
    let mut i: usize = 0;
    while i < n
        invariant
            i <= n,
            n == word@.len(),
            n == upper@.len(),
            from + n <= cs@.len(),
            to == from + n,
            sub == cs@.subrange(from as int, to as int),
            forall|j: int| 0 <= j < i ==> ((#[trigger] sub[j]) == word@[j] || sub[j] == upper@[j]),
        decreases n - i,
    {
        let c = cs[from + i];
        proof {
            assert(sub[i as int] == c);
        }
        if !(c == word.get_char(i) || c == upper.get_char(i)) {
            return false;
        }
        i = i + 1;
    }
    true
}

impl ServerKind {
    /// Reads a server kind name, without regard to ASCII case.
    pub fn parse(s: &str) -> (r: Result<ServerKind, ServerKindParseError>)
        ensures
            match r {
                Ok(k) => spec_server_kind(s@) == Some(k),
                Err(e) => spec_server_kind(s@) is None && e.value@ == s@,
            },
    {
        let cs = crate::version::chars_of(s);
        let n: usize = cs.len();
        proof {
            assert(cs@.subrange(0, n as int) =~= s@);
            reveal_strlit("vanilla");
            reveal_strlit("VANILLA");
            reveal_strlit("fabric");
            reveal_strlit("FABRIC");
            reveal_strlit("forge");
            reveal_strlit("FORGE");
            reveal_strlit("neoforge");
            reveal_strlit("NEOFORGE");
            reveal_strlit("paper");
            reveal_strlit("PAPER");
        }
        if range_matches_ci(&cs, 0, n, "vanilla", "VANILLA") {
            Ok(ServerKind::Vanilla)
        } else if range_matches_ci(&cs, 0, n, "fabric", "FABRIC") {
            Ok(ServerKind::Fabric)
        } else if range_matches_ci(&cs, 0, n, "forge", "FORGE") {
            Ok(ServerKind::Forge)
        } else if range_matches_ci(&cs, 0, n, "neoforge", "NEOFORGE") {
            Ok(ServerKind::Neoforge)
        } else if range_matches_ci(&cs, 0, n, "paper", "PAPER") {
            Ok(ServerKind::Paper)
        } else {
            Err(ServerKindParseError { value: s.to_owned() })
        }
    }
}

impl std::str::FromStr for ServerKind {
    type Err = ServerKindParseError;

    fn from_str(s: &str) -> Result<ServerKind, ServerKindParseError> {
        ServerKind::parse(s)
    }
}

/// A parsed server specification: version, instance name, flavour.
#[derive(Clone, Debug)]
pub struct ServerSpec {
    pub version: VersionId,
    pub id: NamedId,
    pub server_type: ServerKind,
}

/// Why a server specification was rejected.
#[derive(Clone, Debug)]
pub enum ServerSpecError {
    /// The version field names no version the manifest knows.
    UnknownVersion { fragment: String },
    /// The name field holds a character outside alphanumerics, `-`, `_`.
    BadName { fragment: String },
    /// The kind field names no known server kind.
    UnknownKind { fragment: String },
}

/// A character permitted in an instance name.
pub open spec fn is_name_char(c: char) -> bool {
    ('a' <= c && c <= 'z') || ('A' <= c && c <= 'Z') || ('0' <= c && c <= '9') || c == '-' || c
        == '_'
}

/// The three colon-separated fields of a specification string: the
/// version, the name, and the kind (which absorbs the rest).
pub open spec fn spec_fields(s: Seq<char>) -> (Seq<char>, Seq<char>, Seq<char>) {
    match crate::version::find_char(s, ':') {
        None => (s, Seq::<char>::empty(), Seq::<char>::empty()),
        Some(i) => {
            let rest = s.skip(i + 1);
            match crate::version::find_char(rest, ':') {
                None => (s.take(i), rest, Seq::<char>::empty()),
                Some(j) => (s.take(i), rest.take(j), rest.skip(j + 1)),
            }
        },
    }
}

/// Whether the version field is acceptable: empty (the latest release
/// stands in) or a version the manifest lists.
pub open spec fn version_field_ok(f: Seq<char>, manifest: &VersionManifest) -> bool {
    f.len() == 0 || manifest.spec_contains_id(f)
}

/// Whether the name field is acceptable: empty (`unnamed` stands in) or
/// made of name characters only.
pub open spec fn name_field_ok(f: Seq<char>) -> bool {
    f.len() == 0 || forall|i: int| 0 <= i < f.len() ==> is_name_char(#[trigger] f[i])
}

/// Which server kind the kind field denotes: the default when empty.
pub open spec fn kind_field(f: Seq<char>) -> Option<ServerKind> {
    if f.len() == 0 {
        Some(ServerKind::Vanilla)
    } else {
        spec_server_kind(f)
    }
}

/// Checks the name field characters of `cs[from..to]`.
fn check_name_range(cs: &Vec<char>, from: usize, to: usize) -> (r: bool)
    requires
        from <= to <= cs@.len(),
    ensures
        r == (forall|i: int|
            0 <= i < to - from ==> is_name_char(#[trigger] cs@.subrange(from as int, to as int)[i])),
{
    let ghost sub = cs@.subrange(from as int, to as int);
    let mut i: usize = from;
    while i < to
        invariant
            from <= i <= to <= cs@.len(),
            sub == cs@.subrange(from as int, to as int),
            forall|j: int| 0 <= j < i - from ==> is_name_char(#[trigger] sub[j]),
        decreases to - i,
    {
        let c = cs[i];
        let ok = ('a' <= c && c <= 'z') || ('A' <= c && c <= 'Z') || ('0' <= c && c <= '9') || c
            == '-' || c == '_';
        proof {
            assert(sub[i - from] == c);
        }
        if !ok {
            return false;
        }
        i = i + 1;
    }
    true
}

impl ServerSpec {
    /// Parses a `[version][:[name][:[kind]]]` specification. An empty or
    /// missing field takes its default: the manifest's latest release,
    /// the name `unnamed` (with a fresh random identifier), the vanilla
    /// kind. The version must be one the manifest lists, the name must
    /// use name characters only, and the kind must be a known flavour;
    /// the first field that fails is reported with its text.
    pub fn parse(s: &str, manifest: &VersionManifest) -> (r: Result<ServerSpec, ServerSpecError>)
        ensures
            ({
                let (f1, f2, f3) = spec_fields(s@);
                match r {
                    Ok(sp) => version_field_ok(f1, manifest) && name_field_ok(f2) && kind_field(
                        f3,
                    ) is Some && sp.version@ == (if f1.len() == 0 {
                        manifest.latest.release@
                    } else {
                        f1
                    }) && sp.id.name@ == (if f2.len() == 0 {
                        "unnamed"@
                    } else {
                        f2
                    }) && Some(sp.server_type) == kind_field(f3),
                    Err(ServerSpecError::UnknownVersion { fragment }) => !version_field_ok(
                        f1,
                        manifest,
                    ) && fragment@ == f1,
                    Err(ServerSpecError::BadName { fragment }) => version_field_ok(f1, manifest)
                        && !name_field_ok(f2) && fragment@ == f2,
                    Err(ServerSpecError::UnknownKind { fragment }) => version_field_ok(f1, manifest)
                        && name_field_ok(f2) && kind_field(f3) is None && fragment@ == f3,
                }
            }),
    {
        let cs = crate::version::chars_of(s);
        let n: usize = cs.len();
        let ghost f1: Seq<char> = spec_fields(s@).0;
        let ghost f2: Seq<char> = spec_fields(s@).1;
        let ghost f3: Seq<char> = spec_fields(s@).2;
        let (v_to, name_from, name_to, kind_from, kind_to): (usize, usize, usize, usize, usize) =
            match crate::version::find_range(&cs, 0, n, ':') {
            None => {
                proof {
                    crate::version::lemma_find_none(s@, ':');
                }
                (n, n, n, n, n)
            },
            Some(i) => {
                proof {
                    crate::version::lemma_find_at(s@, ':', i as int);
                }
                let ghost rest = s@.skip(i as int + 1);
                match crate::version::find_range(&cs, i + 1, n, ':') {
                    None => {
                        proof {
                            assert forall|j: int| 0 <= j < rest.len() implies rest[j] != ':' by {
                                assert(rest[j] == s@[j + i + 1]);
                            }
                            crate::version::lemma_find_none(rest, ':');
                        }
                        (i, i + 1, n, n, n)
                    },
                    Some(j) => {
                        proof {
                            assert(rest[j - i - 1] == s@[j as int]);
                            assert forall|w: int| 0 <= w < j - i - 1 implies rest[w] != ':' by {
                                assert(rest[w] == s@[w + i + 1]);
                            }
                            crate::version::lemma_find_at(rest, ':', j - i - 1);
                        }
                        (i, i + 1, j, j + 1, n)
                    },
                }
            },
        };
        proof {
            assert(f1 =~= cs@.subrange(0, v_to as int));
            assert(f2 =~= cs@.subrange(name_from as int, name_to as int));
            assert(f3 =~= cs@.subrange(kind_from as int, kind_to as int));
        }
        let version: VersionId = if v_to == 0 {
            VersionId::new(manifest.latest_release_id().as_str().to_owned())
        } else {
            let fragment = s.substring_char(0, v_to).to_owned();
            let id = VersionId::new(fragment);
            if !manifest.contains(&id) {
                return Err(ServerSpecError::UnknownVersion { fragment: id.0 });
            }
            id
        };
        let id: NamedId = if name_from == name_to {
            NamedId::new("unnamed".to_owned())
        } else {
            if !check_name_range(&cs, name_from, name_to) {
                return Err(
                    ServerSpecError::BadName {
                        fragment: s.substring_char(name_from, name_to).to_owned(),
                    },
                );
            }
            NamedId::new(s.substring_char(name_from, name_to).to_owned())
        };
        let server_type: ServerKind = if kind_from == kind_to {
            ServerKind::Vanilla
        } else {
            match ServerKind::parse(s.substring_char(kind_from, kind_to)) {
                Ok(k) => k,
                Err(e) => {
                    return Err(ServerSpecError::UnknownKind { fragment: e.value });
                },
            }
        };
        Ok(ServerSpec { version, id, server_type })
    }
}

} // verus!
