//! The self-upgrade core: platform target, release assessment, asset choice,
//! archive extraction and the rename sequence that installs a new executable.
use vstd::prelude::*;
use crate::text::str_eq;
use crate::version::{Version, semver_parsed};
use crate::install::{InstallOp, InstallState};

verus! {

/// Errors surfaced by the upgrade operations.
#[derive(Debug, Clone)]
pub enum UpgradeError {
    /// The release service could not be reached or answered with a failure.
    Http(String),
    /// Reading or unpacking data failed.
    Io(String),
    /// The release description was not of the expected shape.
    Json(String),
    /// A version text (running or published) is not a semantic version.
    InvalidVersion(String),
    /// No release is published.
    NoRelease,
    /// No asset of the release fits this platform; holds the target tag.
    NoBinary(String),
    /// The downloaded archive holds no executable of the expected name.
    NoBinaryInArchive,
    /// The location of the running executable is unknown.
    NoExecutablePath,
    /// A file-system step of the installation failed.
    Install(InstallOp),
}

/// One downloadable file of a release.
#[derive(Debug, Clone)]
pub struct AssetDescriptor {
    pub name: String,
    pub browser_download_url: String,
}

/// The description of a published release.
#[derive(Debug, Clone)]
pub struct ReleaseMetadata {
    pub tag_name: String,
    pub assets: Vec<AssetDescriptor>,
}

/// Versions compared by a check, and whether the published one is newer
/// (or, after an upgrade, whether it was installed).
pub struct UpgradeInfo {
    pub current: Version,
    pub latest: Version,
    pub has_update: bool,
}

/// Architecture part of a target tag, from the compiler's name of the CPU family.
pub open spec fn arch_tag(arch: Seq<char>) -> Seq<char> {
    if arch == "x86_64"@ {
        "x86_64"@
    } else if arch == "aarch64"@ {
        "aarch64"@
    } else {
        "unknown"@
    }
}

/// Operating-system part of a target tag, from the compiler's name of the OS.
pub open spec fn os_tag(os: Seq<char>) -> Seq<char> {
    if os == "macos"@ {
        "apple-darwin"@
    } else if os == "linux"@ {
        "unknown-linux-gnu"@
    } else {
        "unknown"@
    }
}

pub open spec fn target_spec(arch: Seq<char>, os: Seq<char>) -> Seq<char> {
    arch_tag(arch) + "-"@ + os_tag(os)
}

pub open spec fn asset_name_spec(tag_name: Seq<char>, target: Seq<char>) -> Seq<char> {
    "cue-"@ + tag_name + "-"@ + target + ".tar.gz"@
}

/// The target tag `<arch>-<os>` for a CPU family and an operating system as the
/// compiler names them (`x86_64`, `aarch64`; `macos`, `linux`).
pub fn get_target(arch: &str, os: &str) -> (r: String)
    ensures
        r@ == target_spec(arch@, os@),
{
    let a = if str_eq(arch, "x86_64") {
        "x86_64"
    } else if str_eq(arch, "aarch64") {
        "aarch64"
    } else {
        "unknown"
    };
    let o = if str_eq(os, "macos") {
        "apple-darwin"
    } else if str_eq(os, "linux") {
        "unknown-linux-gnu"
    } else {
        "unknown"
    };
    let mut r = String::from_str(a);
    r.append("-");
    r.append(o);
    r
}

/// The file name of the release asset for a tag and a target tag:
/// `cue-<tag>-<target>.tar.gz`.
pub fn expected_asset_name(tag_name: &str, target: &str) -> (r: String)
    ensures
        r@ == asset_name_spec(tag_name@, target@),
{
    let mut r = String::from_str("cue-");
    r.append(tag_name);
    r.append("-");
    r.append(target);
    r.append(".tar.gz");
    r
}

/// A tag with its leading `v` characters removed (`v1.2.0` gives `1.2.0`).
pub open spec fn trim_leading_v(s: Seq<char>) -> Seq<char>
    decreases s.len(),
{
    if s.len() > 0 && s[0] == 'v' {
        trim_leading_v(s.drop_first())
    } else {
        s
    }
}

/// Remove the leading `v` characters of a release tag.
pub fn strip_tag_prefix(tag: &str) -> (r: &str)
    ensures
        r@ == trim_leading_v(tag@),
{
    let n = tag.unicode_len();
    let mut i: usize = 0;
    assert(tag@.subrange(0, n as int) =~= tag@);
    while i < n && tag.get_char(i) == 'v'
        invariant
            0 <= i <= n,
            n == tag@.len(),
            trim_leading_v(tag@.subrange(i as int, n as int)) == trim_leading_v(tag@),
        decreases n - i,
    {
        assert(tag@.subrange(i as int, n as int).drop_first() =~= tag@.subrange(i + 1, n as int));
        i = i + 1;
    }
    tag.substring_char(i, n)
}

/// What a check of a release against the running version yields: the error,
/// or the versions and whether the release is newer.
pub open spec fn assess_ok(current: Seq<char>, tag: Seq<char>, info: UpgradeInfo) -> bool {
    &&& semver_parsed(current) == Some(info.current.parts())
    &&& semver_parsed(trim_leading_v(tag)) == Some(info.latest.parts())
    &&& info.has_update == (info.latest.order(info.current) > 0)
}

/// The error of a check: the first version text that does not parse.
pub open spec fn assess_err(current: Seq<char>, tag: Seq<char>, e: UpgradeError) -> bool {
    match e {
        UpgradeError::InvalidVersion(t) => if semver_parsed(current) is None {
            t@ == current
        } else {
            semver_parsed(trim_leading_v(tag)) is None && t@ == trim_leading_v(tag)
        },
        _ => false,
    }
}

pub open spec fn versions_parse(current: Seq<char>, tag: Seq<char>) -> bool {
    semver_parsed(current) is Some && semver_parsed(trim_leading_v(tag)) is Some
}

/// Compare a published release with the running version `current`: both are
/// parsed (the tag without its leading `v`), and `has_update` tells whether the
/// release is strictly newer.
pub fn assess_release(current: &str, release: &ReleaseMetadata) -> (r: Result<UpgradeInfo, UpgradeError>)
    ensures
        r is Ok <==> versions_parse(current@, release.tag_name@),
        match r {
            Ok(info) => assess_ok(current@, release.tag_name@, info),
            Err(e) => assess_err(current@, release.tag_name@, e),
        },
{
    let cur = match Version::parse(current) {
        Ok(v) => v,
        Err(e) => {
            return Err(UpgradeError::InvalidVersion(e.text));
        },
    };
    let latest_text = strip_tag_prefix(release.tag_name.as_str());
    let latest = match Version::parse(latest_text) {
        Ok(v) => v,
        Err(e) => {
            return Err(UpgradeError::InvalidVersion(e.text));
        },
    };
    let has_update = latest.is_newer_than(&cur);
    Ok(UpgradeInfo { current: cur, latest, has_update })
}

/// When the published tag names the running version, a check reports no update;
/// so an upgrade plans no download and touches no file, however often it runs.
pub proof fn lemma_same_version_no_update(current: Seq<char>, tag: Seq<char>, info: UpgradeInfo)
    requires
        assess_ok(current, tag, info),
        semver_parsed(current) == semver_parsed(trim_leading_v(tag)),
    ensures
        !info.has_update,
{
    crate::version::lemma_order_same_parts(info.latest, info.current);
}

/// The index of the first asset whose name is `name`, if any.
pub open spec fn first_named(assets: Seq<AssetDescriptor>, name: Seq<char>, i: int) -> bool {
    &&& 0 <= i < assets.len()
    &&& assets[i].name@ == name
    &&& forall|j: int| 0 <= j < i ==> assets[j].name@ != name
}

pub open spec fn unsupported_target(target: Seq<char>) -> bool {
    target == "unknown-unknown"@
}

/// Find the asset of a release that fits a target tag: the first whose name is
/// exactly `cue-<tag>-<target>.tar.gz`. Fails with `NoBinary(target)` when the
/// target is `unknown-unknown` or no asset has that name.
pub fn resolve_asset(release: &ReleaseMetadata, target: &str) -> (r: Result<usize, UpgradeError>)
    ensures
        match r {
            Ok(i) => !unsupported_target(target@) && first_named(
                release.assets@,
                asset_name_spec(release.tag_name@, target@),
                i as int,
            ),
            Err(UpgradeError::NoBinary(t)) => t@ == target@ && (unsupported_target(target@)
                || forall|j: int|
                0 <= j < release.assets@.len() ==> release.assets@[j].name@ != asset_name_spec(
                    release.tag_name@,
                    target@,
                )),
            Err(_) => false,
        },
{
    if str_eq(target, "unknown-unknown") {
        return Err(UpgradeError::NoBinary(String::from_str(target)));
    }
    let name = expected_asset_name(release.tag_name.as_str(), target);
    let n = release.assets.len();
    let mut i: usize = 0;
    while i < n
        invariant
            0 <= i <= n,
            n == release.assets@.len(),
            name@ == asset_name_spec(release.tag_name@, target@),
            !unsupported_target(target@),
            forall|j: int| 0 <= j < i ==> release.assets@[j].name@ != name@,
        decreases n - i,
    {
        if release.assets[i].name == name {
            return Ok(i);
        }
        i = i + 1;
    }
    Err(UpgradeError::NoBinary(String::from_str(target)))
}

/// The decision of an upgrade before anything is downloaded: the versions, and
/// the URL of the asset to fetch, or `None` when the release is not newer.
pub struct UpgradePlan {
    pub info: UpgradeInfo,
    pub download_url: Option<String>,
}

/// Plan an upgrade to a published release. When the release is not newer than
/// the running version the plan is to do nothing (`has_update` false, no URL);
/// otherwise it names the URL of the asset that fits `target`, or fails with
/// `NoBinary` when none does.
pub fn plan_upgrade(current: &str, release: &ReleaseMetadata, target: &str) -> (r: Result<
    UpgradePlan,
    UpgradeError,
>)
    ensures
        !versions_parse(current@, release.tag_name@) ==> (r is Err && assess_err(
            current@,
            release.tag_name@,
            r->Err_0,
        )),
        r is Ok ==> versions_parse(current@, release.tag_name@),
        match r {
            Ok(plan) => {
                let info = plan.info;
                &&& semver_parsed(current@) == Some(info.current.parts())
                &&& semver_parsed(trim_leading_v(release.tag_name@)) == Some(info.latest.parts())
                &&& info.has_update == (info.latest.order(info.current) > 0)
                &&& match plan.download_url {
                    None => !info.has_update,
                    Some(url) => info.has_update && !unsupported_target(target@) && exists|i: int|
                        first_named(
                            release.assets@,
                            asset_name_spec(release.tag_name@, target@),
                            i,
                        ) && url@ == release.assets@[i].browser_download_url@,
                }
            },
            Err(UpgradeError::InvalidVersion(_)) => assess_err(current@, release.tag_name@, r->Err_0),
            Err(UpgradeError::NoBinary(t)) => {
                &&& versions_parse(current@, release.tag_name@)
                &&& t@ == target@
                &&& (unsupported_target(target@) || forall|j: int|
                    0 <= j < release.assets@.len() ==> release.assets@[j].name@ != asset_name_spec(
                        release.tag_name@,
                        target@,
                    ))
            },
            Err(_) => false,
        },
        versions_parse(current@, release.tag_name@) && !unsupported_target(target@) && (exists|
            i: int,
        |
            0 <= i < release.assets@.len() && release.assets@[i].name@ == asset_name_spec(
                release.tag_name@,
                target@,
            )) ==> r is Ok,
{
    let info = match assess_release(current, release) {
        Ok(info) => info,
        Err(e) => {
            return Err(e);
        },
    };
    if !info.has_update {
        return Ok(UpgradePlan { info, download_url: None });
    }
    match resolve_asset(release, target) {
        Ok(i) => {
            let url = release.assets[i].browser_download_url.clone();
            Ok(UpgradePlan { info, download_url: Some(url) })
        },
        Err(e) => Err(e),
    }
}

/// The result of an upgrade once its installation has finished: the planned
/// versions when the new executable is in place, or `Install` with the operation
/// that failed.
pub fn install_outcome(state: InstallState, info: UpgradeInfo) -> (r: Result<UpgradeInfo, UpgradeError>)
    requires
        state is Installed || state is Failed,
    ensures
        match state {
            InstallState::Failed(op) => r is Err && r->Err_0 == UpgradeError::Install(op),
            _ => r == Ok::<UpgradeInfo, UpgradeError>(info),
        },
{
    match state {
        InstallState::Failed(op) => Err(UpgradeError::Install(op)),
        _ => Ok(info),
    }
}

} // verus!
