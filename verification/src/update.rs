//! The versioned component updater's decisions: when a component needs an
//! install, which release asset serves it, and what the on-disk version
//! marker becomes afterwards. The updater's outside work — the release
//! feed query, downloads, archive extraction — is driven by the caller,
//! which feeds the plain values gathered there into these functions and
//! performs the actions they decide.
use vstd::prelude::*;
use vstd::string::StringExecFns;

use crate::strutil::seq_contains_sub;
use crate::strutil::str_contains;
use crate::strutil::str_ends_with;
use crate::strutil::str_eq;
use crate::strutil::str_starts_with;

verus! {

/// One release asset: its file name and its download location.
#[derive(Debug, Clone)]
pub struct Asset {
    pub name: String,
    pub url: String,
}

/// The content of an asset.
pub struct AssetModel {
    pub name: Seq<char>,
    pub url: Seq<char>,
}

impl View for Asset {
    type V = AssetModel;

    open spec fn view(&self) -> AssetModel {
        AssetModel { name: self.name@, url: self.url@ }
    }
}

/// Release metadata from the remote feed: the tag and its assets, in feed
/// order. Fetched per update check, never persisted.
#[derive(Debug, Clone)]
pub struct Release {
    pub tag_name: String,
    pub assets: Vec<Asset>,
}

/// A component's local state: the tag the marker file records (`None`
/// when the marker is absent) and whether the canonical install path
/// exists.
#[derive(Debug, Clone)]
pub struct ComponentState {
    pub marker: Option<String>,
    pub target_present: bool,
}

/// The content of a component state.
pub struct ComponentStateModel {
    pub marker: Option<Seq<char>>,
    pub target_present: bool,
}

impl View for ComponentState {
    type V = ComponentStateModel;

    open spec fn view(&self) -> ComponentStateModel {
        ComponentStateModel {
            marker: match self.marker {
                Some(ref s) => Some(s@),
                None => None,
            },
            target_present: self.target_present,
        }
    }
}

/// What a version check decides.
#[derive(Debug, Clone, Copy, PartialEq, Eq, Structural)]
pub enum UpdateDecision {
    /// The marker matches the latest tag and the install path exists:
    /// nothing on disk is touched.
    AlreadyCurrent,
    /// The marker differs from the latest tag (or is absent), or the
    /// install path is missing: an install is performed.
    Install,
}

/// An install is due exactly when the install path is missing or the
/// recorded tag is not the latest one (an absent marker never matches).
pub open spec fn spec_needs_install(st: ComponentStateModel, latest: Seq<char>) -> bool {
    !st.target_present || st.marker != Some(latest)
}

/// The check half of the updater's check-and-update operation: compares
/// the local state against the latest remote tag. The caller performs the
/// install steps only on `Install`, and records the marker only after the
/// install succeeded.
pub fn check_component(state: &ComponentState, latest: &str) -> (r: UpdateDecision)
    ensures
        r == UpdateDecision::Install <==> spec_needs_install(state@, latest@),
{
    if !state.target_present {
        return UpdateDecision::Install;
    }
    match state.marker {
        None => UpdateDecision::Install,
        Some(ref tag) => {
            if str_eq(tag.as_str(), latest) {
                UpdateDecision::AlreadyCurrent
            } else {
                UpdateDecision::Install
            }
        },
    }
}

/// The local state a successful install of `latest` leaves behind: the
/// canonical path exists and the marker records the installed tag.
pub fn state_after_install(latest: &str) -> (r: ComponentState)
    ensures
        r@.marker == Some(latest@),
        r@.target_present,
{
    ComponentState { marker: Some(latest.to_owned()), target_present: true }
}

/// The local state one check-and-update leaves behind: unchanged when the
/// component was already current, else the state of a successful install.
pub open spec fn spec_state_after_check(
    st: ComponentStateModel,
    latest: Seq<char>,
) -> ComponentStateModel {
    if spec_needs_install(st, latest) {
        ComponentStateModel { marker: Some(latest), target_present: true }
    } else {
        st
    }
}

/// Idempotence of check-and-update: whatever the local state was, after
/// one check (and its install, where one was due) a second check against
/// an unchanged remote decides `AlreadyCurrent`, so the second call
/// mutates nothing on disk. A state whose marker is absent always decides
/// `Install`.
pub proof fn lemma_check_idempotent(st: ComponentStateModel, latest: Seq<char>)
    ensures
        !spec_needs_install(spec_state_after_check(st, latest), latest),
        st.marker is None ==> spec_needs_install(st, latest),
{
}

/// Why an install step failed; each carries the step for diagnosis.
#[derive(Debug, Clone, Copy, PartialEq, Eq, Structural)]
pub enum UpdateError {
    /// No release asset matched the selection criteria.
    NoMatchingAsset,
    /// The downloaded archive could not be unpacked.
    ExtractionFailed,
    /// The freshly extracted runtime directory was not found.
    ExtractedDirMissing,
}

impl UpdateError {
    /// A diagnostic naming the step that failed.
    pub fn describe(&self) -> (r: String)
        ensures
            *self == UpdateError::NoMatchingAsset ==> r@ == "no matching release asset"@,
            *self == UpdateError::ExtractionFailed ==> r@ == "archive extraction failed"@,
            *self == UpdateError::ExtractedDirMissing ==> r@
                == "extracted runtime directory not found"@,
    {
        match self {
            UpdateError::NoMatchingAsset => "no matching release asset".to_owned(),
            UpdateError::ExtractionFailed => "archive extraction failed".to_owned(),
            UpdateError::ExtractedDirMissing => (
            "extracted runtime directory not found").to_owned(),
        }
    }
}

/// A name selects the runtime archive when it ends in the archive suffix
/// and does not name a checksum file.
pub open spec fn spec_is_archive_asset(name: Seq<char>) -> bool {
    ".tar.gz"@.is_suffix_of(name) && !seq_contains_sub(name, "sha512"@)
}

/// Selects the first release asset that carries the runtime archive.
pub fn select_archive_asset(assets: &Vec<Asset>) -> (r: Option<usize>)
    ensures
        match r {
            Some(i) => i < assets@.len() && spec_is_archive_asset(assets@[i as int].name@)
                && forall|j: int| 0 <= j < i ==> !spec_is_archive_asset(assets@[j].name@),
            None => forall|j: int|
                0 <= j < assets@.len() ==> !spec_is_archive_asset(assets@[j].name@),
        },
{
    let mut i: usize = 0;
    while i < assets.len()
        invariant
            i <= assets@.len(),
            forall|j: int| 0 <= j < i ==> !spec_is_archive_asset(assets@[j].name@),
        decreases assets@.len() - i,
    {
        let name = &assets[i].name;
        if str_ends_with(name.as_str(), ".tar.gz") && !str_contains(name.as_str(), "sha512") {
            return Some(i);
        }
        i = i + 1;
    }
    None
}

/// The asset a directory-archive install downloads: the first archive
/// asset of the release, or the explicit no-matching-asset condition when
/// the release offers none.
pub fn plan_archive_install(assets: &Vec<Asset>) -> (r: Result<usize, UpdateError>)
    ensures
        match r {
            Ok(i) => i < assets@.len() && spec_is_archive_asset(assets@[i as int].name@)
                && forall|j: int| 0 <= j < i ==> !spec_is_archive_asset(assets@[j].name@),
            Err(e) => e == UpdateError::NoMatchingAsset && forall|j: int|
                0 <= j < assets@.len() ==> !spec_is_archive_asset(assets@[j].name@),
        },
{
    match select_archive_asset(assets) {
        Some(i) => Ok(i),
        None => Err(UpdateError::NoMatchingAsset),
    }
}

/// A directory name is the freshly extracted runtime when it carries the
/// runtime's name prefix and is not the canonical directory itself.
pub open spec fn spec_is_extracted_runtime(name: Seq<char>) -> bool {
    "GE-Proton"@.is_prefix_of(name) && name != "Proton-GE Latest"@
}

/// Locates the freshly extracted runtime directory among the entries of
/// the install root, to be promoted to the canonical directory.
pub fn select_extracted_dir(names: &Vec<String>) -> (r: Option<usize>)
    ensures
        match r {
            Some(i) => i < names@.len() && spec_is_extracted_runtime(names@[i as int]@)
                && forall|j: int| 0 <= j < i ==> !spec_is_extracted_runtime(names@[j]@),
            None => forall|j: int| 0 <= j < names@.len() ==> !spec_is_extracted_runtime(names@[j]@),
        },
{
    let mut i: usize = 0;
    while i < names.len()
        invariant
            i <= names@.len(),
            forall|j: int| 0 <= j < i ==> !spec_is_extracted_runtime(names@[j]@),
        decreases names@.len() - i,
    {
        let name = &names[i];
        if str_starts_with(name.as_str(), "GE-Proton") && !str_eq(
            name.as_str(),
            "Proton-GE Latest",
        ) {
            return Some(i);
        }
        i = i + 1;
    }
    None
}

/// The download location of the single-binary launcher for a release tag.
pub fn umu_download_url(tag: &str) -> (r: String)
    ensures
        r@ == "https://github.com/Faugus/umu-launcher/releases/download/"@ + tag@ + "/umu-run"@,
{
    let mut s = "https://github.com/Faugus/umu-launcher/releases/download/".to_owned();
    s.append(tag);
    s.append("/umu-run");
    s
}

/// The download location of one anti-cheat archive for a release tag.
pub fn component_download_url(tag: &str, file: &str) -> (r: String)
    ensures
        r@ == "https://github.com/Faugus/components/releases/download/"@ + tag@ + "/"@ + file@,
{
    let mut s = "https://github.com/Faugus/components/releases/download/".to_owned();
    s.append(tag);
    s.append("/");
    s.append(file);
    s
}

/// The two anti-cheat archives fetched on every multi-asset install,
/// whatever partial state an earlier attempt left.
pub fn component_asset_names() -> (r: Vec<String>)
    ensures
        r@.len() == 2,
        r@[0]@ == "eac.tar.gz"@,
        r@[1]@ == "be.tar.gz"@,
{
    let mut v: Vec<String> = Vec::new();
    v.push("eac.tar.gz".to_owned());
    v.push("be.tar.gz".to_owned());
    v
}

/// The metadata descriptor written beside a freshly promoted runtime
/// directory when downstream tooling expects one.
pub fn default_vdf() -> (r: String)
    ensures
        r@ == "\"compatibilitytools\"\n{\n  \"compat_tools\"\n  {\n    \"Proton-GE Latest\"\n    {\n      \"install_path\" \".\"\n      \"display_name\" \"Proton-GE Latest\"\n      \"from_oslist\"  \"windows\"\n      \"to_oslist\"    \"linux\"\n    }\n  }\n}"@,
{
    "\"compatibilitytools\"\n{\n  \"compat_tools\"\n  {\n    \"Proton-GE Latest\"\n    {\n      \"install_path\" \".\"\n      \"display_name\" \"Proton-GE Latest\"\n      \"from_oslist\"  \"windows\"\n      \"to_oslist\"    \"linux\"\n    }\n  }\n}".to_owned()
}

} // verus!
