//! The UWP loopback exemption list: classifying app containers and their
//! packages, assembling the list the settings page shows, and deciding how
//! an exemption changes the loopback configuration.
use vstd::prelude::*;
use crate::{UwpLoopbackApp, UwpLoopbackAppCategory, UwpLoopbackPackageType};
use crate::error::{NativeError, fails_with};
use crate::paths::{chars_equal, split_on};
use crate::text::{
    hex, push_hex,
    ascii_lower, ascii_lower_exec, chars_lt, chars_of, lemma_seq_lt_irreflexive, lemma_seq_lt_total,
    lemma_seq_lt_transitive, seq_lt, starts_with, starts_with_exec,
    string_of, to_lowercase, trim, trim_exec, trim_start, trim_start_exec, unicode_lowercase,
};
use crate::windows_paths::{
    components_below, components_below_exec, win_components, win_components_exec,
    win_prefix, win_prefix_exec, is_win_sep, WinPrefixKind,
};

verus! {

broadcast use vstd::string::group_string_axioms;

// ---------------------------------------------------------------------------
// Text rules
// ---------------------------------------------------------------------------
/// `Some(value)` unless it is blank.
pub open spec fn non_empty_spec(value: Seq<char>) -> bool {
    trim(value).len() > 0
}

/// Keeps a value that is not blank.
pub fn non_empty(value: String) -> (kept: Option<String>)
    ensures
        match kept {
            Some(v) => non_empty_spec(value@) && v@ == value@,
            None => !non_empty_spec(value@),
        },
{
    if trim_exec(&chars_of(value.as_str())).len() > 0 {
        Some(value)
    } else {
        None
    }
}

/// A manifest value that names a resource instead of holding text.
pub open spec fn is_indirect_resource_spec(value: Seq<char>) -> bool {
    starts_with(trim_start(value), "@{"@) || starts_with(trim_start(value), "ms-resource:"@)
}

/// Whether a manifest value is an indirect resource reference.
pub fn is_indirect_resource(value: &str) -> (indirect: bool)
    ensures
        indirect == is_indirect_resource_spec(value@),
{
    let t = trim_start_exec(&chars_of(value));
    starts_with_exec(&t, &chars_of("@{")) || starts_with_exec(&t, &chars_of("ms-resource:"))
}

/// The most specific package flag decides the package type.
pub open spec fn package_type_spec(framework: bool, resource_package: bool, optional: bool) -> UwpLoopbackPackageType {
    if framework {
        UwpLoopbackPackageType::Framework
    } else if resource_package {
        UwpLoopbackPackageType::Resource
    } else if optional {
        UwpLoopbackPackageType::Optional
    } else {
        UwpLoopbackPackageType::Main
    }
}

pub fn package_type(framework: bool, resource_package: bool, optional: bool) -> (kind:
    UwpLoopbackPackageType)
    ensures
        kind == package_type_spec(framework, resource_package, optional),
{
    if framework {
        UwpLoopbackPackageType::Framework
    } else if resource_package {
        UwpLoopbackPackageType::Resource
    } else if optional {
        UwpLoopbackPackageType::Optional
    } else {
        UwpLoopbackPackageType::Main
    }
}

// ---------------------------------------------------------------------------
// Paths below the Windows directory
// ---------------------------------------------------------------------------
/// `PathBuf::push` of a plain relative name on Windows: a `\` is added
/// unless the base is empty, ends with a separator or is a bare drive.
pub open spec fn win_join(base: Seq<char>, name: Seq<char>) -> Seq<char> {
    if base.len() == 0 || is_win_sep(base.last(), false) || (win_prefix(base).0
        == WinPrefixKind::Disk && win_prefix(base).1 == base.len()) {
        base + name
    } else {
        base + seq!['\\'] + name
    }
}

pub(crate) fn win_join_exec(base: &str, name: &str) -> (joined: Vec<char>)
    ensures
        joined@ == win_join(base@, name@),
{
    let mut out = chars_of(base);
    let (kind, len) = win_prefix_exec(&out);
    let n = out.len();
    if !(n == 0 || out[n - 1] == '\\' || out[n - 1] == '/' || (kind == WinPrefixKind::Disk && len
        == n)) {
        out.push('\\');
    }
    crate::text::push_str(&mut out, name);
    assert(out@ =~= win_join(base@, name@));
    out
}

/// `path` lies below `parent`, component by component, ignoring ASCII case.
pub open spec fn is_path_below_spec(path: Seq<char>, parent: Seq<char>) -> bool {
    components_below(win_components(path), win_components(parent))
}

fn is_path_below(path: &Vec<char>, parent: &Vec<char>) -> (below: bool)
    ensures
        below == is_path_below_spec(path@, parent@),
{
    let a = win_components_exec(path);
    let b = win_components_exec(parent);
    components_below_exec(&a, &b)
}

/// Installed below `%WINDIR%\SystemApps` or `%WINDIR%\SystemResources`;
/// never when the Windows directory is unknown.
pub open spec fn is_windows_system_path_spec(path: Seq<char>, windows_directory: Option<Seq<char>>) -> bool {
    match windows_directory {
        None => false,
        Some(w) => is_path_below_spec(path, win_join(w, "SystemApps"@)) || is_path_below_spec(
            path,
            win_join(w, "SystemResources"@),
        ),
    }
}

/// The optional string as a sequence.
pub open spec fn opt_view(value: Option<String>) -> Option<Seq<char>> {
    match value {
        Some(v) => Some(v@),
        None => None,
    }
}

fn is_windows_system_path(path: &str, windows_directory: &Option<String>) -> (system: bool)
    ensures
        system == is_windows_system_path_spec(path@, opt_view(*windows_directory)),
{
    match windows_directory {
        None => false,
        Some(w) => {
            let p = chars_of(path);
            is_path_below(&p, &win_join_exec(w.as_str(), "SystemApps")) || is_path_below(
                &p,
                &win_join_exec(w.as_str(), "SystemResources"),
            )
        },
    }
}

// ---------------------------------------------------------------------------
// Publisher and category
// ---------------------------------------------------------------------------
/// A part of a publisher name that names Microsoft itself.
pub open spec fn is_microsoft_part(part: Seq<char>) -> bool {
    ascii_lower(trim(part)) == "cn=microsoft corporation"@ || ascii_lower(trim(part))
        == "cn=microsoft windows"@
}

/// The publisher is Microsoft: one comma-separated part of the publisher is
/// its common name, or the display name starts with "microsoft".
pub open spec fn is_microsoft_publisher_spec(publisher: Seq<char>, display_name: Seq<char>) -> bool {
    (exists|k: int|
        0 <= k < split_on(publisher, ',').len() && is_microsoft_part(
            #[trigger] split_on(publisher, ',')[k],
        )) || starts_with(ascii_lower(trim(display_name)), "microsoft"@)
}

fn is_microsoft_part_exec(part: &Vec<char>) -> (b: bool)
    ensures
        b == is_microsoft_part(part@),
{
    let lower = ascii_lower_exec(&trim_exec(part));
    chars_equal(&lower, &chars_of("cn=microsoft corporation")) || chars_equal(
        &lower,
        &chars_of("cn=microsoft windows"),
    )
}

/// Whether a package's publisher is Microsoft.
pub fn is_microsoft_publisher(publisher: &str, display_name: &str) -> (microsoft: bool)
    ensures
        microsoft == is_microsoft_publisher_spec(publisher@, display_name@),
{
    let s = chars_of(publisher);
    let mut current: Vec<char> = Vec::new();
    let mut found = false;
    let mut i: usize = 0;
    proof {
        assert(s@.take(0) =~= Seq::<char>::empty());
    }
    while i < s.len()
        invariant
            i <= s.len(),
            s@ == publisher@,
            current@ == split_on(s@.take(i as int), ',').last(),
            split_on(s@.take(i as int), ',').len() >= 1,
            found == (exists|k: int|
                0 <= k < split_on(s@.take(i as int), ',').len() - 1 && is_microsoft_part(
                    #[trigger] split_on(s@.take(i as int), ',')[k],
                )),
        decreases s.len() - i,
    {
        let ghost prev = split_on(s@.take(i as int), ',');
        let ghost next = split_on(s@.take(i + 1), ',');
        proof {
            assert(s@.take(i + 1).drop_last() =~= s@.take(i as int));
            assert(s@.take(i + 1).last() == s@[i as int]);
        }
        if s[i] == ',' {
            let here = is_microsoft_part_exec(&current);
            proof {
                assert(next == prev.push(Seq::<char>::empty()));
                if here {
                    assert(next[prev.len() - 1] == current@);
                }
                assert forall|k: int| 0 <= k < prev.len() - 1 implies next[k] == prev[k] by {}
            }
            found = found || here;
            current = Vec::new();
            proof {
                assert(current@ =~= next.last());
            }
        } else {
            current.push(s[i]);
            proof {
                assert(next == prev.update(prev.len() - 1, prev.last().push(s@[i as int])));
                assert forall|k: int| 0 <= k < prev.len() - 1 implies next[k] == prev[k] by {}
            }
        }
        i = i + 1;
    }
    proof {
        assert(s@.take(s.len() as int) =~= s@);
    }
    let last_match = is_microsoft_part_exec(&current);
    let any_part = found || last_match;
    proof {
        let parts = split_on(publisher@, ',');
        if last_match {
            assert(parts[parts.len() - 1] == current@);
        }
        if !any_part {
            assert forall|k: int| 0 <= k < parts.len() implies !is_microsoft_part(
                #[trigger] parts[k],
            ) by {
                if k == parts.len() - 1 {
                } else {
                }
            }
        }
    }
    any_part || starts_with_exec(
        &ascii_lower_exec(&trim_exec(&chars_of(display_name))),
        &chars_of("microsoft"),
    )
}

/// How a package is signed (`PackageSignatureKind`; `Unsigned` is the
/// kind Windows calls `None`).
#[derive(Debug, Clone, Copy, PartialEq, Eq, Structural)]
pub enum PackageSignatureKind {
    Unsigned,
    Developer,
    Enterprise,
    Store,
    System,
}

/// System-signed, framework and resource packages and anything installed
/// below the Windows system app folders are system components; otherwise a
/// Microsoft publisher makes a Microsoft app, and the rest are user apps.
pub open spec fn classify_package_spec(
    signature_kind: Option<PackageSignatureKind>,
    framework: bool,
    resource_package: bool,
    installed_path: Seq<char>,
    publisher: Seq<char>,
    publisher_display_name: Seq<char>,
    windows_directory: Option<Seq<char>>,
) -> UwpLoopbackAppCategory {
    if signature_kind == Some(PackageSignatureKind::System) || framework || resource_package
        || is_windows_system_path_spec(installed_path, windows_directory) {
        UwpLoopbackAppCategory::System
    } else if is_microsoft_publisher_spec(publisher, publisher_display_name) {
        UwpLoopbackAppCategory::Microsoft
    } else {
        UwpLoopbackAppCategory::User
    }
}

/// Classifies a package; `windows_directory` is `%WINDIR%`.
pub fn classify_package(
    signature_kind: Option<PackageSignatureKind>,
    framework: bool,
    resource_package: bool,
    installed_path: &str,
    publisher: &str,
    publisher_display_name: &str,
    windows_directory: &Option<String>,
) -> (category: UwpLoopbackAppCategory)
    ensures
        category == classify_package_spec(
            signature_kind,
            framework,
            resource_package,
            installed_path@,
            publisher@,
            publisher_display_name@,
            opt_view(*windows_directory),
        ),
{
    let system_signed = match signature_kind {
        Some(PackageSignatureKind::System) => true,
        _ => false,
    };
    if system_signed || framework || resource_package || is_windows_system_path(
        installed_path,
        windows_directory,
    ) {
        UwpLoopbackAppCategory::System
    } else if is_microsoft_publisher(publisher, publisher_display_name) {
        UwpLoopbackAppCategory::Microsoft
    } else {
        UwpLoopbackAppCategory::User
    }
}

/// The category of a container without package metadata: below the system
/// folders it is a system component, a `microsoft.` family is Microsoft's,
/// and the rest are user apps.
pub open spec fn fallback_category_spec(
    package_family_name: Seq<char>,
    working_directory: Seq<char>,
    windows_directory: Option<Seq<char>>,
) -> UwpLoopbackAppCategory {
    if is_windows_system_path_spec(working_directory, windows_directory) {
        UwpLoopbackAppCategory::System
    } else if starts_with(ascii_lower(trim(package_family_name)), "microsoft."@) {
        UwpLoopbackAppCategory::Microsoft
    } else {
        UwpLoopbackAppCategory::User
    }
}

pub fn fallback_category(
    package_family_name: &str,
    working_directory: &str,
    windows_directory: &Option<String>,
) -> (category: UwpLoopbackAppCategory)
    ensures
        category == fallback_category_spec(
            package_family_name@,
            working_directory@,
            opt_view(*windows_directory),
        ),
{
    if is_windows_system_path(working_directory, windows_directory) {
        UwpLoopbackAppCategory::System
    } else if starts_with_exec(
        &ascii_lower_exec(&trim_exec(&chars_of(package_family_name))),
        &chars_of("microsoft."),
    ) {
        UwpLoopbackAppCategory::Microsoft
    } else {
        UwpLoopbackAppCategory::User
    }
}

} // verus!

verus! {

// ---------------------------------------------------------------------------
// Security identifiers
// ---------------------------------------------------------------------------
/// The key of a SID: its bytes in hexadecimal when it is valid and 8 to 68
/// bytes long.
pub open spec fn sid_key_spec(sid: Option<Seq<u8>>) -> Option<Seq<char>> {
    match sid {
        Some(bytes) => if 8 <= bytes.len() <= 68 {
            Some(hex(bytes))
        } else {
            None
        },
        None => None,
    }
}

/// The SID bytes as read (`None` for a missing or invalid SID).
pub open spec fn bytes_view(sid: Option<Vec<u8>>) -> Option<Seq<u8>> {
    match sid {
        Some(b) => Some(b@),
        None => None,
    }
}

/// The key of a SID.
pub fn sid_key(sid: &Option<Vec<u8>>) -> (key: Option<String>)
    ensures
        opt_view(key) == sid_key_spec(bytes_view(*sid)),
{
    match sid {
        None => None,
        Some(bytes) => {
            if bytes.len() < 8 || bytes.len() > 68 {
                return None;
            }
            let mut out: Vec<char> = Vec::new();
            push_hex(&mut out, bytes);
            Some(string_of(&out))
        },
    }
}

// ---------------------------------------------------------------------------
// Package metadata
// ---------------------------------------------------------------------------
/// What the package manager reports about one installed package.
#[derive(Debug, Clone)]
pub struct PackageFacts {
    pub package_full_name: String,
    pub package_family_name: String,
    pub framework: bool,
    pub resource_package: bool,
    pub optional: bool,
    pub publisher: String,
    pub publisher_display_name: String,
    pub installed_path: String,
    pub display_name: Option<String>,
    pub description: Option<String>,
    pub signature_kind: Option<PackageSignatureKind>,
}

/// What the list needs of a package.
#[derive(Debug, Clone)]
pub struct PackageMetadata {
    pub package_full_name: String,
    pub package_family_name: String,
    pub display_name: Option<String>,
    pub description: Option<String>,
    pub category: UwpLoopbackAppCategory,
    pub package_type: UwpLoopbackPackageType,
    pub framework: bool,
    pub resource_package: bool,
}

/// A reported text kept only when it is not blank.
pub open spec fn kept_text(value: Option<Seq<char>>) -> Option<Seq<char>> {
    match value {
        Some(v) => if non_empty_spec(v) {
            Some(v)
        } else {
            None
        },
        None => None,
    }
}

/// The metadata of a package.
pub open spec fn metadata_spec(facts: PackageFacts, windows_directory: Option<Seq<char>>) -> PackageMetadata {
    PackageMetadata {
        package_full_name: facts.package_full_name,
        package_family_name: facts.package_family_name,
        display_name: facts.display_name,
        description: facts.description,
        category: classify_package_spec(
            facts.signature_kind,
            facts.framework,
            facts.resource_package,
            facts.installed_path@,
            facts.publisher@,
            facts.publisher_display_name@,
            windows_directory,
        ),
        package_type: package_type_spec(facts.framework, facts.resource_package, facts.optional),
        framework: facts.framework,
        resource_package: facts.resource_package,
    }
}

/// `metadata` describes the package with `facts`.
pub open spec fn describes(
    metadata: PackageMetadata,
    facts: PackageFacts,
    windows_directory: Option<Seq<char>>,
) -> bool {
    let m = metadata_spec(facts, windows_directory);
    &&& metadata.package_full_name@ == facts.package_full_name@
    &&& metadata.package_family_name@ == facts.package_family_name@
    &&& opt_view(metadata.display_name) == kept_text(opt_view(facts.display_name))
    &&& opt_view(metadata.description) == kept_text(opt_view(facts.description))
    &&& metadata.category == m.category
    &&& metadata.package_type == m.package_type
    &&& metadata.framework == facts.framework
    &&& metadata.resource_package == facts.resource_package
}

fn keep_text(value: &Option<String>) -> (kept: Option<String>)
    ensures
        opt_view(kept) == kept_text(opt_view(*value)),
{
    match value {
        None => None,
        Some(v) => non_empty(v.clone()),
    }
}

/// The metadata of one package.
pub fn metadata_for_package(facts: &PackageFacts, windows_directory: &Option<String>) -> (metadata:
    PackageMetadata)
    ensures
        describes(metadata, *facts, opt_view(*windows_directory)),
{
    PackageMetadata {
        package_full_name: facts.package_full_name.clone(),
        package_family_name: facts.package_family_name.clone(),
        display_name: keep_text(&facts.display_name),
        description: keep_text(&facts.description),
        category: classify_package(
            facts.signature_kind,
            facts.framework,
            facts.resource_package,
            facts.installed_path.as_str(),
            facts.publisher.as_str(),
            facts.publisher_display_name.as_str(),
            windows_directory,
        ),
        package_type: package_type(facts.framework, facts.resource_package, facts.optional),
        framework: facts.framework,
        resource_package: facts.resource_package,
    }
}

/// The package whose full name matches `key` (ASCII case ignored): the last
/// one listed, as later entries replace earlier ones.
pub open spec fn full_name_pick(packages: Seq<PackageMetadata>, key: Seq<char>) -> Option<int>
    decreases packages.len(),
{
    if packages.len() == 0 {
        None
    } else if ascii_lower(packages.last().package_full_name@) == key {
        Some(packages.len() - 1)
    } else {
        full_name_pick(packages.drop_last(), key)
    }
}

/// The package that stands for a family (ASCII case ignored): the first
/// main package of the family, or its first package when none is main.
pub open spec fn family_pick(packages: Seq<PackageMetadata>, key: Seq<char>) -> Option<int>
    decreases packages.len(),
{
    if packages.len() == 0 {
        None
    } else {
        let before = family_pick(packages.drop_last(), key);
        let m = packages.last();
        if ascii_lower(m.package_family_name@) != key {
            before
        } else {
            match before {
                None => Some(packages.len() - 1),
                Some(j) => if packages[j].package_type != UwpLoopbackPackageType::Main
                    && m.package_type == UwpLoopbackPackageType::Main {
                    Some(packages.len() - 1)
                } else {
                    Some(j)
                },
            }
        }
    }
}

proof fn lemma_pick_bounds(packages: Seq<PackageMetadata>, key: Seq<char>)
    ensures
        full_name_pick(packages, key) matches Some(i) ==> 0 <= i < packages.len(),
        family_pick(packages, key) matches Some(i) ==> 0 <= i < packages.len(),
    decreases packages.len(),
{
    if packages.len() > 0 {
        lemma_pick_bounds(packages.drop_last(), key);
    }
}

fn find_full_name(packages: &Vec<PackageMetadata>, key: &Vec<char>) -> (found: Option<usize>)
    ensures
        match full_name_pick(packages@, key@) {
            Some(i) => found == Some(i as usize),
            None => found is None,
        },
{
    let mut found: Option<usize> = None;
    let mut i: usize = 0;
    while i < packages.len()
        invariant
            i <= packages.len(),
            match full_name_pick(packages@.take(i as int), key@) {
                Some(j) => found == Some(j as usize),
                None => found is None,
            },
        decreases packages.len() - i,
    {
        proof {
            assert(packages@.take(i + 1).drop_last() =~= packages@.take(i as int));
            assert(packages@.take(i + 1).last() == packages@[i as int]);
        }
        let lower = ascii_lower_exec(&chars_of(packages[i].package_full_name.as_str()));
        if chars_equal(&lower, key) {
            found = Some(i);
        }
        i = i + 1;
    }
    assert(packages@.take(packages.len() as int) =~= packages@);
    found
}

fn find_family(packages: &Vec<PackageMetadata>, key: &Vec<char>) -> (found: Option<usize>)
    ensures
        match family_pick(packages@, key@) {
            Some(i) => found == Some(i as usize),
            None => found is None,
        },
{
    let mut found: Option<usize> = None;
    let mut i: usize = 0;
    while i < packages.len()
        invariant
            i <= packages.len(),
            match family_pick(packages@.take(i as int), key@) {
                Some(j) => found == Some(j as usize) && j < i,
                None => found is None,
            },
        decreases packages.len() - i,
    {
        proof {
            assert(packages@.take(i + 1).drop_last() =~= packages@.take(i as int));
            assert(packages@.take(i + 1).last() == packages@[i as int]);
            lemma_pick_bounds(packages@.take(i as int), key@);
        }
        let lower = ascii_lower_exec(&chars_of(packages[i].package_family_name.as_str()));
        if chars_equal(&lower, key) {
            match found {
                None => {
                    found = Some(i);
                },
                Some(j) => {
                    assert(packages@.take(i + 1)[j as int] == packages@[j as int]);
                    if packages[j].package_type != UwpLoopbackPackageType::Main
                        && packages[i].package_type == UwpLoopbackPackageType::Main {
                        found = Some(i);
                    }
                },
            }
        }
        i = i + 1;
    }
    assert(packages@.take(packages.len() as int) =~= packages@);
    found
}

// ---------------------------------------------------------------------------
// Assembling the list
// ---------------------------------------------------------------------------
/// What the firewall reports about one app container (absent strings read
/// as empty).
#[derive(Debug, Clone)]
pub struct AppContainerRecord {
    pub sid: Option<Vec<u8>>,
    pub name: String,
    pub package_full_name: String,
    pub display_name: String,
    pub description: String,
    pub working_directory: String,
}

/// The metadata that describes a container: by its full name when it has
/// one that is known, else by its family.
pub open spec fn container_metadata(
    container: AppContainerRecord,
    packages: Seq<PackageMetadata>,
) -> Option<int> {
    let by_full = if non_empty_spec(container.package_full_name@) {
        full_name_pick(packages, ascii_lower(container.package_full_name@))
    } else {
        None
    };
    match by_full {
        Some(i) => Some(i),
        None => family_pick(packages, ascii_lower(container.name@)),
    }
}

/// Whether one of the configured SIDs has the key `id`.
pub open spec fn is_exempt(id: Seq<char>, allowed: Seq<Option<Vec<u8>>>) -> bool {
    exists|k: int| 0 <= k < allowed.len() && sid_key_spec(bytes_view(#[trigger] allowed[k])) == Some(id)
}

/// The optional text of the metadata.
pub open spec fn meta_text(packages: Seq<PackageMetadata>, pick: Option<int>, display: bool) -> Option<
    Seq<char>,
> {
    match pick {
        Some(i) => if display {
            opt_view(packages[i].display_name)
        } else {
            opt_view(packages[i].description)
        },
        None => None,
    }
}

/// The entry for one container with key `id`: the container's own texts
/// unless they are blank or indirect references, then the package's, then
/// the container's display name as it was, then the family name.
pub open spec fn app_entry(
    app: UwpLoopbackApp,
    id: Seq<char>,
    container: AppContainerRecord,
    packages: Seq<PackageMetadata>,
    allowed: Seq<Option<Vec<u8>>>,
    windows_directory: Option<Seq<char>>,
) -> bool {
    let pick = container_metadata(container, packages);
    let cdn = container.display_name@;
    let cdesc = container.description@;
    let display = if non_empty_spec(cdn) && !is_indirect_resource_spec(cdn) {
        cdn
    } else if meta_text(packages, pick, true) is Some {
        meta_text(packages, pick, true)->0
    } else if non_empty_spec(cdn) {
        cdn
    } else {
        container.name@
    };
    let description = if non_empty_spec(cdesc) && !is_indirect_resource_spec(cdesc) {
        Some(cdesc)
    } else {
        meta_text(packages, pick, false)
    };
    let full_name = if non_empty_spec(container.package_full_name@) {
        Some(container.package_full_name@)
    } else {
        match pick {
            Some(i) => Some(packages[i].package_full_name@),
            None => None,
        }
    };
    &&& app.id@ == id
    &&& app.package_family_name@ == container.name@
    &&& opt_view(app.package_full_name) == full_name
    &&& app.display_name@ == display
    &&& opt_view(app.description) == description
    &&& app.enabled == is_exempt(id, allowed)
    &&& app.category == match pick {
        Some(i) => packages[i].category,
        None => fallback_category_spec(container.name@, container.working_directory@, windows_directory),
    }
    &&& app.package_type == match pick {
        Some(i) => Some(packages[i].package_type),
        None => None,
    }
    &&& app.framework == (pick matches Some(i) && packages[i].framework)
    &&& app.resource_package == (pick matches Some(i) && packages[i].resource_package)
}

/// The container at `i` is listed: it has a key that no earlier container
/// had, and a family name.
pub open spec fn is_listed(containers: Seq<AppContainerRecord>, i: int) -> bool {
    &&& sid_key_spec(bytes_view(containers[i].sid)) is Some
    &&& containers[i].name@.len() > 0
    &&& forall|j: int| 0 <= j < i ==> sid_key_spec(bytes_view(#[trigger] containers[j].sid))
        != sid_key_spec(bytes_view(containers[i].sid))
}

fn opt_string_clone(value: &Option<String>) -> (c: Option<String>)
    ensures
        opt_view(c) == opt_view(*value),
{
    match value {
        None => None,
        Some(v) => Some(v.clone()),
    }
}

fn build_entry(
    id: String,
    container: &AppContainerRecord,
    packages: &Vec<PackageMetadata>,
    allowed_keys: &Vec<String>,
    allowed: &Vec<Option<Vec<u8>>>,
    windows_directory: &Option<String>,
) -> (app: UwpLoopbackApp)
    requires
        forall|x: Seq<char>|
            #![trigger is_exempt(x, allowed@)]
            (exists|k: int| 0 <= k < allowed_keys.len() && allowed_keys@[k]@ == x) == is_exempt(
                x,
                allowed@,
            ),
    ensures
        app_entry(app, id@, *container, packages@, allowed@, opt_view(*windows_directory)),
{
    let full = non_empty(container.package_full_name.clone());
    let by_full = match &full {
        Some(f) => {
            let key = ascii_lower_exec(&chars_of(f.as_str()));
            assert(key@ == ascii_lower(container.package_full_name@));
            let r = find_full_name(packages, &key);
            proof {
                lemma_pick_bounds(packages@, key@);
            }
            assert(match full_name_pick(packages@, key@) {
                Some(j) => r == Some(j as usize) && 0 <= j < packages.len(),
                None => r is None,
            });
            assert(non_empty_spec(container.package_full_name@));
            r
        },
        None => None,
    };
    let pick = match by_full {
        Some(i) => Some(i),
        None => {
            let key = ascii_lower_exec(&chars_of(container.name.as_str()));
            let r = find_family(packages, &key);
            proof {
                lemma_pick_bounds(packages@, key@);
            }
            assert(match family_pick(packages@, key@) {
                Some(j) => r == Some(j as usize) && 0 <= j < packages.len(),
                None => r is None,
            });
            r
        },
    };
    proof {
        lemma_pick_bounds(packages@, ascii_lower(container.package_full_name@));
        lemma_pick_bounds(packages@, ascii_lower(container.name@));
        let spec_full = if non_empty_spec(container.package_full_name@) {
            full_name_pick(packages@, ascii_lower(container.package_full_name@))
        } else {
            None
        };
        assert(match by_full {
            Some(i) => spec_full == Some(i as int),
            None => spec_full is None,
        });
    }
    assert(match pick {
        Some(i) => container_metadata(*container, packages@) == Some(i as int),
        None => container_metadata(*container, packages@) is None,
    });
    let cdn = non_empty(container.display_name.clone());
    let cdesc = non_empty(container.description.clone());
    let fallback = fallback_category(
        container.name.as_str(),
        container.working_directory.as_str(),
        windows_directory,
    );
    let meta_display: Option<String> = match pick {
        Some(i) => opt_string_clone(&packages[i].display_name),
        None => None,
    };
    let display_name = match &cdn {
        Some(v) if !is_indirect_resource(v.as_str()) => v.clone(),
        _ => match meta_display {
            Some(d) => d,
            None => match &cdn {
                Some(v) => v.clone(),
                None => container.name.clone(),
            },
        },
    };
    let description = match &cdesc {
        Some(v) if !is_indirect_resource(v.as_str()) => Some(v.clone()),
        _ => match pick {
            Some(i) => opt_string_clone(&packages[i].description),
            None => None,
        },
    };
    let package_full_name = match full {
        Some(f) => Some(f),
        None => match pick {
            Some(i) => Some(packages[i].package_full_name.clone()),
            None => None,
        },
    };
    let mut enabled = false;
    let mut k: usize = 0;
    while k < allowed_keys.len()
        invariant
            k <= allowed_keys.len(),
            enabled == (exists|j: int| 0 <= j < k && allowed_keys@[j]@ == id@),
        decreases allowed_keys.len() - k,
    {
        if crate::paths::chars_equal(&chars_of(allowed_keys[k].as_str()), &chars_of(id.as_str())) {
            enabled = true;
        }
        k = k + 1;
    }
    proof {
        assert((exists|j: int| 0 <= j < allowed_keys.len() && allowed_keys@[j]@ == id@)
            == is_exempt(id@, allowed@));
    }
    let (category, package_type, framework, resource_package) = match pick {
        Some(i) => (
            packages[i].category,
            Some(packages[i].package_type),
            packages[i].framework,
            packages[i].resource_package,
        ),
        None => (fallback, None, false, false),
    };
    UwpLoopbackApp {
        id,
        package_family_name: container.name.clone(),
        package_full_name,
        display_name,
        description,
        enabled,
        category,
        package_type,
        framework,
        resource_package,
    }
}

} // verus!

verus! {

// ---------------------------------------------------------------------------
// Ordering by display name
// ---------------------------------------------------------------------------
/// The key the list is ordered by.
pub open spec fn name_key(app: UwpLoopbackApp) -> Seq<char> {
    unicode_lowercase(app.display_name@)
}

/// Where an entry with `key` goes in an ordered list: after every entry
/// whose key is not greater.
pub open spec fn insert_pos(sorted: Seq<UwpLoopbackApp>, key: Seq<char>) -> int
    decreases sorted.len(),
{
    if sorted.len() == 0 {
        0
    } else if seq_lt(key, name_key(sorted[0])) {
        0
    } else {
        1 + insert_pos(sorted.drop_first(), key)
    }
}

/// The apps ordered by their lower-cased display names, apps with equal keys
/// keeping their order (a stable sort).
pub open spec fn sorted_by_name(apps: Seq<UwpLoopbackApp>) -> Seq<UwpLoopbackApp>
    decreases apps.len(),
{
    if apps.len() == 0 {
        seq![]
    } else {
        let s = sorted_by_name(apps.drop_last());
        s.insert(insert_pos(s, name_key(apps.last())), apps.last())
    }
}

proof fn lemma_insert_pos_bounds(sorted: Seq<UwpLoopbackApp>, key: Seq<char>)
    ensures
        0 <= insert_pos(sorted, key) <= sorted.len(),
        forall|i: int| 0 <= i < insert_pos(sorted, key) ==> !seq_lt(key, #[trigger] name_key(sorted[i])),
        insert_pos(sorted, key) < sorted.len() ==> seq_lt(key, name_key(sorted[insert_pos(sorted, key)])),
    decreases sorted.len(),
{
    if sorted.len() > 0 && !seq_lt(key, name_key(sorted[0])) {
        lemma_insert_pos_bounds(sorted.drop_first(), key);
        assert forall|i: int| 0 <= i < insert_pos(sorted, key) implies !seq_lt(
            key,
            #[trigger] name_key(sorted[i]),
        ) by {
            if i > 0 {
                assert(sorted[i] == sorted.drop_first()[i - 1]);
            }
        }
    }
}

proof fn lemma_sorted_len(apps: Seq<UwpLoopbackApp>)
    ensures
        sorted_by_name(apps).len() == apps.len(),
    decreases apps.len(),
{
    if apps.len() > 0 {
        lemma_sorted_len(apps.drop_last());
        lemma_insert_pos_bounds(sorted_by_name(apps.drop_last()), name_key(apps.last()));
    }
}

fn insert_by_name(sorted: &mut Vec<UwpLoopbackApp>, keys: &mut Vec<Vec<char>>, app: UwpLoopbackApp)
    requires
        old(keys)@.len() == old(sorted)@.len(),
        forall|i: int| 0 <= i < old(sorted)@.len() ==> old(keys)@[i]@ == name_key(#[trigger] old(sorted)@[i]),
    ensures
        final(sorted)@ == old(sorted)@.insert(insert_pos(old(sorted)@, name_key(app)), app),
        final(keys)@.len() == final(sorted)@.len(),
        forall|i: int| 0 <= i < final(sorted)@.len() ==> final(keys)@[i]@ == name_key(#[trigger] final(sorted)@[i]),
{
    let key = chars_of(to_lowercase(app.display_name.as_str()).as_str());
    let ghost s = sorted@;
    proof {
        lemma_insert_pos_bounds(s, key@);
    }
    let mut j: usize = 0;
    assert(s.skip(0) =~= s);
    while j < keys.len() && !chars_lt(&key, &keys[j])
        invariant
            j <= keys.len(),
            keys@.len() == s.len(),
            s == sorted@,
            forall|i: int| 0 <= i < s.len() ==> keys@[i]@ == name_key(#[trigger] s[i]),
            insert_pos(s, key@) == j + insert_pos(s.skip(j as int), key@),
        decreases keys.len() - j,
    {
        proof {
            let rest = s.skip(j as int);
            assert(rest[0] == s[j as int]);
            assert(rest.drop_first() =~= s.skip(j + 1));
        }
        j = j + 1;
    }
    proof {
        let rest = s.skip(j as int);
        if j < keys.len() {
            assert(rest[0] == s[j as int]);
        } else {
            assert(rest.len() == 0);
        }
    }
    sorted.insert(j, app);
    keys.insert(j, key);
    assert forall|i: int| 0 <= i < sorted@.len() implies keys@[i]@ == name_key(#[trigger] sorted@[i]) by {
        if i < j {
            assert(sorted@[i] == s[i]);
        } else if i > j {
            assert(sorted@[i] == s[i - 1]);
        }
    }
}

/// Orders the apps by their lower-cased display names, stably.
pub fn sort_by_name(apps: Vec<UwpLoopbackApp>) -> (sorted: Vec<UwpLoopbackApp>)
    ensures
        sorted@ == sorted_by_name(apps@),
{
    let mut sorted: Vec<UwpLoopbackApp> = Vec::new();
    let mut keys: Vec<Vec<char>> = Vec::new();
    let mut i: usize = 0;
    assert(apps@.take(0) =~= Seq::<UwpLoopbackApp>::empty());
    while i < apps.len()
        invariant
            i <= apps.len(),
            sorted@ == sorted_by_name(apps@.take(i as int)),
            keys@.len() == sorted@.len(),
            forall|k: int| 0 <= k < sorted@.len() ==> keys@[k]@ == name_key(#[trigger] sorted@[k]),
        decreases apps.len() - i,
    {
        proof {
            assert(apps@.take(i + 1).drop_last() =~= apps@.take(i as int));
            assert(apps@.take(i + 1).last() == apps@[i as int]);
        }
        let app = apps[i].clone_app();
        insert_by_name(&mut sorted, &mut keys, app);
        i = i + 1;
    }
    assert(apps@.take(apps.len() as int) =~= apps@);
    sorted
}

impl UwpLoopbackApp {
    /// A copy of the entry.
    pub fn clone_app(&self) -> (copy: UwpLoopbackApp)
        ensures
            copy == *self,
    {
        UwpLoopbackApp {
            id: self.id.clone(),
            package_family_name: self.package_family_name.clone(),
            package_full_name: match &self.package_full_name {
                Some(v) => Some(v.clone()),
                None => None,
            },
            display_name: self.display_name.clone(),
            description: match &self.description {
                Some(v) => Some(v.clone()),
                None => None,
            },
            enabled: self.enabled,
            category: self.category,
            package_type: self.package_type,
            framework: self.framework,
            resource_package: self.resource_package,
        }
    }
}

} // verus!

verus! {

/// Ordered by key: no entry's key is smaller than an earlier one's.
pub open spec fn ordered_by_name(apps: Seq<UwpLoopbackApp>) -> bool {
    forall|i: int, j: int|
        0 <= i < j < apps.len() ==> !seq_lt(#[trigger] name_key(apps[j]), #[trigger] name_key(apps[i]))
}

proof fn lemma_insert_ordered(s: Seq<UwpLoopbackApp>, app: UwpLoopbackApp)
    requires
        ordered_by_name(s),
    ensures
        ordered_by_name(s.insert(insert_pos(s, name_key(app)), app)),
{
    let key = name_key(app);
    let p = insert_pos(s, key);
    lemma_insert_pos_bounds(s, key);
    let r = s.insert(p, app);
    assert forall|i: int, j: int| 0 <= i < j < r.len() implies !seq_lt(
        #[trigger] name_key(r[j]),
        #[trigger] name_key(r[i]),
    ) by {
        if i < p && j < p {
            assert(r[i] == s[i] && r[j] == s[j]);
        } else if i < p && j == p {
            assert(r[i] == s[i]);
            assert(!seq_lt(key, name_key(s[i])));
        } else if i < p && j > p {
            assert(r[i] == s[i] && r[j] == s[j - 1]);
        } else if i == p {
            assert(r[j] == s[j - 1]);
            assert(seq_lt(key, name_key(s[p])));
            if j - 1 > p {
                assert(!seq_lt(name_key(s[j - 1]), name_key(s[p])));
                lemma_seq_lt_total(name_key(s[p]), name_key(s[j - 1]));
                if seq_lt(name_key(s[p]), name_key(s[j - 1])) {
                    lemma_seq_lt_transitive(key, name_key(s[p]), name_key(s[j - 1]));
                }
            }
            if seq_lt(name_key(r[j]), key) {
                lemma_seq_lt_transitive(name_key(r[j]), key, name_key(r[j]));
                lemma_seq_lt_irreflexive(name_key(r[j]));
            }
        } else {
            assert(r[i] == s[i - 1] && r[j] == s[j - 1]);
        }
    }
}

/// The list is in order of lower-cased display names and holds exactly the
/// apps it was given, each as often as it was given.
pub proof fn sorted_by_name_orders_and_keeps(apps: Seq<UwpLoopbackApp>)
    ensures
        ordered_by_name(sorted_by_name(apps)),
        sorted_by_name(apps).to_multiset() == apps.to_multiset(),
    decreases apps.len(),
{
    broadcast use vstd::seq_lib::group_to_multiset_ensures;

    if apps.len() == 0 {
        assert(sorted_by_name(apps) =~= apps);
    } else {
        let s = sorted_by_name(apps.drop_last());
        sorted_by_name_orders_and_keeps(apps.drop_last());
        lemma_insert_ordered(s, apps.last());
        lemma_insert_pos_bounds(s, name_key(apps.last()));
        assert(apps.drop_last().push(apps.last()) =~= apps);
    }
}

} // verus!

verus! {

/// The positions of the listed containers, in order.
pub open spec fn listed_indices(containers: Seq<AppContainerRecord>) -> Seq<int>
    decreases containers.len(),
{
    if containers.len() == 0 {
        seq![]
    } else {
        let before = listed_indices(containers.drop_last());
        if is_listed(containers, containers.len() - 1) {
            before.push(containers.len() - 1)
        } else {
            before
        }
    }
}

/// `apps` holds, in container order, one entry per listed container.
pub open spec fn entries_of(
    apps: Seq<UwpLoopbackApp>,
    containers: Seq<AppContainerRecord>,
    packages: Seq<PackageMetadata>,
    allowed: Seq<Option<Vec<u8>>>,
    windows_directory: Option<Seq<char>>,
) -> bool {
    let idx = listed_indices(containers);
    &&& apps.len() == idx.len()
    &&& forall|k: int|
        0 <= k < apps.len() ==> app_entry(
            #[trigger] apps[k],
            sid_key_spec(bytes_view(containers[idx[k]].sid))->0,
            containers[idx[k]],
            packages,
            allowed,
            windows_directory,
        )
}

proof fn lemma_listed_prefix(containers: Seq<AppContainerRecord>, n: int, i: int)
    requires
        0 <= i < n <= containers.len(),
    ensures
        is_listed(containers.take(n), i) == is_listed(containers, i),
{
    assert forall|j: int| 0 <= j <= i implies containers.take(n)[j] == containers[j] by {}
}

proof fn lemma_listed_indices_bounds(containers: Seq<AppContainerRecord>)
    ensures
        forall|k: int|
            0 <= k < listed_indices(containers).len() ==> 0 <= #[trigger] listed_indices(
                containers,
            )[k] < containers.len(),
    decreases containers.len(),
{
    if containers.len() > 0 {
        lemma_listed_indices_bounds(containers.drop_last());
        let before = listed_indices(containers.drop_last());
        let now = listed_indices(containers);
        assert forall|k: int| 0 <= k < now.len() implies 0 <= #[trigger] now[k] < containers.len() by {
            if k < before.len() {
                assert(now[k] == before[k]);
            }
        }
    }
}

proof fn lemma_listed_indices_step(containers: Seq<AppContainerRecord>, i: int)
    requires
        0 <= i < containers.len(),
    ensures
        listed_indices(containers.take(i + 1)) == if is_listed(containers, i) {
            listed_indices(containers.take(i)).push(i)
        } else {
            listed_indices(containers.take(i))
        },
{
    assert(containers.take(i + 1).drop_last() =~= containers.take(i));
    lemma_listed_prefix(containers, i + 1, i);
}

/// One of the keys is `x`.
pub open spec fn key_listed(keys: Seq<String>, x: Seq<char>) -> bool {
    exists|k: int| 0 <= k < keys.len() && (#[trigger] keys[k])@ == x
}

/// One of the first `n` SIDs has the key `x`.
pub open spec fn sid_among(sids: Seq<Option<Vec<u8>>>, n: int, x: Seq<char>) -> bool {
    exists|j: int| 0 <= j < n && sid_key_spec(bytes_view(#[trigger] sids[j])) == Some(x)
}

/// One of the first `n` containers has the key `x`.
pub open spec fn container_key_among(containers: Seq<AppContainerRecord>, n: int, x: Seq<char>) -> bool {
    exists|j: int| 0 <= j < n && sid_key_spec(bytes_view((#[trigger] containers[j]).sid)) == Some(x)
}

proof fn lemma_key_listed_push(keys: Seq<String>, key: String, x: Seq<char>)
    ensures
        key_listed(keys.push(key), x) == (key_listed(keys, x) || key@ == x),
{
    let pushed = keys.push(key);
    if key_listed(keys, x) {
        let k = choose|k: int| 0 <= k < keys.len() && (#[trigger] keys[k])@ == x;
        assert(pushed[k] == keys[k]);
    }
    if key@ == x {
        assert(pushed[keys.len() as int] == key);
    }
    if key_listed(pushed, x) {
        let k = choose|k: int| 0 <= k < pushed.len() && (#[trigger] pushed[k])@ == x;
        if k < keys.len() {
            assert(pushed[k] == keys[k]);
        }
    }
}

proof fn lemma_sid_among_step(sids: Seq<Option<Vec<u8>>>, n: int, x: Seq<char>)
    requires
        0 <= n < sids.len(),
    ensures
        sid_among(sids, n + 1, x) == (sid_among(sids, n, x) || sid_key_spec(bytes_view(sids[n]))
            == Some(x)),
{
    if sid_among(sids, n + 1, x) {
        let j = choose|j: int| 0 <= j < n + 1 && sid_key_spec(bytes_view(#[trigger] sids[j])) == Some(x);
        if j < n {
            assert(sid_among(sids, n, x));
        }
    }
}

proof fn lemma_container_among_step(containers: Seq<AppContainerRecord>, n: int, x: Seq<char>)
    requires
        0 <= n < containers.len(),
    ensures
        container_key_among(containers, n + 1, x) == (container_key_among(containers, n, x)
            || sid_key_spec(bytes_view(containers[n].sid)) == Some(x)),
{
    if container_key_among(containers, n + 1, x) {
        let j = choose|j: int|
            0 <= j < n + 1 && sid_key_spec(bytes_view((#[trigger] containers[j]).sid)) == Some(x);
        if j < n {
            assert(container_key_among(containers, n, x));
        }
    }
}

fn key_in(keys: &Vec<String>, id: &String) -> (found: bool)
    ensures
        found == key_listed(keys@, id@),
{
    let mut found = false;
    let mut k: usize = 0;
    while k < keys.len()
        invariant
            k <= keys.len(),
            found == (exists|t: int| 0 <= t < k && (#[trigger] keys@[t])@ == id@),
        decreases keys.len() - k,
    {
        if chars_equal(&chars_of(keys[k].as_str()), &chars_of(id.as_str())) {
            found = true;
        }
        k = k + 1;
    }
    found
}

/// Assembles the loopback list: one entry per app container with a valid,
/// not yet seen SID and a family name, described by its package where one
/// is installed, exempt when its SID is in the loopback configuration, and
/// ordered by lower-cased display name.
pub fn list_uwp_loopback_apps(
    containers: &Vec<AppContainerRecord>,
    allowed: &Vec<Option<Vec<u8>>>,
    packages: &Vec<PackageFacts>,
    windows_directory: &Option<String>,
) -> (apps: Vec<UwpLoopbackApp>)
    ensures
        exists|metadata: Seq<PackageMetadata>, entries: Seq<UwpLoopbackApp>|
            #[trigger] is_listing(
                apps@,
                metadata,
                entries,
                containers@,
                packages@,
                allowed@,
                opt_view(*windows_directory),
            ),
{
    let mut metadata: Vec<PackageMetadata> = Vec::new();
    let mut p: usize = 0;
    while p < packages.len()
        invariant
            p <= packages.len(),
            metadata@.len() == p,
            forall|k: int|
                0 <= k < p ==> describes(
                    #[trigger] metadata@[k],
                    packages@[k],
                    opt_view(*windows_directory),
                ),
        decreases packages.len() - p,
    {
        metadata.push(metadata_for_package(&packages[p], windows_directory));
        p = p + 1;
    }
    let mut allowed_keys: Vec<String> = Vec::new();
    let mut a: usize = 0;
    while a < allowed.len()
        invariant
            a <= allowed.len(),
            forall|x: Seq<char>| #[trigger] key_listed(allowed_keys@, x) == sid_among(allowed@, a as int, x),
        decreases allowed.len() - a,
    {
        let ghost before = allowed_keys@;
        let key = sid_key(&allowed[a]);
        match key {
            Some(k) => {
                allowed_keys.push(k);
            },
            None => {},
        }
        assert forall|x: Seq<char>| #[trigger] key_listed(allowed_keys@, x) == sid_among(
            allowed@,
            a + 1,
            x,
        ) by {
            lemma_sid_among_step(allowed@, a as int, x);
            match key {
                Some(k) => {
                    lemma_key_listed_push(before, k, x);
                },
                None => {},
            }
        }
        a = a + 1;
    }
    assert forall|x: Seq<char>| #![trigger is_exempt(x, allowed@)]
        (exists|k: int| 0 <= k < allowed_keys.len() && allowed_keys@[k]@ == x) == is_exempt(
            x,
            allowed@,
        ) by {
        assert(key_listed(allowed_keys@, x) == sid_among(allowed@, allowed.len() as int, x));
    }
    let ghost meta = metadata@;
    let ghost wd = opt_view(*windows_directory);
    let mut entries: Vec<UwpLoopbackApp> = Vec::new();
    let mut seen: Vec<String> = Vec::new();
    let mut i: usize = 0;
    assert(containers@.take(0) =~= Seq::<AppContainerRecord>::empty());
    while i < containers.len()
        invariant
            i <= containers.len(),
            meta == metadata@,
            wd == opt_view(*windows_directory),
            forall|x: Seq<char>|
                #![trigger is_exempt(x, allowed@)]
                (exists|k: int| 0 <= k < allowed_keys.len() && allowed_keys@[k]@ == x) == is_exempt(
                    x,
                    allowed@,
                ),
            forall|x: Seq<char>| #[trigger] key_listed(seen@, x) == container_key_among(containers@, i as int, x),
            entries_of(entries@, containers@.take(i as int), meta, allowed@, wd),
        decreases containers.len() - i,
    {
        proof {
            lemma_listed_indices_step(containers@, i as int);
            lemma_listed_indices_bounds(containers@.take(i as int));
        }
        let key = sid_key(&containers[i].sid);
        let ghost before_entries = entries@;
        let ghost seen_before = seen@;
        match key {
            None => {
                assert(!is_listed(containers@, i as int));
            },
            Some(id) => {
                if key_in(&seen, &id) {
                    proof {
                        let x = id@;
                        assert(container_key_among(containers@, i as int, x));
                        let j = choose|j: int|
                            0 <= j < i && sid_key_spec(bytes_view((#[trigger] containers@[j]).sid))
                                == Some(x);
                        assert(!is_listed(containers@, i as int));
                    }
                } else {
                    seen.push(id.clone());
                    proof {
                        assert(!container_key_among(containers@, i as int, id@));
                        assert forall|j: int| 0 <= j < i implies sid_key_spec(
                            bytes_view((#[trigger] containers@[j]).sid),
                        ) != sid_key_spec(bytes_view(containers@[i as int].sid)) by {}
                    }
                    if chars_of(containers[i].name.as_str()).len() > 0 {
                        let ghost idv = id@;
                        let entry = build_entry(
                            id,
                            &containers[i],
                            &metadata,
                            &allowed_keys,
                            allowed,
                            windows_directory,
                        );
                        entries.push(entry);
                        proof {
                            let idx = listed_indices(containers@.take(i + 1));
                            assert(containers@.take(i + 1)[i as int] == containers@[i as int]);
                            assert(idx[before_entries.len() as int] == i);
                            assert(entries@[before_entries.len() as int] == entry);
                            let kk = before_entries.len() as int;
                            assert(app_entry(
                                entries@[kk],
                                sid_key_spec(bytes_view(containers@.take(i + 1)[idx[kk]].sid))->0,
                                containers@.take(i + 1)[idx[kk]],
                                meta,
                                allowed@,
                                wd,
                            ));
                        }
                    }
                    assert(is_listed(containers@, i as int) == (containers@[i as int].name@.len()
                        > 0));
                }
            },
        }
        assert forall|x: Seq<char>| #[trigger] key_listed(seen@, x) == container_key_among(
            containers@,
            i + 1,
            x,
        ) by {
            lemma_container_among_step(containers@, i as int, x);
            if seen@.len() > seen_before.len() {
                lemma_key_listed_push(seen_before, seen@.last(), x);
                assert(seen@ =~= seen_before.push(seen@.last()));
            }
        }
        proof {
            let idx = listed_indices(containers@.take(i + 1));
            assert forall|k: int| 0 <= k < entries@.len() implies app_entry(
                #[trigger] entries@[k],
                sid_key_spec(bytes_view(containers@.take(i + 1)[idx[k]].sid))->0,
                containers@.take(i + 1)[idx[k]],
                meta,
                allowed@,
                wd,
            ) by {
                if k < before_entries.len() {
                    let ib = listed_indices(containers@.take(i as int));
                    assert(entries@[k] == before_entries[k]);
                    assert(idx[k] == ib[k]);
                    assert(0 <= ib[k] < i);
                    assert(containers@.take(i + 1)[idx[k]] == containers@.take(i as int)[ib[k]]);
                }
            }
        }
        i = i + 1;
    }
    assert(containers@.take(containers.len() as int) =~= containers@);
    let ghost unsorted = entries@;
    let sorted = sort_by_name(entries);
    assert(is_listing(
        sorted@,
        meta,
        unsorted,
        containers@,
        packages@,
        allowed@,
        opt_view(*windows_directory),
    ));
    sorted
}

/// `apps` is the ordered list for the containers, where `metadata`
/// describes each package and `entries` are the listed containers' entries.
pub open spec fn is_listing(
    apps: Seq<UwpLoopbackApp>,
    metadata: Seq<PackageMetadata>,
    entries: Seq<UwpLoopbackApp>,
    containers: Seq<AppContainerRecord>,
    packages: Seq<PackageFacts>,
    allowed: Seq<Option<Vec<u8>>>,
    windows_directory: Option<Seq<char>>,
) -> bool {
    &&& metadata.len() == packages.len()
    &&& forall|k: int|
        0 <= k < packages.len() ==> describes(#[trigger] metadata[k], packages[k], windows_directory)
    &&& entries_of(entries, containers, metadata, allowed, windows_directory)
    &&& apps == sorted_by_name(entries)
}

} // verus!

verus! {

/// Where an entry of the new loopback configuration comes from.
#[derive(Debug, Clone, Copy, PartialEq, Eq, Structural)]
pub enum ExemptionEntry {
    /// The configuration entry at this position.
    Existing(usize),
    /// The SID of the app container at this position.
    Container(usize),
}

/// The first container whose SID has the key `id`.
pub open spec fn first_container_with(sids: Seq<Option<Vec<u8>>>, id: Seq<char>) -> Option<int>
    decreases sids.len(),
{
    if sids.len() == 0 {
        None
    } else {
        match first_container_with(sids.drop_last(), id) {
            Some(k) => Some(k),
            None => if sid_key_spec(bytes_view(sids.last())) == Some(id) {
                Some(sids.len() - 1)
            } else {
                None
            },
        }
    }
}

/// The configuration positions kept when `id` is removed.
pub open spec fn kept_entries(config: Seq<Option<Vec<u8>>>, id: Seq<char>) -> Seq<ExemptionEntry>
    decreases config.len(),
{
    if config.len() == 0 {
        seq![]
    } else {
        let before = kept_entries(config.drop_last(), id);
        if sid_key_spec(bytes_view(config.last())) == Some(id) {
            before
        } else {
            before.push(ExemptionEntry::Existing((config.len() - 1) as usize))
        }
    }
}

/// Every configuration position, in order.
pub open spec fn all_entries(n: nat) -> Seq<ExemptionEntry> {
    Seq::new(n, |i: int| ExemptionEntry::Existing(i as usize))
}

/// The change an exemption makes: an error when no container has the SID;
/// `None` when the configuration already says what is asked; otherwise the
/// new configuration, with the container's SID appended or every entry of
/// that SID removed.
pub open spec fn exemption_spec(
    containers: Seq<Option<Vec<u8>>>,
    config: Seq<Option<Vec<u8>>>,
    id: Seq<char>,
    enabled: bool,
) -> Result<Option<Seq<ExemptionEntry>>, Seq<char>> {
    match first_container_with(containers, id) {
        None => Err("UWP app container is no longer installed"@),
        Some(target) => {
            let existing = sid_among(config, config.len() as int, id);
            if !existing && enabled {
                Ok(Some(all_entries(config.len()).push(ExemptionEntry::Container(target as usize))))
            } else if existing && !enabled {
                Ok(Some(kept_entries(config, id)))
            } else {
                Ok(None)
            }
        },
    }
}

/// Decides how the loopback configuration changes when the app container
/// with key `id` is exempted (`enabled`) or not.
pub fn set_uwp_loopback_exemption(
    containers: &Vec<Option<Vec<u8>>>,
    config: &Vec<Option<Vec<u8>>>,
    id: &str,
    enabled: bool,
) -> (result: Result<Option<Vec<ExemptionEntry>>, NativeError>)
    ensures
        match exemption_spec(containers@, config@, id@, enabled) {
            Err(message) => fails_with(result, message),
            Ok(None) => result matches Ok(None),
            Ok(Some(entries)) => result matches Ok(Some(v)) && v@ == entries,
        },
{
    let wanted = id.to_string();
    let mut target: Option<usize> = None;
    let mut i: usize = 0;
    while i < containers.len() && target.is_none()
        invariant
            i <= containers.len(),
            wanted@ == id@,
            match target {
                Some(t) => first_container_with(containers@, id@) == Some(t as int),
                None => first_container_with(containers@.take(i as int), id@) is None,
            },
        decreases containers.len() - i,
    {
        proof {
            assert(containers@.take(i + 1).drop_last() =~= containers@.take(i as int));
        }
        let key = sid_key(&containers[i]);
        let hit = match &key {
            Some(k) => chars_equal(&chars_of(k.as_str()), &chars_of(wanted.as_str())),
            None => false,
        };
        if hit {
            proof {
                assert(first_container_with(containers@.take(i + 1), id@) == Some(i as int));
                lemma_first_container_prefix(containers@, i + 1, id@);
            }
            target = Some(i);
        }
        i = i + 1;
    }
    let target = match target {
        None => {
            proof {
                assert(containers@.take(containers.len() as int) =~= containers@);
            }
            return Err(NativeError::new("UWP app container is no longer installed"));
        },
        Some(t) => t,
    };
    let mut existing = false;
    let mut kept: Vec<ExemptionEntry> = Vec::new();
    let mut all: Vec<ExemptionEntry> = Vec::new();
    let mut j: usize = 0;
    assert(config@.take(0) =~= Seq::<Option<Vec<u8>>>::empty());
    while j < config.len()
        invariant
            j <= config.len(),
            wanted@ == id@,
            existing == sid_among(config@, j as int, id@),
            kept@ == kept_entries(config@.take(j as int), id@),
            all@ == all_entries(j as nat),
        decreases config.len() - j,
    {
        proof {
            assert(config@.take(j + 1).drop_last() =~= config@.take(j as int));
            assert(config@.take(j + 1).last() == config@[j as int]);
            lemma_sid_among_step(config@, j as int, id@);
        }
        let key = sid_key(&config[j]);
        let hit = match &key {
            Some(k) => chars_equal(&chars_of(k.as_str()), &chars_of(wanted.as_str())),
            None => false,
        };
        if hit {
            existing = true;
        } else {
            kept.push(ExemptionEntry::Existing(j));
        }
        all.push(ExemptionEntry::Existing(j));
        assert(all@ =~= all_entries((j + 1) as nat));
        j = j + 1;
    }
    assert(config@.take(config.len() as int) =~= config@);
    if !existing && enabled {
        all.push(ExemptionEntry::Container(target));
        Ok(Some(all))
    } else if existing && !enabled {
        Ok(Some(kept))
    } else {
        Ok(None)
    }
}

proof fn lemma_first_container_prefix(sids: Seq<Option<Vec<u8>>>, n: int, id: Seq<char>)
    requires
        0 <= n <= sids.len(),
        first_container_with(sids.take(n), id) is Some,
    ensures
        first_container_with(sids, id) == first_container_with(sids.take(n), id),
    decreases sids.len(),
{
    if sids.len() == n {
        assert(sids.take(n) =~= sids);
    } else {
        assert(sids.drop_last().take(n) =~= sids.take(n));
        lemma_first_container_prefix(sids.drop_last(), n, id);
    }
}

} // verus!
