//! Release bootstrap, catalog and manifest records, and the rules that decide
//! whether this client accepts them.
use vstd::prelude::*;
use core::cmp::Ordering;
use crate::release_version;
use crate::text;
use crate::winpath;

verus! {

pub const PRODUCT_ID: &'static str = "atlas-dsh-desktop";

pub const PLATFORM: &'static str = "windows";

pub const ARCH: &'static str = "x64";

pub const SHA256_HEX_LENGTH: usize = 64;

/// A published object: its key below the release origin, size and digest.
#[derive(Debug, Clone, PartialEq, Eq)]
pub struct AssetRef {
    pub object_key: String,
    pub bytes: u64,
    pub sha256: String,
}

/// The small record that points a client at the current release manifest.
#[derive(Debug, Clone, PartialEq, Eq)]
pub struct Bootstrap {
    pub schema: u32,
    pub product: String,
    pub platform: String,
    pub arch: String,
    pub release: String,
    pub minimum_launcher: String,
    pub manifest: AssetRef,
    pub catalog: Option<AssetRef>,
}

/// One release listed in a catalog.
#[derive(Debug, Clone, PartialEq, Eq)]
pub struct CatalogRelease {
    pub release: String,
    pub minimum_launcher: String,
    pub manifest: AssetRef,
}

/// The list of published releases for one product and target.
#[derive(Debug, Clone, PartialEq, Eq)]
pub struct ReleaseCatalog {
    pub schema: u32,
    pub product: String,
    pub platform: String,
    pub arch: String,
    pub releases: Vec<CatalogRelease>,
}

/// How to check that an installed component runs.
#[derive(Debug, Clone, PartialEq, Eq)]
pub struct DoctorSpec {
    pub program: String,
    pub args: Vec<String>,
    pub timeout_seconds: u64,
}

/// The doctor timeout used when a manifest gives none.
pub fn default_doctor_timeout() -> (res: u64)
    ensures
        res == 30,
{
    30
}

/// One archive of a release and where it is installed.
#[derive(Debug, Clone, PartialEq, Eq)]
pub struct RuntimeComponent {
    pub id: String,
    pub version: String,
    pub asset: AssetRef,
    pub archive: String,
    pub install_root: String,
    pub doctor: DoctorSpec,
    pub licenses: Vec<String>,
}

/// The full description of one release for one target.
#[derive(Debug, Clone, PartialEq, Eq)]
pub struct ReleaseManifest {
    pub schema: u32,
    pub product: String,
    pub release: String,
    pub platform: String,
    pub arch: String,
    pub minimum_launcher: String,
    pub components: Vec<RuntimeComponent>,
}

/// Why a bootstrap, catalog or manifest is refused.
#[derive(Debug, Clone, PartialEq, Eq)]
pub enum ManifestError {
    UnsupportedBootstrapSchema(u32),
    UnsupportedManifestSchema(u32),
    WrongTarget { field: &'static str },
    EmptyRelease,
    InvalidAsset { field: &'static str, reason: String },
    InvalidComponent(String),
    DuplicateComponent(String),
    EmptyComponents,
}

/// The mathematical form of a `ManifestError`.
pub ghost enum ManifestFault {
    UnsupportedBootstrapSchema(u32),
    UnsupportedManifestSchema(u32),
    WrongTarget(Seq<char>),
    EmptyRelease,
    InvalidAsset(Seq<char>, Seq<char>),
    InvalidComponent(Seq<char>),
    DuplicateComponent(Seq<char>),
    EmptyComponents,
}

impl View for ManifestError {
    type V = ManifestFault;

    open spec fn view(&self) -> ManifestFault {
        match self {
            ManifestError::UnsupportedBootstrapSchema(s) => ManifestFault::UnsupportedBootstrapSchema(*s),
            ManifestError::UnsupportedManifestSchema(s) => ManifestFault::UnsupportedManifestSchema(*s),
            ManifestError::WrongTarget { field } => ManifestFault::WrongTarget(field@),
            ManifestError::EmptyRelease => ManifestFault::EmptyRelease,
            ManifestError::InvalidAsset { field, reason } => ManifestFault::InvalidAsset(
                field@,
                reason@,
            ),
            ManifestError::InvalidComponent(id) => ManifestFault::InvalidComponent(id@),
            ManifestError::DuplicateComponent(id) => ManifestFault::DuplicateComponent(id@),
            ManifestError::EmptyComponents => ManifestFault::EmptyComponents,
        }
    }
}

/// The message of each fault.
pub open spec fn fault_message(f: ManifestFault) -> Seq<char> {
    match f {
        ManifestFault::UnsupportedBootstrapSchema(s) => "bootstrap schema "@ + text::decimal(s as nat) + " is not supported"@,
        ManifestFault::UnsupportedManifestSchema(s) => "manifest schema "@ + text::decimal(s as nat) + " is not supported"@,
        ManifestFault::WrongTarget(field) => field + " does not match this client"@,
        ManifestFault::EmptyRelease => "release is empty"@,
        ManifestFault::InvalidAsset(field, reason) => "asset "@ + field + " is invalid: "@ + reason,
        ManifestFault::InvalidComponent(id) => "component "@ + id + " is invalid"@,
        ManifestFault::DuplicateComponent(id) => "duplicate component id "@ + id,
        ManifestFault::EmptyComponents => "manifest has no components"@,
    }
}

impl ManifestError {
    /// The message shown for this error.
    pub fn message(&self) -> (res: String)
        ensures
            res@ == fault_message(self@),
    {
        match self {
            ManifestError::UnsupportedBootstrapSchema(s) => {
                let mut res = String::from_str("bootstrap schema ");
                let n = text::decimal_string(*s as u64);
                res.append(n.as_str());
                res.append(" is not supported");
                res
            },
            ManifestError::UnsupportedManifestSchema(s) => {
                let mut res = String::from_str("manifest schema ");
                let n = text::decimal_string(*s as u64);
                res.append(n.as_str());
                res.append(" is not supported");
                res
            },
            ManifestError::WrongTarget { field } => {
                let mut res = String::from_str(field);
                res.append(" does not match this client");
                res
            },
            ManifestError::EmptyRelease => String::from_str("release is empty"),
            ManifestError::InvalidAsset { field, reason } => {
                let mut res = String::from_str("asset ");
                res.append(field);
                res.append(" is invalid: ");
                res.append(reason.as_str());
                res
            },
            ManifestError::InvalidComponent(id) => {
                let mut res = String::from_str("component ");
                res.append(id.as_str());
                res.append(" is invalid");
                res
            },
            ManifestError::DuplicateComponent(id) => {
                let mut res = String::from_str("duplicate component id ");
                res.append(id.as_str());
                res
            },
            ManifestError::EmptyComponents => String::from_str("manifest has no components"),
        }
    }
}

/// `res` is `Ok` when there is no fault, and otherwise the error for it.
pub open spec fn reports(res: Result<(), ManifestError>, fault: Option<ManifestFault>) -> bool {
    match fault {
        None => res is Ok,
        Some(f) => res matches Err(e) && e@ == f,
    }
}

/// The first fault among the checks `f(i)` for `i` in `start..end`.
pub open spec fn first_fault(
    f: spec_fn(int) -> Option<ManifestFault>,
    start: int,
    end: int,
) -> Option<ManifestFault>
    decreases end - start,
{
    if start >= end {
        None
    } else {
        match f(start) {
            Some(e) => Some(e),
            None => first_fault(f, start + 1, end),
        }
    }
}

pub proof fn lemma_first_fault_skip(f: spec_fn(int) -> Option<ManifestFault>, i: int, n: int)
    requires
        0 <= i <= n,
        forall|k: int| 0 <= k < i ==> (#[trigger] f(k)) is None,
    ensures
        first_fault(f, 0, n) == first_fault(f, i, n),
    decreases i,
{
    if i > 0 {
        lemma_first_fault_skip(f, i - 1, n);
    }
}

/// The fault of a product, platform and architecture that are not this client's.
pub open spec fn target_fault(product: Seq<char>, platform: Seq<char>, arch: Seq<char>) -> Option<
    ManifestFault,
> {
    if product != PRODUCT_ID@ {
        Some(ManifestFault::WrongTarget("product"@))
    } else if platform != PLATFORM@ {
        Some(ManifestFault::WrongTarget("platform"@))
    } else if arch != ARCH@ {
        Some(ManifestFault::WrongTarget("arch"@))
    } else {
        None
    }
}

/// A character allowed in a release name: ASCII letter, digit, `.` or `-`.
pub open spec fn release_char(c: char) -> bool {
    text::is_alnum(c) || c == '.' || c == '-'
}

/// A release name is refused when it is blank, starts or ends with `.` or
/// `-`, holds `..` or another character than letters, digits, `.` and `-`, or
/// is not a readable version.
pub open spec fn release_invalid(s: Seq<char>) -> bool {
    ||| text::blank(s)
    ||| (s.len() > 0 && (s[0] == '.' || s[0] == '-'))
    ||| (s.len() > 0 && (s.last() == '.' || s.last() == '-'))
    ||| (exists|i: int| 0 <= i < s.len() - 1 && s[i] == '.' && #[trigger] s[i + 1] == '.')
    ||| !(forall|i: int| 0 <= i < s.len() ==> release_char(#[trigger] s[i]))
    ||| release_version::version_order(s, "0.0.0"@) is Err
}

/// The fault of an asset reference, named by `field`.
pub open spec fn asset_fault(a: AssetRef, field: Seq<char>) -> Option<ManifestFault> {
    if a.bytes == 0 {
        Some(ManifestFault::InvalidAsset(field, "bytes must be positive"@))
    } else if !winpath::safe_relative(a.object_key@) {
        Some(ManifestFault::InvalidAsset(field, "object key is not a safe relative path"@))
    } else if !(a.sha256@.len() == SHA256_HEX_LENGTH && forall|i: int|
        0 <= i < a.sha256@.len() ==> text::is_hex(#[trigger] a.sha256@[i])) {
        Some(ManifestFault::InvalidAsset(field, "sha256 must be 64 hexadecimal characters"@))
    } else {
        None
    }
}

/// The fault of a bootstrap record, if any, in the order the checks run.
pub open spec fn bootstrap_fault(b: Bootstrap) -> Option<ManifestFault> {
    if b.schema != 1 {
        Some(ManifestFault::UnsupportedBootstrapSchema(b.schema))
    } else if target_fault(b.product@, b.platform@, b.arch@) is Some {
        target_fault(b.product@, b.platform@, b.arch@)
    } else if release_invalid(b.release@) {
        Some(ManifestFault::EmptyRelease)
    } else if asset_fault(b.manifest, "manifest"@) is Some {
        asset_fault(b.manifest, "manifest"@)
    } else {
        match b.catalog {
            Some(c) => asset_fault(c, "catalog"@),
            None => None,
        }
    }
}

/// The fault of the catalog entry at `i`, given the entries before it.
pub open spec fn catalog_entry_fault(entries: Seq<CatalogRelease>, i: int) -> Option<ManifestFault> {
    let e = entries[i];
    if release_invalid(e.release@) || release_invalid(e.minimum_launcher@) {
        Some(ManifestFault::EmptyRelease)
    } else if asset_fault(e.manifest, "catalog manifest"@) is Some {
        asset_fault(e.manifest, "catalog manifest"@)
    } else if exists|j: int| 0 <= j < i && (#[trigger] entries[j]).release@ == e.release@ {
        Some(ManifestFault::DuplicateComponent(e.release@))
    } else {
        None
    }
}

/// The fault of a catalog, if any, in the order the checks run.
pub open spec fn catalog_fault(c: ReleaseCatalog) -> Option<ManifestFault> {
    if c.schema != 1 {
        Some(ManifestFault::UnsupportedManifestSchema(c.schema))
    } else if target_fault(c.product@, c.platform@, c.arch@) is Some {
        target_fault(c.product@, c.platform@, c.arch@)
    } else if c.releases@.len() == 0 {
        Some(ManifestFault::EmptyComponents)
    } else {
        first_fault(|i: int| catalog_entry_fault(c.releases@, i), 0, c.releases@.len() as int)
    }
}

/// A component that cannot be installed or checked as described.
pub open spec fn component_invalid(c: RuntimeComponent) -> bool {
    ||| text::blank(c.id@)
    ||| text::blank(c.version@)
    ||| c.archive@ != "zip"@
    ||| (c.install_root@.len() > 0 && !winpath::safe_relative(c.install_root@))
    ||| !winpath::safe_relative(c.doctor.program@)
    ||| c.doctor.timeout_seconds == 0
    ||| exists|k: int|
        0 <= k < c.doctor.args@.len() && text::has_char(#[trigger] c.doctor.args@[k]@, '\0')
}

/// The fault of the component at `i`, given the components before it.
pub open spec fn component_fault(components: Seq<RuntimeComponent>, i: int) -> Option<ManifestFault> {
    let c = components[i];
    if component_invalid(c) {
        Some(ManifestFault::InvalidComponent(c.id@))
    } else if asset_fault(c.asset, "component asset"@) is Some {
        asset_fault(c.asset, "component asset"@)
    } else if exists|j: int| 0 <= j < i && (#[trigger] components[j]).id@ == c.id@ {
        Some(ManifestFault::DuplicateComponent(c.id@))
    } else {
        None
    }
}

/// The fault of a release manifest, if any, in the order the checks run.
pub open spec fn manifest_fault(m: ReleaseManifest) -> Option<ManifestFault> {
    if m.schema != 1 {
        Some(ManifestFault::UnsupportedManifestSchema(m.schema))
    } else if target_fault(m.product@, m.platform@, m.arch@) is Some {
        target_fault(m.product@, m.platform@, m.arch@)
    } else if release_invalid(m.release@) {
        Some(ManifestFault::EmptyRelease)
    } else if m.components@.len() == 0 {
        Some(ManifestFault::EmptyComponents)
    } else {
        first_fault(|i: int| component_fault(m.components@, i), 0, m.components@.len() as int)
    }
}

proof fn lemma_first_fault_found(f: spec_fn(int) -> Option<ManifestFault>, start: int, end: int, k: int)
    requires
        start <= k < end,
        f(k) is Some,
    ensures
        first_fault(f, start, end) is Some,
    decreases k - start,
{
    if start < k && f(start) is None {
        lemma_first_fault_found(f, start + 1, end, k);
    }
}

/// Only ZIP archives are installable: a release manifest with a component
/// whose archive is not `zip` is refused.
pub proof fn non_zip_component_refused(m: ReleaseManifest, k: int)
    requires
        0 <= k < m.components@.len(),
        m.components@[k].archive@ != "zip"@,
    ensures
        manifest_fault(m) is Some,
{
    if m.schema == 1 && target_fault(m.product@, m.platform@, m.arch@) is None && !release_invalid(m.release@) {
        let f = |i: int| component_fault(m.components@, i);
        assert(f(k) is Some);
        lemma_first_fault_found(f, 0, m.components@.len() as int, k);
    }
}

/// In a manifest whose header is sound, the first component whose archive is
/// not `zip`, after components that are all sound, is refused as an invalid
/// component under its own id.
pub proof fn non_zip_component_named(m: ReleaseManifest, k: int)
    requires
        0 <= k < m.components@.len(),
        m.components@[k].archive@ != "zip"@,
        m.schema == 1,
        target_fault(m.product@, m.platform@, m.arch@) is None,
        !release_invalid(m.release@),
        forall|j: int| 0 <= j < k ==> (#[trigger] component_fault(m.components@, j)) is None,
    ensures
        manifest_fault(m) == Some(ManifestFault::InvalidComponent(m.components@[k].id@)),
{
    let f = |i: int| component_fault(m.components@, i);
    assert forall|j: int| 0 <= j < k implies (#[trigger] f(j)) is None by {
        assert(component_fault(m.components@, j) is None);
    }
    lemma_first_fault_skip(f, k, m.components@.len() as int);
    assert(f(k) == Some(ManifestFault::InvalidComponent(m.components@[k].id@)));
}

/// A placeholder bootstrap: an empty manifest whose digest is all zeros.
pub open spec fn placeholder(b: Bootstrap) -> bool {
    b.manifest.bytes == 0 && forall|i: int|
        0 <= i < b.manifest.sha256@.len() ==> #[trigger] b.manifest.sha256@[i] == '0'
}

impl Bootstrap {
    /// Accepts this record only if it targets this client and names a valid
    /// release and valid assets.
    pub fn validate(&self) -> (res: Result<(), ManifestError>)
        ensures
            reports(res, bootstrap_fault(*self)),
    {
        if self.schema != 1 {
            return Err(ManifestError::UnsupportedBootstrapSchema(self.schema));
        }
        validate_target(&self.product, &self.platform, &self.arch)?;
        validate_release(&self.release)?;
        validate_asset(&self.manifest, "manifest")?;
        if let Some(catalog) = &self.catalog {
            validate_asset(catalog, "catalog")?;
        }
        Ok(())
    }

    /// The record is the unpublished placeholder shipped before a first release.
    pub fn is_placeholder(&self) -> (res: bool)
        ensures
            res == placeholder(*self),
    {
        if self.manifest.bytes != 0 {
            return false;
        }
        let v = text::chars_of(self.manifest.sha256.as_str());
        let mut i: usize = 0;
        while i < v.len()
            invariant
                i <= v.len(),
                v@ == self.manifest.sha256@,
                forall|k: int| 0 <= k < i ==> v@[k] == '0',
            decreases v.len() - i,
        {
            if v[i] != '0' {
                return false;
            }
            i = i + 1;
        }
        true
    }
}

impl ReleaseCatalog {
    /// Accepts the catalog only if it targets this client, lists at least one
    /// release, and every entry is valid and names a release not listed before.
    pub fn validate(&self) -> (res: Result<(), ManifestError>)
        ensures
            reports(res, catalog_fault(*self)),
    {
        if self.schema != 1 {
            return Err(ManifestError::UnsupportedManifestSchema(self.schema));
        }
        validate_target(&self.product, &self.platform, &self.arch)?;
        if self.releases.len() == 0 {
            return Err(ManifestError::EmptyComponents);
        }
        let ghost f = |i: int| catalog_entry_fault(self.releases@, i);
        let n = self.releases.len();
        let mut i: usize = 0;
        while i < n
            invariant
                n == self.releases@.len(),
                i <= n,
                self.schema == 1,
                target_fault(self.product@, self.platform@, self.arch@) is None,
                f == (|i: int| catalog_entry_fault(self.releases@, i)),
                forall|k: int| 0 <= k < i ==> (#[trigger] f(k)) is None,
            decreases n - i,
        {
            let entry = &self.releases[i];
            proof {
                lemma_first_fault_skip(f, i as int, n as int);
            }
            validate_release(&entry.release)?;
            validate_release(&entry.minimum_launcher)?;
            validate_asset(&entry.manifest, "catalog manifest")?;
            if earlier_release(&self.releases, i) {
                return Err(ManifestError::DuplicateComponent(entry.release.clone()));
            }
            i = i + 1;
        }
        proof {
            lemma_first_fault_skip(f, n as int, n as int);
        }
        Ok(())
    }
}

impl ReleaseManifest {
    /// Accepts the manifest only if it targets this client, names a valid
    /// release, lists at least one component, and every component is
    /// installable, has a valid asset and an id not used before.
    pub fn validate(&self) -> (res: Result<(), ManifestError>)
        ensures
            reports(res, manifest_fault(*self)),
            (exists|k: int| 0 <= k < self.components@.len() && (#[trigger] self.components@[k]).archive@ != "zip"@)
                ==> res is Err,
            self.schema == 1 && target_fault(self.product@, self.platform@, self.arch@) is None
                && !release_invalid(self.release@) && self.components@.len() > 0
                && self.components@[0].archive@ != "zip"@
                ==> (res matches Err(e) && e@ == ManifestFault::InvalidComponent(self.components@[0].id@)),
    {
        proof {
            if self.schema == 1 && target_fault(self.product@, self.platform@, self.arch@) is None
                && !release_invalid(self.release@) && self.components@.len() > 0
                && self.components@[0].archive@ != "zip"@ {
                non_zip_component_named(*self, 0);
            }
            if exists|k: int| 0 <= k < self.components@.len() && (#[trigger] self.components@[k]).archive@ != "zip"@ {
                let k = choose|k: int| 0 <= k < self.components@.len() && (#[trigger] self.components@[k]).archive@ != "zip"@;
                non_zip_component_refused(*self, k);
            }
        }
        if self.schema != 1 {
            return Err(ManifestError::UnsupportedManifestSchema(self.schema));
        }
        validate_target(&self.product, &self.platform, &self.arch)?;
        validate_release(&self.release)?;
        if self.components.len() == 0 {
            return Err(ManifestError::EmptyComponents);
        }
        let ghost f = |i: int| component_fault(self.components@, i);
        let n = self.components.len();
        let mut i: usize = 0;
        while i < n
            invariant
                n == self.components@.len(),
                i <= n,
                self.schema == 1,
                target_fault(self.product@, self.platform@, self.arch@) is None,
                !release_invalid(self.release@),
                f == (|i: int| component_fault(self.components@, i)),
                forall|k: int| 0 <= k < i ==> (#[trigger] f(k)) is None,
            decreases n - i,
        {
            let component = &self.components[i];
            proof {
                lemma_first_fault_skip(f, i as int, n as int);
            }
            if component_is_invalid(component) {
                return Err(ManifestError::InvalidComponent(component.id.clone()));
            }
            validate_asset(&component.asset, "component asset")?;
            if earlier_component(&self.components, i) {
                return Err(ManifestError::DuplicateComponent(component.id.clone()));
            }
            i = i + 1;
        }
        proof {
            lemma_first_fault_skip(f, n as int, n as int);
        }
        Ok(())
    }
}

/// Some entry before `i` names the same release as entry `i`.
fn earlier_release(entries: &Vec<CatalogRelease>, i: usize) -> (res: bool)
    requires
        i < entries@.len(),
    ensures
        res == exists|j: int| 0 <= j < i && (#[trigger] entries@[j]).release@ == entries@[i as int].release@,
{
    let mut j: usize = 0;
    while j < i
        invariant
            i < entries@.len(),
            j <= i,
            forall|k: int| 0 <= k < j ==> (#[trigger] entries@[k]).release@ != entries@[i as int].release@,
        decreases i - j,
    {
        if entries[j].release == entries[i].release {
            assert(entries@[j as int].release@ == entries@[i as int].release@);
            return true;
        }
        j = j + 1;
    }
    false
}

/// Some component before `i` has the same id as component `i`.
fn earlier_component(components: &Vec<RuntimeComponent>, i: usize) -> (res: bool)
    requires
        i < components@.len(),
    ensures
        res == exists|j: int| 0 <= j < i && (#[trigger] components@[j]).id@ == components@[i as int].id@,
{
    let mut j: usize = 0;
    while j < i
        invariant
            i < components@.len(),
            j <= i,
            forall|k: int| 0 <= k < j ==> (#[trigger] components@[k]).id@ != components@[i as int].id@,
        decreases i - j,
    {
        if components[j].id == components[i].id {
            assert(components@[j as int].id@ == components@[i as int].id@);
            return true;
        }
        j = j + 1;
    }
    false
}

/// `component_invalid`, computed.
fn component_is_invalid(c: &RuntimeComponent) -> (res: bool)
    ensures
        res == component_invalid(*c),
{
    if text::is_blank(c.id.as_str()) || text::is_blank(c.version.as_str()) {
        return true;
    }
    if !text::str_eq(c.archive.as_str(), "zip") {
        return true;
    }
    if !c.install_root.as_str().is_empty() && !is_safe_relative_path(c.install_root.as_str()) {
        return true;
    }
    if !is_safe_relative_path(c.doctor.program.as_str()) {
        return true;
    }
    if c.doctor.timeout_seconds == 0 {
        return true;
    }
    let mut k: usize = 0;
    while k < c.doctor.args.len()
        invariant
            k <= c.doctor.args@.len(),
            forall|j: int| 0 <= j < k ==> !text::has_char(#[trigger] c.doctor.args@[j]@, '\0'),
        decreases c.doctor.args@.len() - k,
    {
        if text::contains_char(c.doctor.args[k].as_str(), '\0') {
            return true;
        }
        k = k + 1;
    }
    false
}

/// Refuses a record made for another product, platform or architecture.
pub fn validate_target(product: &str, platform: &str, arch: &str) -> (res: Result<(), ManifestError>)
    ensures
        reports(res, target_fault(product@, platform@, arch@)),
{
    if !text::str_eq(product, PRODUCT_ID) {
        return Err(ManifestError::WrongTarget { field: "product" });
    }
    if !text::str_eq(platform, PLATFORM) {
        return Err(ManifestError::WrongTarget { field: "platform" });
    }
    if !text::str_eq(arch, ARCH) {
        return Err(ManifestError::WrongTarget { field: "arch" });
    }
    Ok(())
}

/// The character-level part of `release_invalid`.
fn release_text_invalid(v: &Vec<char>) -> (res: bool)
    ensures
        res == (text::blank(v@) || (v@.len() > 0 && (v@[0] == '.' || v@[0] == '-')) || (v@.len()
            > 0 && (v@.last() == '.' || v@.last() == '-')) || (exists|i: int|
            0 <= i < v@.len() - 1 && v@[i] == '.' && #[trigger] v@[i + 1] == '.') || !(forall|
            i: int,
        | 0 <= i < v@.len() ==> release_char(#[trigger] v@[i]))),
{
    let n = v.len();
    let mut blank = true;
    let mut i: usize = 0;
    while i < n
        invariant
            n == v.len(),
            i <= n,
            blank == (forall|k: int| 0 <= k < i ==> text::is_white(#[trigger] v@[k])),
        decreases n - i,
    {
        blank = blank && text::white(v[i]);
        i = i + 1;
    }
    if blank {
        return true;
    }
    if v[0] == '.' || v[0] == '-' || v[n - 1] == '.' || v[n - 1] == '-' {
        return true;
    }
    let mut i: usize = 0;
    while i < n
        invariant
            n == v.len(),
            i <= n,
            forall|k: int| 0 <= k < i ==> release_char(#[trigger] v@[k]),
            forall|k: int| 0 <= k < i && k + 1 < n ==> !(v@[k] == '.' && #[trigger] v@[k + 1] == '.'),
        decreases n - i,
    {
        let c = v[i];
        if !(text::alnum(c) || c == '.' || c == '-') {
            return true;
        }
        if i + 1 < n && c == '.' && v[i + 1] == '.' {
            return true;
        }
        i = i + 1;
    }
    false
}

/// Refuses a release name that is not a plain readable version.
pub fn validate_release(release: &str) -> (res: Result<(), ManifestError>)
    ensures
        reports(
            res,
            if release_invalid(release@) {
                Some(ManifestFault::EmptyRelease)
            } else {
                None
            },
        ),
{
    let v = text::chars_of(release);
    if release_text_invalid(&v) {
        return Err(ManifestError::EmptyRelease);
    }
    let zero = text::chars_of("0.0.0");
    if release_version::order_versions(&v, &zero).is_err() {
        return Err(ManifestError::EmptyRelease);
    }
    Ok(())
}

/// -1, 0 or 1 for `Less`, `Equal` or `Greater`.
pub open spec fn order_value(o: Ordering) -> int {
    match o {
        Ordering::Less => -1,
        Ordering::Equal => 0,
        Ordering::Greater => 1,
    }
}

/// Orders two release versions by precedence (see `version_order`): the three
/// numbers first, a release after its prereleases, prerelease parts one by one.
/// The error names the first version, or prerelease part, that cannot be read.
pub fn compare_versions(left: &str, right: &str) -> (res: Result<Ordering, String>)
    ensures
        match release_version::version_order(left@, right@) {
            Ok(o) => res matches Ok(x) && order_value(x) == o,
            Err(e) => res matches Err(m) && m@ == e,
        },
{
    let v = text::chars_of(left);
    let w = text::chars_of(right);
    proof {
        release_version::lemma_version_order_range(left@, right@);
    }
    match release_version::order_versions(&v, &w) {
        Ok(x) => {
            if x < 0 {
                Ok(Ordering::Less)
            } else if x > 0 {
                Ok(Ordering::Greater)
            } else {
                Ok(Ordering::Equal)
            }
        },
        Err(e) => Err(e),
    }
}

/// Refuses an asset with no bytes, an unsafe object key or a malformed digest.
pub fn validate_asset(asset: &AssetRef, field: &'static str) -> (res: Result<(), ManifestError>)
    ensures
        reports(res, asset_fault(*asset, field@)),
{
    if asset.bytes == 0 {
        return Err(
            ManifestError::InvalidAsset { field, reason: String::from_str("bytes must be positive") },
        );
    }
    if !is_safe_relative_path(asset.object_key.as_str()) {
        return Err(
            ManifestError::InvalidAsset {
                field,
                reason: String::from_str("object key is not a safe relative path"),
            },
        );
    }
    let v = text::chars_of(asset.sha256.as_str());
    let mut ok = v.len() == SHA256_HEX_LENGTH;
    let mut i: usize = 0;
    while i < v.len()
        invariant
            i <= v.len(),
            v@ == asset.sha256@,
            ok == (v@.len() == SHA256_HEX_LENGTH && forall|k: int|
                0 <= k < i ==> text::is_hex(#[trigger] v@[k])),
        decreases v.len() - i,
    {
        ok = ok && text::hex(v[i]);
        i = i + 1;
    }
    if !ok {
        return Err(
            ManifestError::InvalidAsset {
                field,
                reason: String::from_str("sha256 must be 64 hexadecimal characters"),
            },
        );
    }
    Ok(())
}

/// A non-empty path without NUL made only of ordinary components, so that it
/// stays below whatever directory it is joined to.
pub fn is_safe_relative_path(value: &str) -> (res: bool)
    ensures
        res == winpath::safe_relative(value@),
{
    let v = text::chars_of(value);
    winpath::safe_relative_vec(&v)
}

} // verus!
