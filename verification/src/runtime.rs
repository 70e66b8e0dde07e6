//! The private Harness runtime copies of this installation, the update
//! settings, and the decisions about which copy to run, stage or install.
use vstd::prelude::*;
use std::collections::BTreeMap;
use std::path::PathBuf;
use crate::address;
use crate::official;
use crate::text;
use crate::winpath;

verus! {

broadcast use vstd::seq_lib::group_to_multiset_ensures;

/// The schema of the copy records this launcher writes and reads.
pub const SCHEMA: u32 = 2;

/// A JSON value from `serde_json`, carried through the settings unread.
#[verifier::external_type_specification]
#[verifier::external_body]
pub struct ExJsonValue(serde_json::Value);

/// A filesystem path, carried through unread.
#[verifier::external_type_specification]
#[verifier::external_body]
pub struct ExPathBuf(std::path::PathBuf);

/// Where a prepared copy came from.
#[derive(Debug, Clone, Copy, PartialEq, Eq, Structural)]
pub enum RuntimeSource {
    Local,
    Oss,
    Npm,
}

impl Default for RuntimeSource {
    fn default() -> (res: RuntimeSource)
        ensures
            res == RuntimeSource::Oss,
    {
        RuntimeSource::Oss
    }
}

/// The label shown for a copy's source.
pub open spec fn source_label(s: RuntimeSource) -> Seq<char> {
    match s {
        RuntimeSource::Local => "本地副本"@,
        RuntimeSource::Oss => "旧 OSS 副本"@,
        RuntimeSource::Npm => "官方 npm"@,
    }
}

impl RuntimeSource {
    /// The label shown for this source.
    pub fn label(self) -> (res: &'static str)
        ensures
            res@ == source_label(self),
    {
        match self {
            RuntimeSource::Local => "本地副本",
            RuntimeSource::Oss => "旧 OSS 副本",
            RuntimeSource::Npm => "官方 npm",
        }
    }
}

/// Which sources an update check consults.
#[derive(Debug, Clone, Copy, PartialEq, Eq, Structural)]
pub enum UpdateSourcePolicy {
    Auto,
    Local,
    Oss,
    Npm,
}

impl Default for UpdateSourcePolicy {
    fn default() -> (res: UpdateSourcePolicy)
        ensures
            res == UpdateSourcePolicy::Auto,
    {
        UpdateSourcePolicy::Auto
    }
}

/// The label shown for an update source policy.
pub open spec fn policy_label(p: UpdateSourcePolicy) -> Seq<char> {
    match p {
        UpdateSourcePolicy::Auto => "自动选择"@,
        UpdateSourcePolicy::Local => "仅本机已下载的版本"@,
        UpdateSourcePolicy::Oss => "仅旧版安装缓存"@,
        UpdateSourcePolicy::Npm => "官方软件源"@,
    }
}

impl UpdateSourcePolicy {
    /// The label shown for this policy.
    pub fn label(self) -> (res: &'static str)
        ensures
            res@ == policy_label(self),
    {
        match self {
            UpdateSourcePolicy::Auto => "自动选择",
            UpdateSourcePolicy::Local => "仅本机已下载的版本",
            UpdateSourcePolicy::Oss => "仅旧版安装缓存",
            UpdateSourcePolicy::Npm => "官方软件源",
        }
    }
}

/// The policy consults the copies already on this machine.
pub open spec fn scans_local(p: UpdateSourcePolicy) -> bool {
    p == UpdateSourcePolicy::Auto || p == UpdateSourcePolicy::Local || p == UpdateSourcePolicy::Oss
}

/// The policy consults the official npm registry.
pub open spec fn queries_npm(p: UpdateSourcePolicy) -> bool {
    p == UpdateSourcePolicy::Auto || p == UpdateSourcePolicy::Npm
}

/// `scans_local`, computed.
pub fn consults_local(p: UpdateSourcePolicy) -> (res: bool)
    ensures
        res == scans_local(p),
{
    p == UpdateSourcePolicy::Auto || p == UpdateSourcePolicy::Local || p == UpdateSourcePolicy::Oss
}

/// `queries_npm`, computed.
pub fn consults_npm(p: UpdateSourcePolicy) -> (res: bool)
    ensures
        res == queries_npm(p),
{
    p == UpdateSourcePolicy::Auto || p == UpdateSourcePolicy::Npm
}

/// Where npm updates come from.
#[derive(Debug, Clone, PartialEq, Eq)]
pub struct NpmUpdateSettings {
    pub registry: String,
    pub package: String,
}

/// The official registry address.
pub fn default_registry() -> (res: String)
    ensures
        res@ == official::REGISTRY@,
{
    String::from_str(official::REGISTRY)
}

/// The official package name.
pub fn default_package() -> (res: String)
    ensures
        res@ == official::PACKAGE@,
{
    String::from_str(official::PACKAGE)
}

impl Default for NpmUpdateSettings {
    fn default() -> (res: NpmUpdateSettings)
        ensures
            res.registry@ == official::REGISTRY@,
            res.package@ == official::PACKAGE@,
    {
        NpmUpdateSettings { registry: default_registry(), package: default_package() }
    }
}

/// The user's update preferences; `other` keeps fields this launcher does
/// not read, so that saving does not drop them.
#[derive(Debug, Clone, PartialEq)]
pub struct RuntimeUpdateSettings {
    pub source: UpdateSourcePolicy,
    pub version: Option<String>,
    pub npm: NpmUpdateSettings,
    pub other: BTreeMap<String, serde_json::Value>,
}

impl Default for RuntimeUpdateSettings {
    fn default() -> (res: RuntimeUpdateSettings)
        ensures
            res.source == UpdateSourcePolicy::Auto,
            res.version is None,
            res.npm.registry@ == official::REGISTRY@,
            res.npm.package@ == official::PACKAGE@,
    {
        RuntimeUpdateSettings {
            source: UpdateSourcePolicy::Auto,
            version: None,
            npm: NpmUpdateSettings::default(),
            other: BTreeMap::new(),
        }
    }
}

/// The view of an optional string.
pub open spec fn opt_view(o: Option<String>) -> Option<Seq<char>> {
    match o {
        Some(s) => Some(s@),
        None => None,
    }
}

/// Why settings are refused, if they are.
pub open spec fn settings_fault(s: RuntimeUpdateSettings) -> Option<Seq<char>> {
    if s.version matches Some(v) && !official::semver_valid(v@) {
        Some(text::caused("固定版本格式无效"@, official::semver_error(s.version.unwrap()@)))
    } else if address::url_parse(s.npm.registry@) is Err {
        Some(text::caused("npm 来源地址无效"@, address::url_parse(s.npm.registry@)->Err_0))
    } else if address::url_parse(s.npm.registry@)->Ok_0.1 is None {
        Some("npm 来源地址缺少主机"@)
    } else if s.npm.package@ != official::PACKAGE@ {
        Some("仅管理官方 @deepseek-ai/dsh 包"@)
    } else {
        None
    }
}

/// `res` is `Ok` when there is no fault, and otherwise carries its text.
pub open spec fn refuses(res: Result<(), String>, fault: Option<Seq<char>>) -> bool {
    match fault {
        None => res is Ok,
        Some(m) => res matches Err(e) && e@ == m,
    }
}

impl RuntimeUpdateSettings {
    /// Accepts settings whose pinned version is a valid semantic version,
    /// whose registry is a URL with a host, and that name the official package.
    pub fn validate(&self) -> (res: Result<(), String>)
        ensures
            refuses(res, settings_fault(*self)),
    {
        if let Some(version) = &self.version {
            if let Err(cause) = official::parse_semver(version.as_str()) {
                return Err(text::with_cause("固定版本格式无效", cause.as_str()));
            }
        }
        let registry = address::parse_url(self.npm.registry.as_str());
        match registry {
            Err(cause) => {
                return Err(text::with_cause("npm 来源地址无效", cause.as_str()));
            },
            Ok(url) => {
                if url.host.is_none() {
                    return Err(String::from_str("npm 来源地址缺少主机"));
                }
            },
        }
        if !text::str_eq(self.npm.package.as_str(), official::PACKAGE) {
            return Err(String::from_str("仅管理官方 @deepseek-ai/dsh 包"));
        }
        Ok(())
    }
}

/// A prepared position in this installation, not a certification of upstream bytes.
#[derive(Debug, Clone, PartialEq, Eq)]
pub struct RuntimeCopy {
    pub schema: u32,
    pub location: String,
    pub release: String,
    pub harness_version: Option<String>,
    pub source: RuntimeSource,
    pub publisher: String,
    pub registry: Option<String>,
}

/// The mathematical form of a `RuntimeCopy`.
pub ghost struct CopyView {
    pub schema: u32,
    pub location: Seq<char>,
    pub release: Seq<char>,
    pub harness_version: Option<Seq<char>>,
    pub source: RuntimeSource,
    pub publisher: Seq<char>,
    pub registry: Option<Seq<char>>,
}

impl View for RuntimeCopy {
    type V = CopyView;

    open spec fn view(&self) -> CopyView {
        CopyView {
            schema: self.schema,
            location: self.location@,
            release: self.release@,
            harness_version: opt_view(self.harness_version),
            source: self.source,
            publisher: self.publisher@,
            registry: opt_view(self.registry),
        }
    }
}

/// A copy of an optional string.
pub fn copy_opt(o: &Option<String>) -> (res: Option<String>)
    ensures
        opt_view(res) == opt_view(*o),
{
    match o {
        Some(s) => Some(s.clone()),
        None => None,
    }
}

/// Two optional strings hold the same text.
pub fn same_opt(a: &Option<String>, b: &Option<String>) -> (res: bool)
    ensures
        res == (opt_view(*a) == opt_view(*b)),
{
    match (a, b) {
        (Some(x), Some(y)) => *x == *y,
        (None, None) => true,
        _ => false,
    }
}

/// The label of a copy's Harness version.
pub open spec fn version_label_of(c: CopyView) -> Seq<char> {
    match c.harness_version {
        Some(v) => v,
        None => "未知"@,
    }
}

impl RuntimeCopy {
    /// The Harness version of this copy, or `未知` when it is not known.
    pub fn version_label(&self) -> (res: &str)
        ensures
            res@ == version_label_of(self@),
    {
        match &self.harness_version {
            Some(v) => v.as_str(),
            None => "未知",
        }
    }

    /// A copy of this record.
    pub fn duplicate(&self) -> (res: RuntimeCopy)
        ensures
            res@ == self@,
    {
        RuntimeCopy {
            schema: self.schema,
            location: self.location.clone(),
            release: self.release.clone(),
            harness_version: copy_opt(&self.harness_version),
            source: self.source,
            publisher: self.publisher.clone(),
            registry: copy_opt(&self.registry),
        }
    }

    /// The two records are equal field by field.
    pub fn same_as(&self, other: &RuntimeCopy) -> (res: bool)
        ensures
            res == (self@ == other@),
    {
        self.schema == other.schema && self.location == other.location && self.release
            == other.release && same_opt(&self.harness_version, &other.harness_version)
            && self.source == other.source && self.publisher == other.publisher && same_opt(
            &self.registry,
            &other.registry,
        )
    }
}

/// A copy ready to start: its root, record, bridge patch and user data home.
#[derive(Debug)]
pub struct PreparedRuntime {
    pub root: PathBuf,
    pub copy: RuntimeCopy,
    pub bridge_patch: PathBuf,
    pub data_home: PathBuf,
}

/// A version that an update could move to, and where it would come from.
#[derive(Debug, Clone, PartialEq, Eq)]
pub struct AvailableUpdate {
    pub version: String,
    pub source: RuntimeSource,
    pub registry: Option<String>,
    pub local_copy: Option<RuntimeCopy>,
}

/// The mathematical form of an `AvailableUpdate`.
pub ghost struct TargetView {
    pub version: Seq<char>,
    pub source: RuntimeSource,
    pub registry: Option<Seq<char>>,
    pub local_copy: Option<CopyView>,
}

impl View for AvailableUpdate {
    type V = TargetView;

    open spec fn view(&self) -> TargetView {
        TargetView {
            version: self.version@,
            source: self.source,
            registry: opt_view(self.registry),
            local_copy: match self.local_copy {
                Some(c) => Some(c@),
                None => None,
            },
        }
    }
}

/// The views of a list of update targets.
pub open spec fn target_views(v: Seq<AvailableUpdate>) -> Seq<TargetView> {
    v.map_values(|t: AvailableUpdate| t@)
}

impl AvailableUpdate {
    /// A copy of this target.
    pub fn duplicate(&self) -> (res: AvailableUpdate)
        ensures
            res@ == self@,
    {
        AvailableUpdate {
            version: self.version.clone(),
            source: self.source,
            registry: copy_opt(&self.registry),
            local_copy: match &self.local_copy {
                Some(c) => Some(c.duplicate()),
                None => None,
            },
        }
    }
}

/// Appends one issue.
fn push_issue(issues: &mut Vec<String>, m: String)
    ensures
        text::views(final(issues)@) == text::views(old(issues)@).push(m@),
{
    let ghost mv = m@;
    issues.push(m);
    assert(text::views(issues@) =~= text::views(old(issues)@).push(mv));
}

/// Reads the local copies: an issue for each copy whose files are missing,
/// and the target each usable copy offers.
fn gather_local(
    policy: UpdateSourcePolicy,
    states: &Vec<LocalCopyState>,
    issues: &mut Vec<String>,
    found: &mut Vec<AvailableUpdate>,
)
    ensures
        text::views(final(issues)@) == text::views(old(issues)@) + missing_issues(states@),
        target_views(final(found)@) == target_views(old(found)@) + local_offers(states@, policy),
{
    let ghost issues0 = text::views(issues@);
    let ghost found0 = target_views(found@);
    let mut i: usize = 0;
    assert(issues0 =~= issues0 + missing_issues(states@.take(0)));
    assert(found0 =~= found0 + local_offers(states@.take(0), policy));
    while i < states.len()
        invariant
            i <= states.len(),
            text::views(issues@) == issues0 + missing_issues(states@.take(i as int)),
            target_views(found@) == found0 + local_offers(states@.take(i as int), policy),
        decreases states.len() - i,
    {
        let ghost t = states@.take(i + 1);
        assert(t.drop_last() =~= states@.take(i as int));
        assert(t.last() == states@[i as int]);
        if !states[i].files_present {
            let mut m = String::from_str("本地副本 ");
            m.append(states[i].copy.release.as_str());
            m.append(" 文件缺失");
            assert(missing_issues(t) == missing_issues(states@.take(i as int)).push(m@));
            push_issue(issues, m);
            assert(text::views(issues@) =~= issues0 + missing_issues(t));
        } else {
            assert(missing_issues(t) == missing_issues(states@.take(i as int)));
        }
        match offer_of(&states[i], policy) {
            Some(x) => {
                let ghost xv = x@;
                let ghost before = found@;
                found.push(x);
                assert(target_views(found@) =~= target_views(before).push(xv));
                assert(target_views(found@) =~= found0 + local_offers(t, policy));
            },
            None => {},
        }
        i = i + 1;
    }
    assert(states@.take(states.len() as int) =~= states@);
}

/// Reads the registry's answer: a target per version, or its error as an issue.
fn gather_npm(
    npm: Option<Result<Vec<String>, String>>,
    registry: &String,
    issues: &mut Vec<String>,
    found: &mut Vec<AvailableUpdate>,
)
    ensures
        text::views(final(issues)@) == text::views(old(issues)@) + match npm {
            Some(Err(e)) => seq![e@],
            _ => Seq::<Seq<char>>::empty(),
        },
        target_views(final(found)@) == target_views(old(found)@) + match npm {
            Some(Ok(vs)) => npm_offers(vs@, registry@),
            _ => Seq::<TargetView>::empty(),
        },
{
    let ghost found0 = target_views(found@);
    match npm {
        Some(Ok(versions)) => {
            let mut j: usize = 0;
            assert(found0 =~= found0 + npm_offers(versions@.take(0), registry@));
            while j < versions.len()
                invariant
                    j <= versions.len(),
                    text::views(issues@) == text::views(old(issues)@),
                    target_views(found@) == found0 + npm_offers(versions@.take(j as int), registry@),
                decreases versions.len() - j,
            {
                let t = AvailableUpdate {
                    version: versions[j].clone(),
                    source: RuntimeSource::Npm,
                    registry: Some(registry.clone()),
                    local_copy: None,
                };
                let ghost tv = t@;
                let ghost before = found@;
                found.push(t);
                assert(target_views(found@) =~= target_views(before).push(tv));
                assert(versions@.take(j + 1) =~= versions@.take(j as int).push(versions@[j as int]));
                assert(npm_offers(versions@.take(j + 1), registry@) =~= npm_offers(
                    versions@.take(j as int),
                    registry@,
                ).push(tv));
                assert(target_views(found@) =~= found0 + npm_offers(versions@.take(j + 1), registry@));
                j = j + 1;
            }
            assert(versions@.take(versions.len() as int) =~= versions@);
            assert(text::views(issues@) =~= text::views(old(issues)@) + Seq::<Seq<char>>::empty());
        },
        Some(Err(e)) => {
            push_issue(issues, e);
            assert(target_views(found@) =~= found0 + Seq::<TargetView>::empty());
        },
        None => {
            assert(target_views(found@) =~= found0 + Seq::<TargetView>::empty());
            assert(text::views(issues@) =~= text::views(old(issues)@) + Seq::<Seq<char>>::empty());
        },
    }
}

/// Adds the issue for a pinned version that no found target matches.
fn pinned_issue(settings: &RuntimeUpdateSettings, versions: &Vec<AvailableUpdate>, issues: &mut Vec<String>)
    ensures
        text::views(final(issues)@) == text::views(old(issues)@) + if settings.version matches Some(v)
            && !pinned_found(target_views(versions@), settings.source, v@) {
            seq![pinned_missing_text(settings.version.unwrap()@)]
        } else {
            Seq::<Seq<char>>::empty()
        },
{
    if let Some(v) = &settings.version {
        let mut k: usize = 0;
        let mut hit = false;
        while k < versions.len()
            invariant
                k <= versions.len(),
                hit == exists|m: int| 0 <= m < k && requested(#[trigger] target_views(versions@)[m], settings.source, v@),
            decreases versions.len() - k,
        {
            let r = matches_requested(&versions[k], settings, v.as_str());
            proof {
                assert(target_views(versions@)[k as int] == versions@[k as int]@);
                if r {
                    assert(requested(target_views(versions@)[k as int], settings.source, v@));
                }
            }
            hit = hit || r;
            k = k + 1;
        }
        if !hit {
            let mut m = String::from_str("所选版本 ");
            m.append(v.as_str());
            m.append(" 未在当前来源找到；旧 runtime 发行号不能代替 Harness 版本");
            push_issue(issues, m);
        } else {
            assert(text::views(issues@) =~= text::views(old(issues)@) + Seq::<Seq<char>>::empty());
        }
    } else {
        assert(text::views(issues@) =~= text::views(old(issues)@) + Seq::<Seq<char>>::empty());
    }
}

/// The outcome of an update check.
#[derive(Debug, Clone)]
pub struct CheckResult {
    pub versions: Vec<AvailableUpdate>,
    pub available: Option<AvailableUpdate>,
    pub issues: Vec<String>,
}

impl Default for CheckResult {
    fn default() -> (res: CheckResult)
        ensures
            res.versions@.len() == 0,
            res.available is None,
            res.issues@.len() == 0,
    {
        CheckResult { versions: Vec::new(), available: None, issues: Vec::new() }
    }
}

/// The one-paragraph summary of a check.
pub open spec fn summary_text(c: CheckResult) -> Seq<char> {
    let result = match c.available {
        None => "没有找到可安装的新版本"@,
        Some(t) => "可更新 Harness "@ + t.version@,
    };
    if c.issues@.len() == 0 {
        result
    } else {
        "检查不完整："@ + text::joined(text::views(c.issues@), "；"@) + "\n"@ + result
    }
}

impl CheckResult {
    /// What was found, preceded by every issue when the check was incomplete.
    pub fn summary(&self) -> (res: String)
        ensures
            res@ == summary_text(*self),
    {
        let result = match &self.available {
            None => String::from_str("没有找到可安装的新版本"),
            Some(target) => {
                let mut r = String::from_str("可更新 Harness ");
                r.append(target.version.as_str());
                r
            },
        };
        if self.issues.len() == 0 {
            result
        } else {
            let mut r = String::from_str("检查不完整：");
            let joined = text::join_strings(&self.issues, "；");
            r.append(joined.as_str());
            r.append("\n");
            r.append(result.as_str());
            r
        }
    }
}

/// The clue a failed start or preparation leaves for the repair entry.
#[derive(Debug, Clone)]
pub struct RepairRecord {
    pub release: String,
    pub phase: String,
    pub error: String,
}

/// The longest error text a repair record keeps, in characters.
pub const MAX_REPAIR_ERROR_CHARS: usize = 1024;

impl RepairRecord {
    /// A record of a failed `phase` of `release`, keeping the first 1024
    /// characters of the error description.
    pub fn new(release: String, phase: &str, error: &str) -> (res: RepairRecord)
        ensures
            res.release@ == release@,
            res.phase@ == phase@,
            res.error@ == error@.take(
                if error@.len() < MAX_REPAIR_ERROR_CHARS {
                    error@.len() as int
                } else {
                    MAX_REPAIR_ERROR_CHARS as int
                },
            ),
    {
        let v = text::chars_of(error);
        let n = if v.len() < MAX_REPAIR_ERROR_CHARS {
            v.len()
        } else {
            MAX_REPAIR_ERROR_CHARS
        };
        let mut kept = String::new();
        let mut i: usize = 0;
        while i < n
            invariant
                i <= n <= v.len(),
                kept@ == v@.take(i as int),
            decreases n - i,
        {
            text::push_char(&mut kept, v[i]);
            assert(v@.take(i + 1) =~= v@.take(i as int).push(v@[i as int]));
            i = i + 1;
        }
        RepairRecord { release, phase: String::from_str(phase), error: kept }
    }
}

/// `version` is the release or Harness version of a target's local copy when
/// the policy looks only at local copies, and the target's version otherwise.
pub open spec fn requested(t: TargetView, policy: UpdateSourcePolicy, version: Seq<char>) -> bool {
    if policy == UpdateSourcePolicy::Local || policy == UpdateSourcePolicy::Oss {
        t.local_copy matches Some(c) && (c.release == version || c.harness_version == Some(version))
    } else {
        t.version == version
    }
}

/// Whether `target` is the pinned `version` under the settings' source policy.
pub fn matches_requested(target: &AvailableUpdate, settings: &RuntimeUpdateSettings, version: &str) -> (res: bool)
    ensures
        res == requested(target@, settings.source, version@),
{
    if settings.source == UpdateSourcePolicy::Local || settings.source == UpdateSourcePolicy::Oss {
        match &target.local_copy {
            Some(copy) => {
                if text::str_eq(copy.release.as_str(), version) {
                    return true;
                }
                match &copy.harness_version {
                    Some(v) => text::str_eq(v.as_str(), version),
                    None => false,
                }
            },
            None => false,
        }
    } else {
        text::str_eq(target.version.as_str(), version)
    }
}

/// The view of an optional borrowed copy.
pub open spec fn current_view(c: Option<&RuntimeCopy>) -> Option<CopyView> {
    match c {
        Some(x) => Some(x@),
        None => None,
    }
}

/// A target may be chosen: it is the pinned version, if one is pinned, and
/// newer than the current copy's Harness version, if that is known.
pub open spec fn eligible(t: TargetView, current: Option<CopyView>, settings: RuntimeUpdateSettings) -> bool {
    &&& (settings.version matches Some(v) ==> requested(t, settings.source, v@))
    &&& (current matches Some(c) ==> (c.harness_version matches Some(cv)
        ==> official::semver_order(t.version, cv) > 0))
}

/// The index of the target `choose_update` picks among `ts`, or -1: the
/// running maximum over the eligible targets, where a later target replaces
/// the maximum unless the maximum orders above it.
pub open spec fn best_index(ts: Seq<TargetView>, current: Option<CopyView>, settings: RuntimeUpdateSettings) -> int
    decreases ts.len(),
{
    if ts.len() == 0 {
        -1
    } else {
        let i = best_index(ts.drop_last(), current, settings);
        let n = ts.len() - 1;
        if !eligible(ts[n], current, settings) {
            i
        } else if i < 0 {
            n
        } else if official::semver_order(ts[i].version, ts[n].version) <= 0 {
            n
        } else {
            i
        }
    }
}

pub proof fn lemma_best_index_range(ts: Seq<TargetView>, current: Option<CopyView>, settings: RuntimeUpdateSettings)
    ensures
        -1 <= best_index(ts, current, settings) < ts.len(),
        best_index(ts, current, settings) >= 0 ==> eligible(ts[best_index(ts, current, settings)], current, settings),
    decreases ts.len(),
{
    if ts.len() > 0 {
        lemma_best_index_range(ts.drop_last(), current, settings);
    }
}

/// A pinned version that no found target matches is not replaced by another
/// version: nothing is offered.
pub proof fn missing_pin_offers_nothing(ts: Seq<TargetView>, current: Option<CopyView>, settings: RuntimeUpdateSettings)
    requires
        settings.version is Some,
        !pinned_found(ts, settings.source, settings.version.unwrap()@),
    ensures
        best_index(ts, current, settings) == -1,
    decreases ts.len(),
{
    if ts.len() > 0 {
        let n = ts.len() - 1;
        assert(!requested(ts[n], settings.source, settings.version.unwrap()@));
        assert(!pinned_found(ts.drop_last(), settings.source, settings.version.unwrap()@)) by {
            if pinned_found(ts.drop_last(), settings.source, settings.version.unwrap()@) {
                let k = choose|k: int| 0 <= k < ts.drop_last().len() && requested(
                    #[trigger] ts.drop_last()[k],
                    settings.source,
                    settings.version.unwrap()@,
                );
                assert(ts[k] == ts.drop_last()[k]);
            }
        }
        missing_pin_offers_nothing(ts.drop_last(), current, settings);
    }
}

/// `eligible`, computed.
fn is_eligible(t: &AvailableUpdate, current: Option<&RuntimeCopy>, settings: &RuntimeUpdateSettings) -> (res: bool)
    ensures
        res == eligible(t@, current_view(current), *settings),
{
    if let Some(v) = &settings.version {
        if !matches_requested(t, settings, v.as_str()) {
            return false;
        }
    }
    if let Some(copy) = current {
        if let Some(cv) = &copy.harness_version {
            return official::version_rank(t.version.as_str(), cv.as_str()) > 0;
        }
    }
    true
}

/// The target carries a local copy whose release or Harness version is `version`.
pub open spec fn has_local_copy_of(t: TargetView, version: Seq<char>) -> bool {
    match t.local_copy {
        Some(c) => c.release == version || c.harness_version == Some(version),
        None => false,
    }
}

/// Under a policy that looks only at local copies, a pin names a local copy
/// by its release or by its Harness version: a target whose local copy has
/// either matches the pin.
pub proof fn pinned_local_copy_matches(t: TargetView, policy: UpdateSourcePolicy, version: Seq<char>)
    requires
        policy == UpdateSourcePolicy::Local || policy == UpdateSourcePolicy::Oss,
        has_local_copy_of(t, version),
    ensures
        requested(t, policy, version),
{
}

/// Under every other policy a pin names the target's own version.
pub proof fn pinned_version_matches(t: TargetView, policy: UpdateSourcePolicy)
    requires
        policy == UpdateSourcePolicy::Auto || policy == UpdateSourcePolicy::Npm,
    ensures
        requested(t, policy, t.version),
{
}

/// No target is eligible when `best_index` finds none.
proof fn lemma_none_eligible(ts: Seq<TargetView>, current: Option<CopyView>, settings: RuntimeUpdateSettings)
    requires
        best_index(ts, current, settings) < 0,
    ensures
        forall|j: int| 0 <= j < ts.len() ==> !eligible(#[trigger] ts[j], current, settings),
    decreases ts.len(),
{
    if ts.len() > 0 {
        lemma_best_index_range(ts.drop_last(), current, settings);
        lemma_none_eligible(ts.drop_last(), current, settings);
        assert forall|j: int| 0 <= j < ts.len() implies !eligible(#[trigger] ts[j], current, settings) by {
            if j < ts.len() - 1 {
                assert(ts[j] == ts.drop_last()[j]);
            }
        }
    }
}

/// The target to offer: the newest eligible one (see `best_index`), or none.
/// It is offered exactly when some target is eligible: it is then eligible
/// itself, and every eligible target has its version or orders at or below it.
pub fn choose_update(targets: &Vec<AvailableUpdate>, current: Option<&RuntimeCopy>, settings: &RuntimeUpdateSettings) -> (res: Option<AvailableUpdate>)
    ensures
        ({
            let b = best_index(target_views(targets@), current_view(current), *settings);
            if b < 0 {
                res is None
            } else {
                res matches Some(t) && t@ == targets@[b]@
            }
        }),
        res is None <==> forall|j: int| 0 <= j < targets@.len() ==> !eligible(#[trigger] targets@[j]@, current_view(current), *settings),
        res matches Some(t) ==> eligible(t@, current_view(current), *settings) && forall|j: int|
            0 <= j < targets@.len() && eligible(#[trigger] targets@[j]@, current_view(current), *settings)
                ==> targets@[j].version@ == t.version@ || official::semver_order(targets@[j].version@, t.version@) <= 0,
        (settings.source == UpdateSourcePolicy::Local || settings.source == UpdateSourcePolicy::Oss) && current is None
            && settings.version is Some && (exists|j: int|
            0 <= j < targets@.len() && #[trigger] has_local_copy_of(targets@[j]@, settings.version.unwrap()@))
            ==> res is Some,
{
    proof {
        if (settings.source == UpdateSourcePolicy::Local || settings.source == UpdateSourcePolicy::Oss) && current is None
            && settings.version is Some && (exists|j: int|
            0 <= j < targets@.len() && #[trigger] has_local_copy_of(targets@[j]@, settings.version.unwrap()@)) {
            let j = choose|j: int|
                0 <= j < targets@.len() && #[trigger] has_local_copy_of(targets@[j]@, settings.version.unwrap()@);
            pinned_local_copy_matches(targets@[j]@, settings.source, settings.version.unwrap()@);
            assert(eligible(targets@[j]@, current_view(current), *settings));
        }
    }
    let mut best: Option<usize> = None;
    let mut i: usize = 0;
    while i < targets.len()
        invariant
            i <= targets.len(),
            ({
                let b = best_index(target_views(targets@).take(i as int), current_view(current), *settings);
                match best {
                    None => b == -1,
                    Some(k) => b == k && k < i,
                }
            }),
            best matches Some(k) ==> forall|j: int|
                0 <= j < i && eligible(#[trigger] targets@[j]@, current_view(current), *settings)
                    ==> targets@[j].version@ == targets@[k as int].version@
                        || official::semver_order(targets@[j].version@, targets@[k as int].version@) <= 0,
        decreases targets.len() - i,
    {
        let ghost ts = target_views(targets@).take(i + 1);
        proof {
            assert(ts.drop_last() =~= target_views(targets@).take(i as int));
            lemma_best_index_range(ts.drop_last(), current_view(current), *settings);
        }
        if is_eligible(&targets[i], current, settings) {
            match best {
                None => {
                    proof {
                        lemma_none_eligible(ts.drop_last(), current_view(current), *settings);
                        assert forall|j: int| 0 <= j < i implies !eligible(#[trigger] targets@[j]@, current_view(current), *settings) by {
                            assert(ts.drop_last()[j] == targets@[j]@);
                        }
                    }
                    best = Some(i);
                },
                Some(k) => {
                    assert(ts[k as int] == targets@[k as int]@);
                    if official::version_rank(targets[k].version.as_str(), targets[i].version.as_str()) <= 0 {
                        best = Some(i);
                    }
                },
            }
        }
        i = i + 1;
    }
    assert(target_views(targets@).take(targets.len() as int) =~= target_views(targets@));
    proof {
        lemma_best_index_range(target_views(targets@), current_view(current), *settings);
        if best is None {
            lemma_none_eligible(target_views(targets@), current_view(current), *settings);
            assert forall|j: int| 0 <= j < targets@.len() implies !eligible(#[trigger] targets@[j]@, current_view(current), *settings) by {
                assert(target_views(targets@)[j] == targets@[j]@);
            }
        } else {
            let k = best.unwrap() as int;
            assert(target_views(targets@)[k] == targets@[k]@);
        }
    }
    match best {
        None => None,
        Some(k) => Some(targets[k].duplicate()),
    }
}

/// Why moving to `target` is refused: it is not a valid version, or it is
/// older than the current copy's Harness version.
pub open spec fn forward_fault(current: Option<CopyView>, target: Seq<char>) -> Option<Seq<char>> {
    match official::semver_parse(target) {
        Err(m) => Some(m),
        Ok(_) => if current matches Some(c) && c.harness_version matches Some(v)
            && official::semver_order(target, v) < 0 {
            Some("不自动降级 Harness 或用户数据"@)
        } else {
            None
        },
    }
}

/// Refuses a target that is not a version or would downgrade the Harness.
pub fn ensure_forward(current: Option<&RuntimeCopy>, target: &str) -> (res: Result<(), String>)
    ensures
        refuses(res, forward_fault(current_view(current), target@)),
{
    official::parse_semver(target)?;
    if let Some(copy) = current {
        if let Some(version) = &copy.harness_version {
            if official::version_rank(target, version.as_str()) < 0 {
                return Err(String::from_str("不自动降级 Harness 或用户数据"));
            }
        }
    }
    Ok(())
}

/// A location that names one entry directly below the runtimes directory.
pub open spec fn safe_location(s: Seq<char>) -> bool {
    &&& s.len() > 0
    &&& !text::has_char(s, '/')
    &&& !text::has_char(s, '\\')
    &&& !text::has_char(s, ':')
    &&& winpath::components_normal(s)
}

/// `safe_location`, computed.
pub fn safe_name(value: &str) -> (res: bool)
    ensures
        res == safe_location(value@),
{
    if value.is_empty() {
        return false;
    }
    if text::contains_char(value, '/') || text::contains_char(value, '\\') || text::contains_char(value, ':') {
        return false;
    }
    let v = text::chars_of(value);
    winpath::components_normal_vec(&v)
}

/// Why a copy record is refused before its files are looked at.
pub open spec fn copy_record_fault(c: CopyView) -> Option<Seq<char>> {
    if c.schema != SCHEMA {
        Some("setup-required：副本状态需要其他 Launcher 版本"@)
    } else if !safe_location(c.location) {
        Some("副本位置不属于安装目录"@)
    } else if !official::semver_valid(c.release) {
        Some(text::caused("副本发行号无效"@, official::semver_error(c.release)))
    } else if c.harness_version matches Some(v) && !official::semver_valid(v) {
        Some(text::caused("Harness 版本格式无效"@, official::semver_error(c.harness_version.unwrap())))
    } else {
        None
    }
}

/// Accepts a copy record of this schema whose location stays inside the
/// runtimes directory and whose release and Harness version are versions.
pub fn validate_copy_record(copy: &RuntimeCopy) -> (res: Result<(), String>)
    ensures
        refuses(res, copy_record_fault(copy@)),
{
    if copy.schema != SCHEMA {
        return Err(String::from_str("setup-required：副本状态需要其他 Launcher 版本"));
    }
    if !safe_name(copy.location.as_str()) {
        return Err(String::from_str("副本位置不属于安装目录"));
    }
    if let Err(cause) = official::parse_semver(copy.release.as_str()) {
        return Err(text::with_cause("副本发行号无效", cause.as_str()));
    }
    if let Some(version) = &copy.harness_version {
        if let Err(cause) = official::parse_semver(version.as_str()) {
            return Err(text::with_cause("Harness 版本格式无效", cause.as_str()));
        }
    }
    Ok(())
}

/// Where the released legacy layout kept a runtime: the release, with `-npm`
/// appended for an npm copy.
pub open spec fn legacy_location_text(release: Seq<char>, source: RuntimeSource) -> Seq<char> {
    if source == RuntimeSource::Npm {
        release + "-npm"@
    } else {
        release
    }
}

/// `legacy_location_text`, built.
pub fn legacy_location(release: &str, source: RuntimeSource) -> (res: String)
    ensures
        res@ == legacy_location_text(release@, source),
{
    let mut res = String::from_str(release);
    if source == RuntimeSource::Npm {
        res.append("-npm");
    }
    res
}

/// The copy record that stands for a pointer in the released legacy layout.
pub open spec fn legacy_record(release: Seq<char>, source: RuntimeSource, harness_version: Option<Seq<char>>) -> CopyView {
    CopyView {
        schema: SCHEMA,
        location: legacy_location_text(release, source),
        release,
        harness_version,
        source,
        publisher: "legacy-desktop-runtime"@,
        registry: None,
    }
}

/// Reads a legacy pointer: its release must be present and a version, and
/// the resulting record must pass `validate_copy_record`.
pub fn legacy_copy(release: Option<&str>, source: RuntimeSource, harness_version: Option<String>) -> (res: Result<RuntimeCopy, String>)
    ensures
        match release {
            None => res matches Err(e) && e@ == "旧运行时缺少发行号；需要修复"@,
            Some(r) => if !official::semver_valid(r@) {
                res matches Err(e) && e@ == text::caused("旧运行时发行号无效"@, official::semver_error(r@))
            } else {
                match copy_record_fault(legacy_record(r@, source, opt_view(harness_version))) {
                    Some(m) => res matches Err(e) && e@ == m,
                    None => res matches Ok(c) && c@ == legacy_record(r@, source, opt_view(harness_version)),
                }
            },
        },
{
    let release = match release {
        None => {
            return Err(String::from_str("旧运行时缺少发行号；需要修复"));
        },
        Some(r) => r,
    };
    if let Err(cause) = official::parse_semver(release) {
        return Err(text::with_cause("旧运行时发行号无效", cause.as_str()));
    }
    let copy = RuntimeCopy {
        schema: SCHEMA,
        location: legacy_location(release, source),
        release: String::from_str(release),
        harness_version,
        source,
        publisher: String::from_str("legacy-desktop-runtime"),
        registry: None,
    };
    validate_copy_record(&copy)?;
    Ok(copy)
}

/// The Harness version recorded in an installed package, kept only if it is
/// a valid version.
pub fn package_version(found: Option<String>) -> (res: Option<String>)
    ensures
        match found {
            Some(v) => if official::semver_valid(v@) {
                res matches Some(x) && x@ == v@
            } else {
                res is None
            },
            None => res is None,
        },
{
    match found {
        Some(v) => {
            if official::parse_semver(v.as_str()).is_ok() {
                Some(v)
            } else {
                None
            }
        },
        None => None,
    }
}

/// A prepared copy is the given target: same Harness version, source and registry.
pub open spec fn copy_is_target(c: CopyView, t: TargetView) -> bool {
    c.harness_version == Some(t.version) && c.source == t.source && c.registry == t.registry
}

/// `copy_is_target`, computed.
pub fn staged_matches(copy: &RuntimeCopy, target: &AvailableUpdate) -> (res: bool)
    ensures
        res == copy_is_target(copy@, target@),
{
    let same_version = match &copy.harness_version {
        Some(v) => *v == target.version,
        None => false,
    };
    same_version && copy.source == target.source && same_opt(&copy.registry, &target.registry)
}

/// The target that repairs a current copy whose files are missing: only an
/// npm copy of a known Harness version can be prepared again.
pub fn repair_target(current: &RuntimeCopy) -> (res: Result<AvailableUpdate, String>)
    ensures
        if current.source != RuntimeSource::Npm {
            res matches Err(e) && e@ == "旧副本缺失；请选择明确的官方版本进行前向修复"@
        } else {
            match current.harness_version {
                None => res matches Err(e) && e@ == "当前 Harness 版本未知，不能推定修复目标"@,
                Some(v) => res matches Ok(t) && t@ == (TargetView {
                    version: v@,
                    source: RuntimeSource::Npm,
                    registry: opt_view(current.registry),
                    local_copy: None,
                }),
            }
        },
{
    if current.source != RuntimeSource::Npm {
        return Err(String::from_str("旧副本缺失；请选择明确的官方版本进行前向修复"));
    }
    match &current.harness_version {
        None => Err(String::from_str("当前 Harness 版本未知，不能推定修复目标")),
        Some(v) => Ok(
            AvailableUpdate {
                version: v.clone(),
                source: RuntimeSource::Npm,
                registry: copy_opt(&current.registry),
                local_copy: None,
            },
        ),
    }
}

/// How a target is prepared.
pub enum PreparePlan {
    /// Reuse this copy already on the machine.
    UseLocal(RuntimeCopy),
    /// Install this version of the official package from this registry.
    InstallNpm { version: String, registry: String },
}

/// Decides how to prepare a target: its local copy if it has one; otherwise
/// only an npm target of a valid version with a registry can be installed.
pub fn plan_prepare(target: &AvailableUpdate) -> (res: Result<PreparePlan, String>)
    ensures
        match target.local_copy {
            Some(c) => res matches Ok(PreparePlan::UseLocal(x)) && x@ == c@,
            None => if target.source != RuntimeSource::Npm {
                res matches Err(e) && e@ == "该来源没有官方安装入口"@
            } else if !official::semver_valid(target.version@) {
                res matches Err(e) && e@ == text::caused("目标版本无效"@, official::semver_error(target.version@))
            } else {
                match target.registry {
                    None => res matches Err(e) && e@ == "缺少官方发行来源"@,
                    Some(r) => res matches Ok(PreparePlan::InstallNpm { version, registry })
                        && version@ == target.version@ && registry@ == r@,
                }
            },
        },
{
    if let Some(copy) = &target.local_copy {
        return Ok(PreparePlan::UseLocal(copy.duplicate()));
    }
    if target.source != RuntimeSource::Npm {
        return Err(String::from_str("该来源没有官方安装入口"));
    }
    if let Err(cause) = official::parse_semver(target.version.as_str()) {
        return Err(text::with_cause("目标版本无效", cause.as_str()));
    }
    match &target.registry {
        None => Err(String::from_str("缺少官方发行来源")),
        Some(r) => Ok(PreparePlan::InstallNpm { version: target.version.clone(), registry: r.clone() }),
    }
}

/// The directory name of a new npm copy: `npm-<version>-<token>`, where the
/// token is fresh for each preparation.
pub fn npm_location(version: &str, token: &str) -> (res: String)
    ensures
        res@ == "npm-"@ + version@ + "-"@ + token@,
{
    let mut res = String::from_str("npm-");
    res.append(version);
    res.append("-");
    res.append(token);
    res
}

/// The record of a copy just installed from npm.
pub fn npm_copy(location: String, version: &str, registry: &str) -> (res: RuntimeCopy)
    ensures
        res@ == (CopyView {
            schema: SCHEMA,
            location: location@,
            release: version@,
            harness_version: Some(version@),
            source: RuntimeSource::Npm,
            publisher: official::PACKAGE@,
            registry: Some(registry@),
        }),
{
    RuntimeCopy {
        schema: SCHEMA,
        location,
        release: String::from_str(version),
        harness_version: Some(String::from_str(version)),
        source: RuntimeSource::Npm,
        publisher: String::from_str(official::PACKAGE),
        registry: Some(String::from_str(registry)),
    }
}

/// Activating a confirmed copy is allowed unless its known Harness version
/// would move the installation backwards (see `ensure_forward`).
pub fn activation_allowed(current: Option<&RuntimeCopy>, confirmed: &RuntimeCopy) -> (res: Result<(), String>)
    ensures
        refuses(
            res,
            match confirmed.harness_version {
                Some(v) => forward_fault(current_view(current), v@),
                None => None,
            },
        ),
{
    match &confirmed.harness_version {
        Some(v) => ensure_forward(current, v.as_str()),
        None => Ok(()),
    }
}

/// After activation the staged pointer is removed only if it holds exactly
/// the confirmed copy; a different staged target stays staged.
pub fn clears_staged(staged: Option<&RuntimeCopy>, confirmed: &RuntimeCopy) -> (res: bool)
    ensures
        res == (current_view(staged) == Some(confirmed@)),
{
    match staged {
        Some(copy) => copy.same_as(confirmed),
        None => false,
    }
}

/// Newest first: no target's version orders below the next one's.
pub open spec fn targets_newest_first(s: Seq<TargetView>) -> bool {
    forall|i: int| 0 <= i < s.len() - 1 ==> official::semver_order(#[trigger] s[i].version, s[i + 1].version) >= 0
}

proof fn lemma_prepend_multiset(x: TargetView, rest: Seq<TargetView>)
    ensures
        (seq![x] + rest).to_multiset() == rest.to_multiset().insert(x),
{
    broadcast use vstd::multiset::group_multiset_axioms;
    vstd::seq_lib::lemma_multiset_commutative(seq![x], rest);
    vstd::seq_lib::lemma_multiset_commutative(rest, seq![x]);
    assert(rest + seq![x] =~= rest.push(x));
}

/// The targets of `s` whose version orders equal to `w`, in their order in `s`.
pub open spec fn of_version(s: Seq<TargetView>, w: Seq<char>) -> Seq<TargetView> {
    s.filter(|t: TargetView| official::semver_order(t.version, w) == 0)
}

proof fn lemma_filter_none(s: Seq<TargetView>, p: spec_fn(TargetView) -> bool)
    requires
        forall|i: int| 0 <= i < s.len() ==> !p(#[trigger] s[i]),
    ensures
        s.filter(p) == Seq::<TargetView>::empty(),
    decreases s.len(),
{
    reveal(Seq::filter);
    if s.len() > 0 {
        assert forall|i: int| 0 <= i < s.drop_last().len() implies !p(#[trigger] s.drop_last()[i]) by {
            assert(s.drop_last()[i] == s[i]);
        }
        lemma_filter_none(s.drop_last(), p);
        assert(!p(s[s.len() - 1]));
    }
}

/// Inserting `x` before the first target not above it keeps, for every
/// version, the targets of that version in the order they were added.
proof fn lemma_insert_keeps_order(before: Seq<TargetView>, k: int, x: TargetView, rest: Seq<TargetView>, w: Seq<char>)
    requires
        0 <= k <= before.len(),
        forall|m: int, y: Seq<char>|
            0 <= m < k && official::semver_order(x.version, y) >= 0 ==> #[trigger] official::semver_order(before[m].version, y) > 0,
        of_version(before, w) == of_version(rest, w),
    ensures
        of_version(before.insert(k, x), w) == of_version(seq![x] + rest, w),
{
    let p = |t: TargetView| official::semver_order(t.version, w) == 0;
    let head = before.take(k);
    let tail = before.skip(k);
    assert(before.insert(k, x) =~= head + (seq![x] + tail));
    assert(before =~= head + tail);
    Seq::filter_distributes_over_add(head, seq![x] + tail, p);
    Seq::filter_distributes_over_add(head, tail, p);
    tail.lemma_filter_prepend(x, p);
    rest.lemma_filter_prepend(x, p);
    if p(x) {
        assert forall|i: int| 0 <= i < head.len() implies !p(#[trigger] head[i]) by {
            assert(head[i] == before[i]);
            assert(official::semver_order(before[i].version, w) > 0);
        }
        lemma_filter_none(head, p);
        assert(head.filter(p) + (seq![x] + tail.filter(p)) =~= seq![x] + (head.filter(p) + tail.filter(p)));
    } else {
        assert(head.filter(p) + (Seq::<TargetView>::empty() + tail.filter(p)) =~= head.filter(p) + tail.filter(p));
        assert(Seq::<TargetView>::empty() + rest.filter(p) =~= rest.filter(p));
    }
}

/// Sorts targets newest first, keeping every target exactly once.
pub fn sort_newest_first(targets: Vec<AvailableUpdate>) -> (res: Vec<AvailableUpdate>)
    ensures
        target_views(res@).to_multiset() == target_views(targets@).to_multiset(),
        targets_newest_first(target_views(res@)),
        forall|w: Seq<char>| #[trigger] of_version(target_views(res@), w) == of_version(target_views(targets@), w),
{
    let ghost orig = target_views(targets@);
    let mut rest = targets;
    let mut res: Vec<AvailableUpdate> = Vec::new();
    proof {
        assert(orig.skip(rest.len() as int) =~= Seq::<TargetView>::empty());
        assert(target_views(res@) =~= Seq::<TargetView>::empty());
    }
    while rest.len() > 0
        invariant
            rest.len() <= orig.len(),
            target_views(rest@) == orig.take(rest.len() as int),
            target_views(res@).to_multiset() == orig.skip(rest.len() as int).to_multiset(),
            targets_newest_first(target_views(res@)),
            forall|w: Seq<char>| #[trigger] of_version(target_views(res@), w) == of_version(orig.skip(rest.len() as int), w),
        decreases rest.len(),
    {
        let ghost n = rest.len() as int;
        let ghost old_rest = rest@;
        let x = rest.pop().unwrap();
        proof {
            assert(old_rest.last() == x);
            assert(target_views(old_rest)[n - 1] == x@);
            assert(target_views(rest@) =~= orig.take(n - 1));
            assert(x@ == orig[n - 1]);
            assert(orig.skip(n - 1) =~= seq![x@] + orig.skip(n));
            lemma_prepend_multiset(x@, orig.skip(n));
        }
        let mut k: usize = 0;
        while k < res.len() && official::version_rank(res[k].version.as_str(), x.version.as_str()) > 0
            invariant
                k <= res.len(),
                forall|m: int| 0 <= m < k ==> official::semver_order((#[trigger] res@[m]).version@, x.version@) > 0,
                forall|m: int, y: Seq<char>|
                    0 <= m < k && official::semver_order(x.version@, y) >= 0 ==> #[trigger] official::semver_order(res@[m].version@, y) > 0,
            decreases res.len() - k,
        {
            k = k + 1;
        }
        let ghost before = target_views(res@);
        proof {
            if k < res.len() {
                assert(official::semver_order(x.version@, res@[k as int].version@) >= 0);
            }
        }
        res.insert(k, x);
        proof {
            assert(target_views(res@) =~= before.insert(k as int, x@));
            assert forall|i: int| 0 <= i < target_views(res@).len() - 1 implies official::semver_order(
                #[trigger] target_views(res@)[i].version,
                target_views(res@)[i + 1].version,
            ) >= 0 by {
                if i + 1 < k {
                    assert(target_views(res@)[i] == before[i]);
                    assert(target_views(res@)[i + 1] == before[i + 1]);
                } else if i + 1 == k {
                    assert(target_views(res@)[i] == before[i]);
                    assert(before[i] == res@[i]@);
                } else if i == k {
                    assert(target_views(res@)[i + 1] == before[i]);
                } else {
                    assert(target_views(res@)[i] == before[i - 1]);
                    assert(target_views(res@)[i + 1] == before[i]);
                }
            }
            assert forall|w: Seq<char>| #[trigger] of_version(target_views(res@), w) == of_version(orig.skip(n - 1), w) by {
                assert forall|m: int, y: Seq<char>|
                    0 <= m < k && official::semver_order(x@.version, y) >= 0 implies #[trigger] official::semver_order(before[m].version, y) > 0 by {
                    assert(before[m] == res@[m]@);
                }
                lemma_insert_keeps_order(before, k as int, x@, orig.skip(n), w);
            }
        }
    }
    proof {
        assert(orig.skip(0) =~= orig);
    }
    res
}

/// One copy already on this machine and whether its program files are there.
pub struct LocalCopyState {
    pub copy: RuntimeCopy,
    pub files_present: bool,
}

/// The target a local copy offers under a policy, if any: only a copy whose
/// files are present and whose Harness version is known, and under the OSS
/// policy only an OSS copy.
pub open spec fn local_offer(s: LocalCopyState, policy: UpdateSourcePolicy) -> Option<TargetView> {
    if !s.files_present {
        None
    } else {
        match s.copy.harness_version {
            None => None,
            Some(v) => if policy == UpdateSourcePolicy::Oss && s.copy.source != RuntimeSource::Oss {
                None
            } else {
                Some(
                    TargetView {
                        version: v@,
                        source: s.copy.source,
                        registry: opt_view(s.copy.registry),
                        local_copy: Some(s.copy@),
                    },
                )
            },
        }
    }
}

/// The target that a copy on this machine stands for: its Harness version,
/// from its source and registry, with the copy itself.
pub open spec fn copy_target(c: CopyView) -> TargetView {
    TargetView { version: c.harness_version.unwrap(), source: c.source, registry: c.registry, local_copy: Some(c) }
}

proof fn lemma_local_offer_listed(states: Seq<LocalCopyState>, policy: UpdateSourcePolicy, k: int)
    requires
        0 <= k < states.len(),
        local_offer(states[k], policy) is Some,
    ensures
        local_offers(states, policy).contains(local_offer(states[k], policy).unwrap()),
    decreases states.len(),
{
    let init = local_offers(states.drop_last(), policy);
    if k < states.len() - 1 {
        assert(states.drop_last()[k] == states[k]);
        lemma_local_offer_listed(states.drop_last(), policy, k);
        let t = local_offer(states[k], policy).unwrap();
        let i = choose|i: int| 0 <= i < init.len() && init[i] == t;
        match local_offer(states.last(), policy) {
            Some(u) => {
                assert(init.push(u)[i] == t);
            },
            None => {},
        }
    } else {
        assert(init.push(local_offer(states[k], policy).unwrap()).last() == local_offer(states[k], policy).unwrap());
    }
}

/// Every policy but the registry-only one looks at the local copies: each
/// current or staged copy whose files are present and whose Harness version
/// is known is a candidate of the check (under the OSS policy only an OSS
/// copy), found as itself.
pub proof fn local_copies_are_candidates(
    policy: UpdateSourcePolicy,
    registry: Seq<char>,
    states: Seq<LocalCopyState>,
    npm: Option<Result<Vec<String>, String>>,
    k: int,
)
    requires
        0 <= k < states.len(),
        policy != UpdateSourcePolicy::Npm,
        states[k].files_present,
        states[k].copy.harness_version is Some,
        policy == UpdateSourcePolicy::Oss ==> states[k].copy.source == RuntimeSource::Oss,
    ensures
        check_candidates(policy, registry, states, npm).contains(copy_target(states[k].copy@)),
{
    lemma_local_offer_listed(states, policy, k);
    let t = copy_target(states[k].copy@);
    assert(local_offer(states[k], policy) == Some(t));
    let loc = local_offers(states, policy);
    let i = choose|i: int| 0 <= i < loc.len() && loc[i] == t;
    let rest = if queries_npm(policy) {
        match npm {
            Some(Ok(vs)) => npm_offers(vs@, registry),
            _ => Seq::<TargetView>::empty(),
        }
    } else {
        Seq::<TargetView>::empty()
    };
    assert(check_candidates(policy, registry, states, npm) == loc + rest);
    assert((loc + rest)[i] == t);
}

/// The targets the local copies offer, in order.
pub open spec fn local_offers(states: Seq<LocalCopyState>, policy: UpdateSourcePolicy) -> Seq<TargetView>
    decreases states.len(),
{
    if states.len() == 0 {
        Seq::empty()
    } else {
        let init = local_offers(states.drop_last(), policy);
        match local_offer(states.last(), policy) {
            Some(t) => init.push(t),
            None => init,
        }
    }
}

/// One issue for each local copy whose files are missing, in order.
pub open spec fn missing_issues(states: Seq<LocalCopyState>) -> Seq<Seq<char>>
    decreases states.len(),
{
    if states.len() == 0 {
        Seq::empty()
    } else {
        let init = missing_issues(states.drop_last());
        if states.last().files_present {
            init
        } else {
            init.push("本地副本 "@ + states.last().copy.release@ + " 文件缺失"@)
        }
    }
}

/// The targets the official registry offers: one per published version.
pub open spec fn npm_offers(versions: Seq<String>, registry: Seq<char>) -> Seq<TargetView> {
    versions.map_values(
        |v: String|
            TargetView { version: v@, source: RuntimeSource::Npm, registry: Some(registry), local_copy: None },
    )
}

/// The local copies a check looks at: the current copy, then the staged one.
pub open spec fn local_states(current: Option<LocalCopyState>, staged: Result<Option<LocalCopyState>, ()>) -> Seq<LocalCopyState> {
    let c = match current {
        Some(s) => seq![s],
        None => Seq::empty(),
    };
    match staged {
        Ok(Some(s)) => c.push(s),
        _ => c,
    }
}

/// All targets a check finds, before sorting.
pub open spec fn check_candidates(
    policy: UpdateSourcePolicy,
    registry: Seq<char>,
    states: Seq<LocalCopyState>,
    npm: Option<Result<Vec<String>, String>>,
) -> Seq<TargetView> {
    (if scans_local(policy) {
        local_offers(states, policy)
    } else {
        Seq::empty()
    }) + (if queries_npm(policy) {
        match npm {
            Some(Ok(vs)) => npm_offers(vs@, registry),
            _ => Seq::empty(),
        }
    } else {
        Seq::empty()
    })
}

/// The issues a check reports before it looks for the pinned version.
pub open spec fn check_issues(
    policy: UpdateSourcePolicy,
    staged_unreadable: bool,
    states: Seq<LocalCopyState>,
    npm: Option<Result<Vec<String>, String>>,
) -> Seq<Seq<char>> {
    (if scans_local(policy) && staged_unreadable {
        seq!["暂存记录不可读"@]
    } else {
        Seq::empty()
    }) + (if scans_local(policy) {
        missing_issues(states)
    } else {
        Seq::empty()
    }) + (if policy == UpdateSourcePolicy::Oss {
        seq!["旧 OSS 来源保留为本机副本；获取官方新版本请选择官方 npm"@]
    } else {
        Seq::empty()
    }) + (if queries_npm(policy) {
        match npm {
            Some(Err(e)) => seq![e@],
            _ => Seq::empty(),
        }
    } else {
        Seq::empty()
    })
}

/// The issue for a pinned version that no found target matches.
pub open spec fn pinned_missing_text(version: Seq<char>) -> Seq<char> {
    "所选版本 "@ + version + " 未在当前来源找到；旧 runtime 发行号不能代替 Harness 版本"@
}

/// Some target matches the pinned version.
pub open spec fn pinned_found(ts: Seq<TargetView>, policy: UpdateSourcePolicy, version: Seq<char>) -> bool {
    exists|k: int| 0 <= k < ts.len() && requested(#[trigger] ts[k], policy, version)
}

/// The target a local copy offers, built.
fn offer_of(state: &LocalCopyState, policy: UpdateSourcePolicy) -> (res: Option<AvailableUpdate>)
    ensures
        match local_offer(*state, policy) {
            None => res is None,
            Some(t) => res matches Some(x) && x@ == t,
        },
{
    if !state.files_present {
        return None;
    }
    match &state.copy.harness_version {
        None => None,
        Some(v) => {
            if policy == UpdateSourcePolicy::Oss && state.copy.source != RuntimeSource::Oss {
                None
            } else {
                Some(
                    AvailableUpdate {
                        version: v.clone(),
                        source: state.copy.source,
                        registry: copy_opt(&state.copy.registry),
                        local_copy: Some(state.copy.duplicate()),
                    },
                )
            }
        },
    }
}

/// The outcome of an update check, from what the check has gathered: the
/// current copy and the staged one with whether their files are present
/// (the staged record may be unreadable), and the registry's versions when the
/// policy consults npm. Local copies are read only under a policy that scans
/// them. The found targets are sorted newest first, targets of one version
/// keeping the order in which they were found; the offered one is
/// `choose_update` of them; the issues come in the order the checks ran, and
/// end with a note when a pinned version was not found.
pub fn assemble_check(
    settings: &RuntimeUpdateSettings,
    current: Option<LocalCopyState>,
    staged: Result<Option<LocalCopyState>, ()>,
    npm: Option<Result<Vec<String>, String>>,
) -> (res: CheckResult)
    ensures
        ({
            let states = local_states(current, staged);
            let cands = check_candidates(settings.source, settings.npm.registry@, states, npm);
            let cur = match current {
                Some(s) => Some(s.copy@),
                None => None,
            };
            &&& target_views(res.versions@).to_multiset() == cands.to_multiset()
            &&& targets_newest_first(target_views(res.versions@))
            &&& forall|w: Seq<char>| #[trigger] of_version(target_views(res.versions@), w) == of_version(cands, w)
            &&& forall|k: int|
                0 <= k < states.len() && settings.source != UpdateSourcePolicy::Npm
                    && (#[trigger] states[k]).files_present && states[k].copy.harness_version is Some
                    && (settings.source == UpdateSourcePolicy::Oss ==> states[k].copy.source == RuntimeSource::Oss)
                    ==> target_views(res.versions@).contains(copy_target(states[k].copy@))
            &&& ((settings.source != UpdateSourcePolicy::Npm && staged is Err) ==> (text::views(res.issues@).len() > 0
                && text::views(res.issues@)[0] == "暂存记录不可读"@))
            &&& ({
                let b = best_index(target_views(res.versions@), cur, *settings);
                if b < 0 {
                    res.available is None
                } else {
                    res.available matches Some(t) && t@ == res.versions@[b]@
                }
            })
            &&& (res.available is None <==> forall|j: int|
                0 <= j < res.versions@.len() ==> !eligible(#[trigger] res.versions@[j]@, cur, *settings))
            &&& (res.available matches Some(t) ==> eligible(t@, cur, *settings) && forall|j: int|
                0 <= j < res.versions@.len() && eligible(#[trigger] res.versions@[j]@, cur, *settings)
                    ==> res.versions@[j].version@ == t.version@
                        || official::semver_order(res.versions@[j].version@, t.version@) <= 0)
            &&& text::views(res.issues@) == check_issues(settings.source, staged is Err, states, npm) + (
            if settings.version matches Some(v) && !pinned_found(
                target_views(res.versions@),
                settings.source,
                v@,
            ) {
                seq![pinned_missing_text(settings.version.unwrap()@)]
            } else {
                Seq::empty()
            })
        }),
{
    let ghost states = local_states(current, staged);
    let policy = settings.source;
    let mut issues: Vec<String> = Vec::new();
    let mut found: Vec<AvailableUpdate> = Vec::new();
    let mut states_vec: Vec<LocalCopyState> = Vec::new();
    let staged_unreadable = staged.is_err();
    let has_current = current.is_some();
    if let Some(c) = current {
        states_vec.push(c);
    }
    if let Ok(Some(s)) = staged {
        states_vec.push(s);
    }
    assert(states_vec@ =~= states);
    if consults_local(policy) {
        if staged_unreadable {
            issues.push(String::from_str("暂存记录不可读"));
        }
        gather_local(policy, &states_vec, &mut issues, &mut found);
    }
    if policy == UpdateSourcePolicy::Oss {
        push_issue(&mut issues, String::from_str("旧 OSS 来源保留为本机副本；获取官方新版本请选择官方 npm"));
    }
    if consults_npm(policy) {
        gather_npm(npm, &settings.npm.registry, &mut issues, &mut found);
    }
    proof {
        assert(text::views(issues@) =~= check_issues(settings.source, staged is Err, states, npm));
        assert(target_views(found@) =~= check_candidates(settings.source, settings.npm.registry@, states, npm));
    }
    let versions = sort_newest_first(found);
    let current_copy = if has_current {
        Some(&states_vec[0].copy)
    } else {
        None
    };
    assert(current_view(current_copy) == match current {
        Some(s) => Some(s.copy@),
        None => None::<CopyView>,
    });
    let available = choose_update(&versions, current_copy, settings);
    pinned_issue(settings, &versions, &mut issues);
    proof {
        let cands = check_candidates(settings.source, settings.npm.registry@, states, npm);
        assert forall|k: int|
            0 <= k < states.len() && settings.source != UpdateSourcePolicy::Npm
                && (#[trigger] states[k]).files_present && states[k].copy.harness_version is Some
                && (settings.source == UpdateSourcePolicy::Oss ==> states[k].copy.source == RuntimeSource::Oss)
            implies target_views(versions@).contains(copy_target(states[k].copy@)) by {
            local_copies_are_candidates(settings.source, settings.npm.registry@, states, npm, k);
            assert(cands.to_multiset().count(copy_target(states[k].copy@)) > 0);
            assert(target_views(versions@).to_multiset().count(copy_target(states[k].copy@)) > 0);
        }
    }
    CheckResult { versions, available, issues }
}

} // verus!
