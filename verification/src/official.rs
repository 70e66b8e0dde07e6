//! The official npm distribution of DeepSeek Harness: version handling for
//! the package's published versions, the registry address, and the rules that
//! guard the unpacking of a downloaded runtime archive.
use vstd::prelude::*;
use core::cmp::Ordering;
use crate::address;
use crate::manifest;
use crate::text;
use crate::winpath;

verus! {

broadcast use vstd::seq_lib::group_to_multiset_ensures;

pub const PACKAGE: &'static str = "@deepseek-ai/dsh";

pub const REGISTRY: &'static str = "https://registry.npmjs.org/";

pub const NODE_VERSION: &'static str = "24.19.0";

pub const NODE_URL: &'static str = "https://nodejs.org/dist/v24.19.0/node-v24.19.0-win-x64.zip";

pub const MAX_METADATA_BYTES: u64 = 16777216;

pub const MAX_DOWNLOAD_BYTES: u64 = 134217728;

pub const MAX_ARCHIVE_ENTRIES: usize = 100000;

pub const MAX_EXTRACTED_FILE_BYTES: u64 = 536870912;

pub const MAX_EXTRACTED_BYTES: u64 = 2147483648;

/// What `semver::Version::parse` makes of a text: `Ok` for a valid semantic
/// version, otherwise the text of its error.
pub uninterp spec fn semver_parse(text: Seq<char>) -> Result<(), Seq<char>>;

/// The order that `semver` gives the results of parsing two texts, an
/// unparsable text counting as less than any version (-1, 0 or 1).
pub uninterp spec fn semver_order(left: Seq<char>, right: Seq<char>) -> int;

/// The error text `semver` gives for a text that is not a version.
pub open spec fn semver_error(text: Seq<char>) -> Seq<char> {
    match semver_parse(text) {
        Err(m) => m,
        Ok(_) => Seq::empty(),
    }
}

/// The text is a valid semantic version.
pub open spec fn semver_valid(text: Seq<char>) -> bool {
    semver_parse(text) is Ok
}

/// Calls `semver::Version::parse`. Claims only that the outcome and the error
/// text are those the crate gives for this input, which depend on nothing else.
#[verifier::external_body]
pub(crate) fn parse_semver(text: &str) -> (res: Result<(), String>)
    ensures
        match semver_parse(text@) {
            Ok(_) => res is Ok,
            Err(m) => res matches Err(e) && e@ == m,
        },
{
    semver::Version::parse(text).map(|_| ()).map_err(|error| error.to_string())
}

/// Orders two texts as semantic versions: calls `semver::Version::parse` on
/// each and compares the two `Option<Version>` results with `Ord`, so that
/// unparsable texts sort first and equal each other.
/// Trusted: the result is `semver_order`, which `Ord` makes antisymmetric,
/// reflexive and transitive: when `left` is at or below `right`, a text at or
/// below `left` is at or below `right`; when `left` is above `right`, it is
/// above every text that `right` is at or above.
#[verifier::external_body]
pub fn compare_versions(left: &str, right: &str) -> (res: Ordering)
    ensures
        manifest::order_value(res) == semver_order(left@, right@),
        manifest::order_value(res) == -semver_order(right@, left@),
        left@ == right@ ==> res == Ordering::Equal,
        forall|x: Seq<char>|
            manifest::order_value(res) <= 0 && semver_order(x, left@) <= 0 ==> #[trigger] semver_order(x, right@) <= 0,
        forall|y: Seq<char>|
            manifest::order_value(res) > 0 && semver_order(right@, y) >= 0 ==> #[trigger] semver_order(left@, y) > 0,
        !semver_valid(left@) && !semver_valid(right@) ==> res == Ordering::Equal,
        semver_valid(left@) && !semver_valid(right@) ==> res == Ordering::Greater,
        !semver_valid(left@) && semver_valid(right@) ==> res == Ordering::Less,
{
    semver::Version::parse(left).ok().cmp(&semver::Version::parse(right).ok())
}

/// `semver_order` as a -1/0/1 integer computed by `compare_versions`.
pub fn version_rank(left: &str, right: &str) -> (res: i8)
    ensures
        res == semver_order(left@, right@),
        -res == semver_order(right@, left@),
        left@ == right@ ==> res == 0,
        forall|x: Seq<char>| res <= 0 && semver_order(x, left@) <= 0 ==> #[trigger] semver_order(x, right@) <= 0,
        forall|y: Seq<char>| res > 0 && semver_order(right@, y) >= 0 ==> #[trigger] semver_order(left@, y) > 0,
{
    match compare_versions(left, right) {
        Ordering::Less => -1,
        Ordering::Equal => 0,
        Ordering::Greater => 1,
    }
}

/// Newest first: no version is below the one after it.
pub open spec fn newest_first(s: Seq<Seq<char>>) -> bool {
    forall|i: int| 0 <= i < s.len() - 1 ==> semver_order(#[trigger] s[i], s[i + 1]) >= 0
}

/// The texts of `s` that order equal to `w`, in their order in `s`.
pub open spec fn same_version(s: Seq<Seq<char>>, w: Seq<char>) -> Seq<Seq<char>> {
    s.filter(|v: Seq<char>| semver_order(v, w) == 0)
}

proof fn lemma_filter_none(s: Seq<Seq<char>>, p: spec_fn(Seq<char>) -> bool)
    requires
        forall|i: int| 0 <= i < s.len() ==> !p(#[trigger] s[i]),
    ensures
        s.filter(p) == Seq::<Seq<char>>::empty(),
    decreases s.len(),
{
    reveal(Seq::filter);
    if s.len() > 0 {
        assert forall|i: int| 0 <= i < s.drop_last().len() implies !p(#[trigger] s.drop_last()[i]) by {
            assert(s.drop_last()[i] == s[i]);
        }
        lemma_filter_none(s.drop_last(), p);
        assert(!p(s[s.len() - 1]));
    }
}

/// Inserting `x` after the last text not below it keeps, for every version,
/// the texts of that version in the order they were added.
proof fn lemma_insert_keeps_order(before: Seq<Seq<char>>, k: int, x: Seq<char>, added: Seq<Seq<char>>, w: Seq<char>)
    requires
        0 <= k <= before.len(),
        forall|m: int, y: Seq<char>|
            k <= m < before.len() && #[trigger] semver_order(before[m], y) >= 0 ==> semver_order(x, y) > 0,
        same_version(before, w) == same_version(added, w),
    ensures
        same_version(before.insert(k, x), w) == same_version(added.push(x), w),
{
    let p = |v: Seq<char>| semver_order(v, w) == 0;
    let head = before.take(k);
    let tail = before.skip(k);
    assert(before.insert(k, x) =~= head.push(x) + tail);
    assert(before =~= head + tail);
    Seq::filter_distributes_over_add(head.push(x), tail, p);
    Seq::filter_distributes_over_add(head, tail, p);
    reveal_with_fuel(Seq::<_>::filter, 1);
    assert(head.push(x).drop_last() =~= head);
    assert(added.push(x).drop_last() =~= added);
    if p(x) {
        assert forall|i: int| 0 <= i < tail.len() implies !p(#[trigger] tail[i]) by {
            assert(tail[i] == before[k + i]);
            if p(tail[i]) {
                assert(semver_order(before[k + i], w) >= 0);
            }
        }
        lemma_filter_none(tail, p);
        assert(head.filter(p).push(x) + tail.filter(p) =~= (head.filter(p) + tail.filter(p)).push(x));
    }
}

/// The keys that are valid semantic versions, in their order.
pub open spec fn published(keys: Seq<Seq<char>>) -> Seq<Seq<char>> {
    keys.filter(|k: Seq<char>| semver_valid(k))
}

/// The published versions worth offering: the valid semantic versions among
/// the registry's keys, newest first. The result holds exactly those keys.
pub fn versions(keys: Vec<String>) -> (res: Vec<String>)
    ensures
        res@.to_multiset() == keys@.filter(|s: String| semver_valid(s@)).to_multiset(),
        text::views(res@).to_multiset() == published(text::views(keys@)).to_multiset(),
        newest_first(text::views(res@)),
        forall|w: Seq<char>| #[trigger] same_version(text::views(res@), w)
            == same_version(published(text::views(keys@)), w),
{
    let ghost p = |s: String| semver_valid(s@);
    let mut valid: Vec<String> = Vec::new();
    let mut i: usize = 0;
    while i < keys.len()
        invariant
            i <= keys.len(),
            p == (|s: String| semver_valid(s@)),
            valid@ == keys@.take(i as int).filter(p),
            text::views(valid@) == published(text::views(keys@.take(i as int))),
        decreases keys.len() - i,
    {
        let ghost before = valid@;
        proof {
            reveal_with_fuel(Seq::<_>::filter, 1);
            assert(keys@.take(i + 1).drop_last() =~= keys@.take(i as int));
            assert(text::views(keys@.take(i + 1)).drop_last() =~= text::views(keys@.take(i as int)));
            assert(text::views(keys@.take(i + 1)).last() == keys@[i as int]@);
        }
        if parse_semver(keys[i].as_str()).is_ok() {
            valid.push(keys[i].clone());
            assert(text::views(valid@) =~= text::views(before).push(keys@[i as int]@));
        }
        i = i + 1;
    }
    assert(keys@.take(keys.len() as int) =~= keys@);
    let mut res: Vec<String> = Vec::new();
    let mut j: usize = 0;
    while j < valid.len()
        invariant
            j <= valid.len(),
            res@.to_multiset() == valid@.take(j as int).to_multiset(),
            text::views(res@).to_multiset() == text::views(valid@.take(j as int)).to_multiset(),
            newest_first(text::views(res@)),
            forall|w: Seq<char>| #[trigger] same_version(text::views(res@), w) == same_version(text::views(valid@.take(j as int)), w),
        decreases valid.len() - j,
    {
        let item = valid[j].clone();
        let mut k = res.len();
        while k > 0 && version_rank(item.as_str(), res[k - 1].as_str()) > 0
            invariant
                k <= res.len(),
                forall|m: int| k <= m < res.len() ==> semver_order(item@, (#[trigger] res@[m])@) > 0,
                forall|m: int, y: Seq<char>|
                    k <= m < res.len() && #[trigger] semver_order(res@[m]@, y) >= 0 ==> semver_order(item@, y) > 0,
            decreases k,
        {
            k = k - 1;
        }
        let ghost before = res@;
        proof {
            if k > 0 {
                assert(semver_order(item@, res@[k - 1]@) <= 0);
            }
        }
        res.insert(k, item);
        proof {
            assert(valid@.take(j + 1) =~= valid@.take(j as int).push(valid@[j as int]));
            assert(text::views(res@) =~= text::views(before).insert(k as int, item@));
            assert forall|i: int| 0 <= i < text::views(res@).len() - 1 implies semver_order(
                #[trigger] text::views(res@)[i],
                text::views(res@)[i + 1],
            ) >= 0 by {
                if i + 1 < k {
                    assert(text::views(res@)[i] == text::views(before)[i]);
                    assert(text::views(res@)[i + 1] == text::views(before)[i + 1]);
                } else if i + 1 == k {
                    assert(text::views(res@)[i] == text::views(before)[i]);
                } else if i == k {
                    assert(text::views(res@)[i + 1] == text::views(before)[i]);
                } else {
                    assert(text::views(res@)[i] == text::views(before)[i - 1]);
                    assert(text::views(res@)[i + 1] == text::views(before)[i]);
                }
            }
            assert(text::views(valid@.take(j + 1)) =~= text::views(valid@.take(j as int)).push(item@));
            assert forall|w: Seq<char>| #[trigger] same_version(text::views(res@), w)
                == same_version(text::views(valid@.take(j + 1)), w) by {
                assert forall|m: int, y: Seq<char>|
                    k <= m < text::views(before).len() && #[trigger] semver_order(text::views(before)[m], y) >= 0
                        implies semver_order(item@, y) > 0 by {
                    assert(text::views(before)[m] == before[m]@);
                }
                lemma_insert_keeps_order(text::views(before), k as int, item@, text::views(valid@.take(j as int)), w);
            }
        }
        j = j + 1;
    }
    assert(valid@.take(valid.len() as int) =~= valid@);
    res
}

/// The registry document of the official package: the registry address
/// without trailing slashes, then `/@deepseek-ai%2fdsh`.
pub fn packument_address(registry: &str) -> (res: String)
    ensures
        res@ == trim_end_slashes(registry@) + "/@deepseek-ai%2fdsh"@,
{
    let v = text::chars_of(registry);
    let mut end = v.len();
    assert(v@.take(v.len() as int) =~= v@);
    while end > 0 && v[end - 1] == '/'
        invariant
            end <= v.len(),
            trim_end_slashes(v@) == trim_end_slashes(v@.take(end as int)),
        decreases end,
    {
        assert(v@.take(end as int).drop_last() =~= v@.take(end - 1));
        end = end - 1;
    }
    assert(v@.take(v.len() as int) =~= v@);
    let mut res = String::new();
    let mut i: usize = 0;
    while i < end
        invariant
            i <= end <= v.len(),
            res@ == v@.take(i as int),
        decreases end - i,
    {
        text::push_char(&mut res, v[i]);
        assert(v@.take(i + 1) =~= v@.take(i as int).push(v@[i as int]));
        i = i + 1;
    }
    res.append("/@deepseek-ai%2fdsh");
    res
}

/// The version keys of a registry document: the keys of the `versions`
/// object of the JSON in the bytes, in `serde_json`'s key order; none when
/// the bytes are not such a document.
pub uninterp spec fn packument_keys(bytes: Seq<u8>) -> Option<Seq<Seq<char>>>;

/// Calls `serde_json::from_slice` for a `serde_json::Value`, then `get` of
/// `versions`, `as_object` and the object's `keys`. Claims only that the
/// outcome is the crate's for these bytes. It reads a top-level JSON object
/// only; nothing is said of other forms a typed reader might take.
#[verifier::external_body]
pub(crate) fn read_packument_keys(bytes: &[u8]) -> (res: Option<Vec<String>>)
    ensures
        match packument_keys(bytes@) {
            None => res is None,
            Some(ks) => res matches Some(v) && text::views(v@) == ks,
        },
{
    serde_json::from_slice::<serde_json::Value>(bytes).ok().and_then(|document| {
        document.get("versions").and_then(serde_json::Value::as_object).map(|versions| versions.keys().cloned().collect())
    })
}

/// The published versions in a registry document read so far: refused when
/// it is over `MAX_METADATA_BYTES` or not a registry document; otherwise the
/// valid versions among its keys, newest first (see `versions`).
pub fn registry_versions(bytes: &[u8]) -> (res: Result<Vec<String>, String>)
    ensures
        bytes@.len() > MAX_METADATA_BYTES ==> (res matches Err(e) && e@ == "版本列表过大"@),
        bytes@.len() <= MAX_METADATA_BYTES ==> match packument_keys(bytes@) {
            None => res matches Err(e) && e@ == "官方版本列表格式无效"@,
            Some(ks) => res matches Ok(v) && {
                &&& text::views(v@).to_multiset() == published(ks).to_multiset()
                &&& newest_first(text::views(v@))
                &&& forall|w: Seq<char>| #[trigger] same_version(text::views(v@), w) == same_version(published(ks), w)
            },
        },
{
    check_metadata_size(bytes.len())?;
    match read_packument_keys(bytes) {
        None => Err(String::from_str("官方版本列表格式无效")),
        Some(keys) => Ok(versions(keys)),
    }
}

/// The registry document's address, parsed (see `packument_address`).
pub fn packument_url(registry: &str) -> (res: Result<address::ParsedUrl, String>)
    ensures
        match address::url_parse(trim_end_slashes(registry@) + "/@deepseek-ai%2fdsh"@) {
            Err(_) => res matches Err(e) && e@ == "官方版本来源地址无效"@,
            Ok((s, h)) => res matches Ok(u) && u.text@ == s && match h {
                None => u.host is None,
                Some(hv) => u.host matches Some(x) && x@ == hv,
            },
        },
{
    let text = packument_address(registry);
    match address::parse_url(text.as_str()) {
        Ok(u) => Ok(u),
        Err(_) => Err(String::from_str("官方版本来源地址无效")),
    }
}

/// The version an install names must be a semantic version; the error
/// carries `semver`'s reason.
pub fn check_install_version(version: &str) -> (res: Result<(), String>)
    ensures
        res is Ok <==> semver_valid(version@),
        res matches Err(e) ==> e@ == text::caused("指定的 Harness 版本无效"@, semver_error(version@)),
{
    match parse_semver(version) {
        Ok(()) => Ok(()),
        Err(cause) => Err(text::with_cause("指定的 Harness 版本无效", cause.as_str())),
    }
}

/// A version list may hold at most `MAX_METADATA_BYTES` bytes.
pub fn check_metadata_size(len: usize) -> (res: Result<(), String>)
    ensures
        res is Ok <==> len <= MAX_METADATA_BYTES,
        res matches Err(e) ==> e@ == "版本列表过大"@,
{
    if len as u64 <= MAX_METADATA_BYTES {
        Ok(())
    } else {
        Err(String::from_str("版本列表过大"))
    }
}

/// A Node.js download may hold at most `MAX_DOWNLOAD_BYTES` bytes.
pub fn check_download_size(len: usize) -> (res: Result<(), String>)
    ensures
        res is Ok <==> len <= MAX_DOWNLOAD_BYTES,
        res matches Err(e) ==> e@ == "Node.js 下载超过本机准备上限"@,
{
    if len as u64 <= MAX_DOWNLOAD_BYTES {
        Ok(())
    } else {
        Err(String::from_str("Node.js 下载超过本机准备上限"))
    }
}

/// The directory a Node.js archive unpacks to: `node-v<version>-win-x64`.
pub fn node_archive_dir() -> (res: String)
    ensures
        res@ == "node-v"@ + NODE_VERSION@ + "-win-x64"@,
{
    let mut res = String::from_str("node-v");
    res.append(NODE_VERSION);
    res.append("-win-x64");
    res
}

/// `str::trim_end_matches('/')`.
pub open spec fn trim_end_slashes(s: Seq<char>) -> Seq<char>
    decreases s.len(),
{
    if s.len() > 0 && s.last() == '/' {
        trim_end_slashes(s.drop_last())
    } else {
        s
    }
}

/// The npm install argument that names the package at one exact version.
pub fn package_at(version: &str) -> (res: String)
    ensures
        res@ == PACKAGE@ + "@"@ + version@,
{
    let mut res = String::from_str(PACKAGE);
    res.append("@");
    res.append(version);
    res
}

/// What `zip` reports of one archive entry before it is extracted.
pub struct ZipEntryInfo {
    pub name: String,
    pub unix_mode: Option<u32>,
    pub is_dir: bool,
    pub size: u64,
}

/// An archive entry as plain values: name, unix mode, directory flag, size.
pub type ZipEntryView = (Seq<char>, Option<u32>, bool, u64);

impl View for ZipEntryInfo {
    type V = ZipEntryView;

    open spec fn view(&self) -> ZipEntryView {
        (self.name@, self.unix_mode, self.is_dir, self.size)
    }
}

/// What to do with an accepted entry.
#[derive(Debug, PartialEq, Eq)]
pub enum EntryAction {
    /// Create this relative directory.
    CreateDir(String),
    /// Create this relative file, expecting exactly `size` bytes.
    WriteFile(String, u64),
}

/// The mathematical form of an `EntryAction`.
pub ghost enum ActionView {
    CreateDir(Seq<char>),
    WriteFile(Seq<char>, u64),
}

impl View for EntryAction {
    type V = ActionView;

    open spec fn view(&self) -> ActionView {
        match self {
            EntryAction::CreateDir(p) => ActionView::CreateDir(p@),
            EntryAction::WriteFile(p, n) => ActionView::WriteFile(p@, *n),
        }
    }
}

/// The unix mode of a symbolic link.
pub open spec fn is_symlink_mode(mode: Option<u32>) -> bool {
    mode matches Some(m) && (m & 0o170000u32) == 0o120000u32
}

/// The running checks of one extraction: the entry names seen so far and
/// the bytes declared by the files accepted so far.
pub struct ZipGuard {
    pub names: Vec<String>,
    pub extracted_bytes: u64,
}

/// Why `accept` refuses an entry, given the names seen and the bytes so far.
pub open spec fn entry_refusal(names: Seq<Seq<char>>, extracted: nat, e: ZipEntryView) -> Option<Seq<char>> {
    if names.contains(e.0) {
        Some("duplicate ZIP entry "@ + e.0)
    } else if !winpath::components_normal(e.0) {
        Some("unsafe ZIP entry "@ + e.0)
    } else if is_symlink_mode(e.1) {
        Some("symbolic links are not accepted in runtime archives"@)
    } else if e.2 {
        None
    } else if e.3 > MAX_EXTRACTED_FILE_BYTES {
        Some("ZIP entry exceeds per-file limit"@)
    } else if extracted + e.3 > MAX_EXTRACTED_BYTES {
        Some("runtime archive exceeds extracted size limit"@)
    } else {
        None
    }
}

impl ZipGuard {
    /// The names seen so far are distinct and the bytes stay within the limit.
    pub open spec fn wf(&self) -> bool {
        &&& self.extracted_bytes <= MAX_EXTRACTED_BYTES
        &&& text::views(self.names@).no_duplicates()
    }

    /// A guard that has seen nothing.
    pub fn new() -> (res: ZipGuard)
        ensures
            res.wf(),
            res.names@.len() == 0,
            res.extracted_bytes == 0,
    {
        let res = ZipGuard { names: Vec::new(), extracted_bytes: 0 };
        assert(text::views(res.names@) =~= Seq::<Seq<char>>::empty());
        res
    }

    /// An archive may hold at most `MAX_ARCHIVE_ENTRIES` entries.
    pub fn archive_size_ok(entries: usize) -> (res: Result<(), String>)
        ensures
            res is Ok <==> entries <= MAX_ARCHIVE_ENTRIES,
            res matches Err(e) ==> e@ == "runtime archive has too many entries"@,
    {
        if entries <= MAX_ARCHIVE_ENTRIES {
            Ok(())
        } else {
            Err(String::from_str("runtime archive has too many entries"))
        }
    }

    /// Admits the next entry: refuses a repeated name, a name that could leave
    /// the destination, a symbolic link, a file over the per-file limit and a
    /// total over the archive limit; records the name, and the size of a file.
    pub fn accept(&mut self, entry: ZipEntryInfo) -> (res: Result<EntryAction, String>)
        ensures
            old(self).wf() ==> final(self).wf(),
            match entry_refusal(text::views(old(self).names@), old(self).extracted_bytes as nat, entry@) {
                Some(m) => res matches Err(e) && e@ == m && *final(self) == *old(self),
                None => {
                    &&& text::views(final(self).names@) == text::views(old(self).names@).push(entry.name@)
                    &&& if entry.is_dir {
                        &&& final(self).extracted_bytes == old(self).extracted_bytes
                        &&& res matches Ok(EntryAction::CreateDir(p)) && p@ == entry.name@
                    } else {
                        &&& final(self).extracted_bytes == old(self).extracted_bytes + entry.size
                        &&& res matches Ok(EntryAction::WriteFile(p, n)) && p@ == entry.name@ && n
                            == entry.size
                    }
                },
            },
    {
        let mut k: usize = 0;
        while k < self.names.len()
            invariant
                k <= self.names@.len(),
                *self == *old(self),
                forall|j: int| 0 <= j < k ==> (#[trigger] self.names@[j])@ != entry.name@,
            decreases self.names@.len() - k,
        {
            if self.names[k] == entry.name {
                assert(text::views(self.names@)[k as int] == entry.name@);
                let mut m = String::from_str("duplicate ZIP entry ");
                m.append(entry.name.as_str());
                return Err(m);
            }
            k = k + 1;
        }
        assert(!text::views(self.names@).contains(entry.name@)) by {
            if text::views(self.names@).contains(entry.name@) {
                let j = choose|j: int| 0 <= j < text::views(self.names@).len() && text::views(self.names@)[j] == entry.name@;
                assert(self.names@[j]@ == entry.name@);
            }
        }
        let chars = text::chars_of(entry.name.as_str());
        if !winpath::components_normal_vec(&chars) {
            let mut m = String::from_str("unsafe ZIP entry ");
            m.append(entry.name.as_str());
            return Err(m);
        }
        if let Some(mode) = entry.unix_mode {
            if mode & 0o170000u32 == 0o120000u32 {
                return Err(String::from_str("symbolic links are not accepted in runtime archives"));
            }
        }
        if entry.is_dir {
            let path = entry.name.clone();
            let ghost names0 = text::views(self.names@);
            self.names.push(entry.name);
            proof {
                assert(text::views(self.names@) =~= names0.push(entry.name@));
                if names0.no_duplicates() {
                    lemma_push_fresh(names0, entry.name@);
                }
            }
            return Ok(EntryAction::CreateDir(path));
        }
        if entry.size > MAX_EXTRACTED_FILE_BYTES {
            return Err(String::from_str("ZIP entry exceeds per-file limit"));
        }
        if self.extracted_bytes > MAX_EXTRACTED_BYTES || entry.size > MAX_EXTRACTED_BYTES - self.extracted_bytes {
            return Err(String::from_str("runtime archive exceeds extracted size limit"));
        }
        self.extracted_bytes = self.extracted_bytes + entry.size;
        let path = entry.name.clone();
        let size = entry.size;
        let ghost names0 = text::views(self.names@);
        self.names.push(entry.name);
        proof {
            assert(text::views(self.names@) =~= names0.push(path@));
            if names0.no_duplicates() {
                lemma_push_fresh(names0, path@);
            }
        }
        Ok(EntryAction::WriteFile(path, size))
    }

    /// The bytes copied for a file must be the size its entry declared.
    pub fn check_copied(copied: u64, declared: u64) -> (res: Result<(), String>)
        ensures
            res is Ok <==> copied == declared,
            res matches Err(e) ==> e@ == "ZIP entry size mismatch"@,
    {
        if copied == declared {
            Ok(())
        } else {
            Err(String::from_str("ZIP entry size mismatch"))
        }
    }
}

/// What `zip` reads from archive bytes: the error text when
/// `zip::ZipArchive::new` refuses them, and otherwise, for each entry in index
/// order, its name, unix mode, directory flag and size, or the error text
/// `ZipArchive::by_index` gives for it.
pub uninterp spec fn zip_listing(bytes: Seq<u8>) -> Result<Seq<Result<ZipEntryView, Seq<char>>>, Seq<char>>;

/// The plain form of a listing.
pub open spec fn entry_views(v: Seq<Result<ZipEntryInfo, String>>) -> Seq<Result<ZipEntryView, Seq<char>>> {
    v.map_values(
        |r: Result<ZipEntryInfo, String>|
            match r {
                Ok(e) => Ok(e@),
                Err(m) => Err(m@),
            },
    )
}

/// Calls `zip::ZipArchive::new` on the bytes and, for each index below
/// `len`, `by_index` with the entry's `name`, `unix_mode`, `is_dir` and
/// `size`; errors are kept as their `Display` text. Claims only that the
/// outcome is the crate's for these bytes.
#[verifier::external_body]
pub(crate) fn list_zip_entries(bytes: &[u8]) -> (res: Result<Vec<Result<ZipEntryInfo, String>>, String>)
    ensures
        match zip_listing(bytes@) {
            Err(m) => res matches Err(e) && e@ == m,
            Ok(l) => res matches Ok(v) && entry_views(v@) == l,
        },
{
    zip::ZipArchive::new(std::io::Cursor::new(bytes)).map_err(|error| error.to_string()).map(|mut archive| {
        (0..archive.len()).map(|index| {
            archive.by_index(index).map(|entry| ZipEntryInfo {
                name: entry.name().to_owned(),
                unix_mode: entry.unix_mode(),
                is_dir: entry.is_dir(),
                size: entry.size(),
            }).map_err(|error| error.to_string())
        }).collect()
    })
}

/// What an accepted entry becomes.
pub open spec fn action_of(e: ZipEntryView) -> ActionView {
    if e.2 {
        ActionView::CreateDir(e.0)
    } else {
        ActionView::WriteFile(e.0, e.3)
    }
}

/// The path an action names.
pub open spec fn action_name(a: ActionView) -> Seq<char> {
    match a {
        ActionView::CreateDir(p) => p,
        ActionView::WriteFile(p, _) => p,
    }
}

/// The paths the actions name, in order.
pub open spec fn planned_names(acts: Seq<ActionView>) -> Seq<Seq<char>> {
    acts.map_values(|a: ActionView| action_name(a))
}

/// The bytes the file actions declare, together.
pub open spec fn planned_bytes(acts: Seq<ActionView>) -> nat
    decreases acts.len(),
{
    if acts.len() == 0 {
        0
    } else {
        planned_bytes(acts.drop_last()) + match acts.last() {
            ActionView::WriteFile(_, n) => n as nat,
            ActionView::CreateDir(_) => 0nat,
        }
    }
}

/// The actions for the listed entries, each checked in order by
/// `entry_refusal` against the entries before it; the first unreadable or
/// refused entry ends the plan with its error.
pub open spec fn plan_entries(l: Seq<Result<ZipEntryView, Seq<char>>>) -> Result<Seq<ActionView>, Seq<char>>
    decreases l.len(),
{
    if l.len() == 0 {
        Ok(Seq::empty())
    } else {
        match plan_entries(l.drop_last()) {
            Err(m) => Err(m),
            Ok(acts) => match l.last() {
                Err(m) => Err(text::caused("cannot inspect ZIP entry"@, m)),
                Ok(e) => match entry_refusal(planned_names(acts), planned_bytes(acts), e) {
                    Some(m) => Err(m),
                    None => Ok(acts.push(action_of(e))),
                },
            },
        }
    }
}

/// The extraction of an archive: refused when `zip` cannot read it or it has
/// more than `MAX_ARCHIVE_ENTRIES` entries, and otherwise `plan_entries`.
pub open spec fn extraction_plan(bytes: Seq<u8>) -> Result<Seq<ActionView>, Seq<char>> {
    match zip_listing(bytes) {
        Err(m) => Err(text::caused("invalid ZIP archive"@, m)),
        Ok(l) => if l.len() > MAX_ARCHIVE_ENTRIES {
            Err("runtime archive has too many entries"@)
        } else {
            plan_entries(l)
        },
    }
}

/// The plain form of the actions.
pub open spec fn action_views(v: Seq<EntryAction>) -> Seq<ActionView> {
    v.map_values(|a: EntryAction| a@)
}

proof fn lemma_plan_error_stays(l: Seq<Result<ZipEntryView, Seq<char>>>, k: int)
    requires
        0 <= k <= l.len(),
        plan_entries(l.take(k)) is Err,
    ensures
        plan_entries(l) == plan_entries(l.take(k)),
    decreases l.len() - k,
{
    if k == l.len() {
        assert(l.take(k) =~= l);
    } else {
        assert(l.take(k + 1).drop_last() =~= l.take(k));
        lemma_plan_error_stays(l, k + 1);
    }
}

/// Plans the unpacking of a runtime archive: every entry is read by `zip`
/// and accepted by a `ZipGuard` in index order before anything is written
/// (see `extraction_plan`). The actions come in the archive's index order.
pub fn plan_extraction(bytes: &[u8]) -> (res: Result<Vec<EntryAction>, String>)
    ensures
        match extraction_plan(bytes@) {
            Ok(acts) => res matches Ok(v) && action_views(v@) == acts,
            Err(m) => res matches Err(e) && e@ == m,
        },
{
    let entries = match list_zip_entries(bytes) {
        Err(cause) => {
            return Err(text::with_cause("invalid ZIP archive", cause.as_str()));
        },
        Ok(v) => v,
    };
    let ghost l = entry_views(entries@);
    ZipGuard::archive_size_ok(entries.len())?;
    let mut guard = ZipGuard::new();
    let mut actions: Vec<EntryAction> = Vec::new();
    let mut i: usize = 0;
    assert(l.take(0) =~= Seq::<Result<ZipEntryView, Seq<char>>>::empty());
    assert(action_views(actions@) =~= Seq::<ActionView>::empty());
    assert(text::views(guard.names@) =~= planned_names(action_views(actions@)));
    while i < entries.len()
        invariant
            i <= entries@.len(),
            l == entry_views(entries@),
            l.len() == entries@.len(),
            zip_listing(bytes@) == Ok::<Seq<Result<ZipEntryView, Seq<char>>>, Seq<char>>(l),
            l.len() <= MAX_ARCHIVE_ENTRIES,
            guard.wf(),
            text::views(guard.names@) == planned_names(action_views(actions@)),
            guard.extracted_bytes == planned_bytes(action_views(actions@)),
            plan_entries(l.take(i as int)) == Ok::<Seq<ActionView>, Seq<char>>(action_views(actions@)),
        decreases entries@.len() - i,
    {
        let ghost acts = action_views(actions@);
        assert(l.take(i + 1).drop_last() =~= l.take(i as int));
        assert(l.take(i + 1).last() == l[i as int]);
        match &entries[i] {
            Err(cause) => {
                proof {
                    lemma_plan_error_stays(l, i + 1);
                }
                return Err(text::with_cause("cannot inspect ZIP entry", cause.as_str()));
            },
            Ok(entry) => {
                let info = ZipEntryInfo {
                    name: entry.name.clone(),
                    unix_mode: entry.unix_mode,
                    is_dir: entry.is_dir,
                    size: entry.size,
                };
                assert(info@ == entry@);
                match guard.accept(info) {
                    Err(m) => {
                        proof {
                            lemma_plan_error_stays(l, i + 1);
                        }
                        return Err(m);
                    },
                    Ok(action) => {
                        actions.push(action);
                        proof {
                            assert(action_views(actions@) =~= acts.push(action_of(entry@)));
                            assert(planned_names(acts.push(action_of(entry@))) =~= planned_names(acts).push(entry@.0));
                            assert(acts.push(action_of(entry@)).drop_last() =~= acts);
                        }
                    },
                }
            },
        }
        i = i + 1;
    }
    assert(l.take(entries@.len() as int) =~= l);
    Ok(actions)
}

proof fn lemma_push_fresh(s: Seq<Seq<char>>, x: Seq<char>)
    requires
        s.no_duplicates(),
        !s.contains(x),
    ensures
        s.push(x).no_duplicates(),
{
    assert forall|i: int, j: int|
        0 <= i < s.push(x).len() && 0 <= j < s.push(x).len() && i != j implies s.push(x)[i]
        != s.push(x)[j] by {
        if i < s.len() && j < s.len() {
        } else if i == s.len() {
            assert(s.push(x)[j] == s[j]);
        } else {
            assert(s.push(x)[i] == s[i]);
        }
    }
}

} // verus!
