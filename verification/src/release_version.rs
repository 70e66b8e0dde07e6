//! Release version strings of the form `major.minor.patch[-pre.release.parts]`
//! and their precedence, as the manifest layer reads and orders them.
use vstd::prelude::*;
use crate::text;

verus! {

/// The parts of a release version string.
pub ghost struct VersionParts {
    pub major: nat,
    pub minor: nat,
    pub patch: nat,
    pub suffix: Seq<Seq<char>>,
}

/// The error text that names an unreadable version or version part.
pub open spec fn invalid_version(value: Seq<char>) -> Seq<char> {
    "invalid version "@ + value
}

/// The text before the first `-` of a version.
pub open spec fn version_core(s: Seq<char>) -> Seq<char> {
    text::split_spec(s, '-')[0]
}

/// The text after the first `-` of a version, if it has one.
pub open spec fn version_prerelease(s: Seq<char>) -> Option<Seq<char>> {
    if text::split_spec(s, '-').len() <= 1 {
        None
    } else {
        Some(s.skip(version_core(s).len() + 1 as int))
    }
}

/// The dot-separated prerelease parts of a version (empty for a release).
pub open spec fn version_suffix(s: Seq<char>) -> Seq<Seq<char>> {
    match version_prerelease(s) {
        Some(p) => text::split_spec(p, '.'),
        None => Seq::empty(),
    }
}

/// Reads a version: exactly three dot-separated `u64` numbers before the first
/// `-`, and after it, if present, a non-empty list of non-empty dot-separated parts.
pub open spec fn parse_version_spec(s: Seq<char>) -> Option<VersionParts> {
    let nums = text::split_spec(version_core(s), '.');
    if nums.len() != 3 {
        None
    } else if text::parse_u64_spec(nums[0]) is None || text::parse_u64_spec(nums[1]) is None
        || text::parse_u64_spec(nums[2]) is None {
        None
    } else if version_prerelease(s) matches Some(p) && p.len() == 0 {
        None
    } else if exists|k: int|
        0 <= k < version_suffix(s).len() && (#[trigger] version_suffix(s)[k]).len() == 0 {
        None
    } else {
        Some(
            VersionParts {
                major: text::parse_u64_spec(nums[0]).unwrap(),
                minor: text::parse_u64_spec(nums[1]).unwrap(),
                patch: text::parse_u64_spec(nums[2]).unwrap(),
                suffix: version_suffix(s),
            },
        )
    }
}

/// The order of one pair of prerelease parts: numeric parts by value (an
/// error if one does not fit in a `u64`), numeric before alphanumeric, and
/// alphanumeric parts lexically.
pub open spec fn part_order(a: Seq<char>, b: Seq<char>) -> Result<int, Seq<char>> {
    if text::all_digits(a) && text::all_digits(b) {
        match text::parse_u64_spec(a) {
            None => Err(invalid_version(a)),
            Some(x) => match text::parse_u64_spec(b) {
                None => Err(invalid_version(b)),
                Some(y) => Ok(text::sign(x - y)),
            },
        }
    } else if text::all_digits(a) {
        Ok(-1)
    } else if text::all_digits(b) {
        Ok(1)
    } else {
        Ok(text::lex_order(a, b))
    }
}

/// Compares two non-empty prerelease part lists part by part; when one list is
/// a prefix of the other, the shorter one comes first.
pub open spec fn suffix_order(l: Seq<Seq<char>>, r: Seq<Seq<char>>) -> Result<int, Seq<char>>
    decreases l.len(),
{
    if l.len() == 0 || r.len() == 0 {
        Ok(text::sign(l.len() - r.len()))
    } else {
        match part_order(l[0], r[0]) {
            Err(e) => Err(e),
            Ok(o) => if o != 0 {
                Ok(o)
            } else {
                suffix_order(l.drop_first(), r.drop_first())
            },
        }
    }
}

/// The precedence of two version strings: -1, 0 or 1, or the error text for
/// the first unreadable version or prerelease part. The three numbers decide
/// first; a version without prerelease parts comes after one with them.
pub open spec fn version_order(left: Seq<char>, right: Seq<char>) -> Result<int, Seq<char>> {
    match parse_version_spec(left) {
        None => Err(invalid_version(left)),
        Some(l) => match parse_version_spec(right) {
            None => Err(invalid_version(right)),
            Some(r) => if l.major != r.major {
                Ok(text::sign(l.major - r.major))
            } else if l.minor != r.minor {
                Ok(text::sign(l.minor - r.minor))
            } else if l.patch != r.patch {
                Ok(text::sign(l.patch - r.patch))
            } else if l.suffix.len() == 0 && r.suffix.len() == 0 {
                Ok(0)
            } else if l.suffix.len() == 0 {
                Ok(1)
            } else if r.suffix.len() == 0 {
                Ok(-1)
            } else {
                suffix_order(l.suffix, r.suffix)
            },
        },
    }
}

pub proof fn lemma_part_order_range(a: Seq<char>, b: Seq<char>)
    ensures
        part_order(a, b) matches Ok(o) ==> -1 <= o <= 1,
{
    text::lemma_lex_antisymmetric(a, b);
}

pub proof fn lemma_suffix_order_range(l: Seq<Seq<char>>, r: Seq<Seq<char>>)
    ensures
        suffix_order(l, r) matches Ok(o) ==> -1 <= o <= 1,
    decreases l.len(),
{
    if l.len() > 0 && r.len() > 0 {
        lemma_part_order_range(l[0], r[0]);
        lemma_suffix_order_range(l.drop_first(), r.drop_first());
    }
}

/// Every precedence is -1, 0 or 1.
pub proof fn lemma_version_order_range(left: Seq<char>, right: Seq<char>)
    ensures
        version_order(left, right) matches Ok(o) ==> -1 <= o <= 1,
{
    if let (Some(l), Some(r)) = (parse_version_spec(left), parse_version_spec(right)) {
        lemma_suffix_order_range(l.suffix, r.suffix);
    }
}


pub proof fn lemma_part_order_antisymmetric(a: Seq<char>, b: Seq<char>)
    ensures
        part_order(a, b) is Err <==> part_order(b, a) is Err,
        part_order(a, b) matches Ok(o) ==> part_order(b, a) == Ok::<int, Seq<char>>(-o),
{
    text::lemma_lex_antisymmetric(a, b);
}

pub proof fn lemma_suffix_order_antisymmetric(l: Seq<Seq<char>>, r: Seq<Seq<char>>)
    ensures
        suffix_order(l, r) is Err <==> suffix_order(r, l) is Err,
        suffix_order(l, r) matches Ok(o) ==> suffix_order(r, l) == Ok::<int, Seq<char>>(-o),
    decreases l.len(),
{
    if l.len() > 0 && r.len() > 0 {
        lemma_part_order_antisymmetric(l[0], r[0]);
        lemma_suffix_order_antisymmetric(l.drop_first(), r.drop_first());
    }
}

/// Precedence is antisymmetric: swapping the two versions negates the order,
/// and an unreadable pair stays unreadable.
pub proof fn version_order_antisymmetric(left: Seq<char>, right: Seq<char>)
    ensures
        version_order(left, right) is Err <==> version_order(right, left) is Err,
        version_order(left, right) matches Ok(o) ==> version_order(right, left) == Ok::<
            int,
            Seq<char>,
        >(-o),
{
    if let (Some(l), Some(r)) = (parse_version_spec(left), parse_version_spec(right)) {
        lemma_suffix_order_antisymmetric(l.suffix, r.suffix);
    }
}

pub proof fn lemma_part_order_transitive(a: Seq<char>, b: Seq<char>, c: Seq<char>)
    requires
        part_order(a, b) matches Ok(x) && x <= 0,
        part_order(b, c) matches Ok(y) && y <= 0,
    ensures
        part_order(a, c) matches Ok(z) && z <= 0 && (part_order(a, b)->Ok_0 < 0 || part_order(b, c)->Ok_0 < 0 ==> z < 0),
{
    if !text::all_digits(a) && !text::all_digits(b) && !text::all_digits(c) {
        text::lemma_lex_transitive(a, b, c);
    }
}

pub proof fn lemma_suffix_order_transitive(l: Seq<Seq<char>>, m: Seq<Seq<char>>, r: Seq<Seq<char>>)
    requires
        suffix_order(l, m) matches Ok(x) && x <= 0,
        suffix_order(m, r) matches Ok(y) && y <= 0,
    ensures
        suffix_order(l, r) matches Ok(z) && z <= 0 && (suffix_order(l, m)->Ok_0 < 0 || suffix_order(m, r)->Ok_0 < 0 ==> z < 0),
    decreases l.len(),
{
    if l.len() > 0 && m.len() > 0 && r.len() > 0 {
        lemma_part_order_range(l[0], m[0]);
        lemma_part_order_range(m[0], r[0]);
        lemma_part_order_transitive(l[0], m[0], r[0]);
        if part_order(l[0], m[0]) == Ok::<int, Seq<char>>(0) && part_order(m[0], r[0]) == Ok::<int, Seq<char>>(0) {
            lemma_suffix_order_transitive(l.drop_first(), m.drop_first(), r.drop_first());
        }
    }
}

/// Precedence is transitive: a version at or below a second one that is at
/// or below a third is at or below the third, and strictly below it when
/// either step is strict; such a triple is never unreadable.
pub proof fn version_order_transitive(a: Seq<char>, b: Seq<char>, c: Seq<char>)
    requires
        version_order(a, b) matches Ok(x) && x <= 0,
        version_order(b, c) matches Ok(y) && y <= 0,
    ensures
        version_order(a, c) matches Ok(z) && z <= 0 && (version_order(a, b)->Ok_0 < 0 || version_order(b, c)->Ok_0 < 0 ==> z < 0),
{
    let pa = parse_version_spec(a).unwrap();
    let pb = parse_version_spec(b).unwrap();
    let pc = parse_version_spec(c).unwrap();
    if pa.major == pb.major && pb.major == pc.major && pa.minor == pb.minor && pb.minor == pc.minor
        && pa.patch == pb.patch && pb.patch == pc.patch && pa.suffix.len() > 0 && pb.suffix.len() > 0
        && pc.suffix.len() > 0 {
        lemma_suffix_order_transitive(pa.suffix, pb.suffix, pc.suffix);
    }
}

/// Every numeric prerelease part fits in a `u64`.
pub open spec fn numeric_parts_fit(parts: Seq<Seq<char>>) -> bool {
    forall|k: int|
        0 <= k < parts.len() && text::all_digits(#[trigger] parts[k]) ==> text::parse_u64_spec(
            parts[k],
        ) is Some
}

pub proof fn lemma_suffix_order_reflexive(l: Seq<Seq<char>>)
    requires
        numeric_parts_fit(l),
    ensures
        suffix_order(l, l) == Ok::<int, Seq<char>>(0),
    decreases l.len(),
{
    if l.len() > 0 {
        text::lemma_lex_zero_equal(l[0], l[0]);
        assert(numeric_parts_fit(l.drop_first())) by {
            assert forall|k: int|
                0 <= k < l.drop_first().len() && text::all_digits(
                    #[trigger] l.drop_first()[k],
                ) implies text::parse_u64_spec(l.drop_first()[k]) is Some by {
                assert(l.drop_first()[k] == l[k + 1]);
            }
        }
        lemma_suffix_order_reflexive(l.drop_first());
    }
}

/// Precedence is reflexive: a readable version whose numeric prerelease parts
/// fit in a `u64` is equal to itself.
pub proof fn version_order_reflexive(v: Seq<char>)
    requires
        parse_version_spec(v) is Some,
        numeric_parts_fit(parse_version_spec(v).unwrap().suffix),
    ensures
        version_order(v, v) == Ok::<int, Seq<char>>(0),
{
    lemma_suffix_order_reflexive(parse_version_spec(v).unwrap().suffix);
}

/// A parsed version whose prerelease parts are index ranges into the
/// character vector it was read from.
pub struct ParsedVersion {
    pub major: u64,
    pub minor: u64,
    pub patch: u64,
    pub suffix: Vec<(usize, usize)>,
}

impl ParsedVersion {
    /// The ranges of `self.suffix` lie in `v` and spell the parts of `p`.
    pub open spec fn matches(&self, v: Seq<char>, p: VersionParts) -> bool {
        &&& self.major == p.major
        &&& self.minor == p.minor
        &&& self.patch == p.patch
        &&& self.suffix.len() == p.suffix.len()
        &&& forall|k: int|
            0 <= k < self.suffix.len() ==> (#[trigger] self.suffix@[k]).0 <= self.suffix@[k].1
                <= v.len() && v.subrange(self.suffix@[k].0 as int, self.suffix@[k].1 as int)
                == p.suffix[k]
    }
}

/// Builds the error text `invalid version <value>`.
pub fn invalid_version_text(v: &Vec<char>, lo: usize, hi: usize) -> (res: String)
    requires
        lo <= hi <= v.len(),
    ensures
        res@ == invalid_version(v@.subrange(lo as int, hi as int)),
{
    let mut res = String::from_str("invalid version ");
    let mut i = lo;
    while i < hi
        invariant
            lo <= i <= hi <= v.len(),
            res@ == "invalid version "@ + v@.subrange(lo as int, i as int),
        decreases hi - i,
    {
        text::push_char(&mut res, v[i]);
        assert(v@.subrange(lo as int, i + 1 as int) =~= v@.subrange(lo as int, i as int).push(
            v@[i as int],
        ));
        assert(("invalid version "@ + v@.subrange(lo as int, i as int)).push(v@[i as int])
            =~= "invalid version "@ + v@.subrange(lo as int, i + 1 as int));
        i = i + 1;
    }
    res
}

/// Reads the version held in `v` (see `parse_version_spec`).
pub fn parse_version(v: &Vec<char>) -> (res: Option<ParsedVersion>)
    ensures
        match parse_version_spec(v@) {
            None => res is None,
            Some(p) => res matches Some(q) && q.matches(v@, p),
        },
{
    let n = v.len();
    let dash = text::split_ranges(v, 0, n, '-');
    proof {
        assert(v@.subrange(0, n as int) =~= v@);
    }
    let core_end = dash[0].1;
    assert(v@.subrange(0, core_end as int) == version_core(v@));
    let nums = text::split_ranges(v, 0, core_end, '.');
    if nums.len() != 3 {
        return None;
    }
    let major = text::parse_u64(v, nums[0].0, nums[0].1);
    let minor = text::parse_u64(v, nums[1].0, nums[1].1);
    let patch = text::parse_u64(v, nums[2].0, nums[2].1);
    if major.is_none() || minor.is_none() || patch.is_none() {
        return None;
    }
    let mut suffix: Vec<(usize, usize)> = Vec::new();
    if dash.len() > 1 {
        let pre_start = core_end + 1;
        assert(dash@[0].1 + 1 == dash@[1].0);
        assert(v@.subrange(pre_start as int, n as int) =~= v@.skip(version_core(v@).len() + 1 as int));
        if pre_start == n {
            return None;
        }
        let parts = text::split_ranges(v, pre_start, n, '.');
        let mut k: usize = 0;
        while k < parts.len()
            invariant
                k <= parts.len(),
                pre_start <= n == v.len(),
                parts.len() == version_suffix(v@).len(),
                version_prerelease(v@) == Some(v@.subrange(pre_start as int, n as int)),
                forall|j: int|
                    0 <= j < parts.len() ==> pre_start <= (#[trigger] parts@[j]).0 <= parts@[j].1
                        <= n && v@.subrange(parts@[j].0 as int, parts@[j].1 as int)
                        == version_suffix(v@)[j],
                forall|j: int| 0 <= j < k ==> (#[trigger] version_suffix(v@)[j]).len() != 0,
                suffix@ == parts@.take(k as int),
            decreases parts.len() - k,
        {
            let (a, b) = parts[k];
            if a == b {
                assert(version_suffix(v@)[k as int].len() == 0);
                return None;
            }
            suffix.push((a, b));
            k = k + 1;
            assert(suffix@ =~= parts@.take(k as int));
        }
        assert(suffix@ =~= parts@);
    } else {
        assert(version_suffix(v@) =~= Seq::<Seq<char>>::empty());
    }
    let ghost p = parse_version_spec(v@).unwrap();
    let res = ParsedVersion {
        major: major.unwrap(),
        minor: minor.unwrap(),
        patch: patch.unwrap(),
        suffix,
    };
    assert(res.matches(v@, p));
    Some(res)
}

/// `part_order` of `v[a0..a1]` and `w[b0..b1]`.
pub fn compare_parts(v: &Vec<char>, a0: usize, a1: usize, w: &Vec<char>, b0: usize, b1: usize) -> (res: Result<i8, String>)
    requires
        a0 <= a1 <= v.len(),
        b0 <= b1 <= w.len(),
    ensures
        match part_order(v@.subrange(a0 as int, a1 as int), w@.subrange(b0 as int, b1 as int)) {
            Ok(o) => res == Ok::<i8, String>(o as i8),
            Err(e) => res matches Err(m) && m@ == e,
        },
        part_order(v@.subrange(a0 as int, a1 as int), w@.subrange(b0 as int, b1 as int)) matches Ok(
            o,
        ) ==> -1 <= o <= 1,
{
    proof {
        text::lemma_lex_antisymmetric(v@.subrange(a0 as int, a1 as int), w@.subrange(b0 as int, b1 as int));
    }
    let left_numeric = text::range_all_digits(v, a0, a1);
    let right_numeric = text::range_all_digits(w, b0, b1);
    if left_numeric && right_numeric {
        let x = text::parse_u64(v, a0, a1);
        if x.is_none() {
            return Err(invalid_version_text(v, a0, a1));
        }
        let y = text::parse_u64(w, b0, b1);
        if y.is_none() {
            return Err(invalid_version_text(w, b0, b1));
        }
        let x = x.unwrap();
        let y = y.unwrap();
        if x < y {
            Ok(-1)
        } else if x > y {
            Ok(1)
        } else {
            Ok(0)
        }
    } else if left_numeric {
        Ok(-1)
    } else if right_numeric {
        Ok(1)
    } else {
        let o = text::range_lex_order(v, a0, a1, w, b0, b1);
        proof {
            text::lemma_lex_antisymmetric(v@.subrange(a0 as int, a1 as int), w@.subrange(b0 as int, b1 as int));
        }
        Ok(o)
    }
}

/// `version_order` of the versions held in `v` and `w`, as -1, 0 or 1.
pub fn order_versions(v: &Vec<char>, w: &Vec<char>) -> (res: Result<i8, String>)
    ensures
        match version_order(v@, w@) {
            Ok(o) => res == Ok::<i8, String>(o as i8),
            Err(e) => res matches Err(m) && m@ == e,
        },
{
    let l = parse_version(v);
    if l.is_none() {
        return Err(invalid_version_text(v, 0, v.len()));
    }
    let r = parse_version(w);
    if r.is_none() {
        return Err(invalid_version_text(w, 0, w.len()));
    }
    proof {
        assert(v@.subrange(0, v.len() as int) =~= v@);
        assert(w@.subrange(0, w.len() as int) =~= w@);
    }
    let l = l.unwrap();
    let r = r.unwrap();
    let ghost lp = parse_version_spec(v@).unwrap();
    let ghost rp = parse_version_spec(w@).unwrap();
    if l.major != r.major {
        return if l.major < r.major { Ok(-1) } else { Ok(1) };
    }
    if l.minor != r.minor {
        return if l.minor < r.minor { Ok(-1) } else { Ok(1) };
    }
    if l.patch != r.patch {
        return if l.patch < r.patch { Ok(-1) } else { Ok(1) };
    }
    let ln = l.suffix.len();
    let rn = r.suffix.len();
    if ln == 0 && rn == 0 {
        return Ok(0);
    }
    if ln == 0 {
        return Ok(1);
    }
    if rn == 0 {
        return Ok(-1);
    }
    let mut k: usize = 0;
    assert(version_order(v@, w@) == suffix_order(lp.suffix, rp.suffix));
    assert(lp.suffix.skip(0) =~= lp.suffix);
    assert(rp.suffix.skip(0) =~= rp.suffix);
    while k < ln && k < rn
        invariant
            ln == l.suffix.len(),
            rn == r.suffix.len(),
            l.matches(v@, lp),
            r.matches(w@, rp),
            k <= ln,
            k <= rn,
            version_order(v@, w@) == suffix_order(lp.suffix, rp.suffix),
            suffix_order(lp.suffix, rp.suffix) == suffix_order(
                lp.suffix.skip(k as int),
                rp.suffix.skip(k as int),
            ),
        decreases ln - k,
    {
        let (a0, a1) = l.suffix[k];
        let (b0, b1) = r.suffix[k];
        let o = compare_parts(v, a0, a1, w, b0, b1);
        let ghost ls = lp.suffix.skip(k as int);
        let ghost rs = rp.suffix.skip(k as int);
        assert(ls[0] == lp.suffix[k as int]);
        assert(rs[0] == rp.suffix[k as int]);
        assert(ls.drop_first() =~= lp.suffix.skip(k + 1));
        assert(rs.drop_first() =~= rp.suffix.skip(k + 1));
        assert(v@.subrange(a0 as int, a1 as int) == lp.suffix[k as int]) by {
            assert(l.suffix@[k as int] == (a0, a1));
        }
        assert(w@.subrange(b0 as int, b1 as int) == rp.suffix[k as int]) by {
            assert(r.suffix@[k as int] == (b0, b1));
        }
        assert(ls.len() > 0 && rs.len() > 0);
        match o {
            Err(e) => {
                return Err(e);
            },
            Ok(x) => {
                if x != 0 {
                    return Ok(x);
                }
            },
        }
        k = k + 1;
    }
    if ln < rn {
        Ok(-1)
    } else if ln > rn {
        Ok(1)
    } else {
        Ok(0)
    }
}

} // verus!
