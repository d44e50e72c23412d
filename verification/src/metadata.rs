//! Document-wide metadata: the two-dialect value wrapper, schema
//! versions and namespaces, fresh identifiers, revision history, and the
//! shared color-encoding leaf types.
use vstd::prelude::*;

use crate::display::Chromaticity;
use crate::text::dec_str;

verus! {

/// A leaf value tagged with the schema dialect it will be rendered for.
/// The legacy dialect joins the value's components with commas, the
/// current dialect with spaces.
#[derive(Clone, Copy, Debug, PartialEq, Eq, Structural)]
pub enum MDFType<T> {
    CMV29(T),
    CMV40(T),
}

/// The value inside an `MDFType`, whichever dialect tags it.
pub open spec fn mdf_inner_spec<T>(m: MDFType<T>) -> T {
    match m {
        MDFType::CMV29(t) => t,
        MDFType::CMV40(t) => t,
    }
}

/// Whether an `MDFType` carries the legacy tag.
pub open spec fn is_cmv29<T>(m: MDFType<T>) -> bool {
    match m {
        MDFType::CMV29(_) => true,
        MDFType::CMV40(_) => false,
    }
}

impl<T> MDFType<T> {
    /// Unwraps the value, dropping the dialect tag.
    pub fn into_inner(self) -> (r: T)
        ensures
            r == mdf_inner_spec(self),
    {
        match self {
            MDFType::CMV29(t) => t,
            MDFType::CMV40(t) => t,
        }
    }

    /// A new value under this value's dialect tag.
    pub fn with_new_inner<U>(&self, value: U) -> (r: MDFType<U>)
        ensures
            mdf_inner_spec(r) == value,
            is_cmv29(r) == is_cmv29(*self),
    {
        match self {
            MDFType::CMV29(_) => MDFType::CMV29(value),
            MDFType::CMV40(_) => MDFType::CMV40(value),
        }
    }
}

/// Conversion of a current-dialect document node into its legacy-dialect
/// counterpart.
pub trait IntoCMV29<T>: Sized {
    fn into_cmv29(self) -> T;
}

impl<T> IntoCMV29<MDFType<T>> for MDFType<T> {
    fn into_cmv29(self) -> MDFType<T> {
        match self {
            MDFType::CMV29(t) => MDFType::CMV29(t),
            MDFType::CMV40(t) => MDFType::CMV29(t),
        }
    }
}

impl<T, U: IntoCMV29<T>> IntoCMV29<Option<T>> for Option<U> {
    fn into_cmv29(self) -> Option<T> {
        match self {
            Some(v) => Some(v.into_cmv29()),
            None => None,
        }
    }
}

impl<T, U: IntoCMV29<T>> IntoCMV29<Vec<T>> for Vec<U> {
    fn into_cmv29(self) -> Vec<T> {
        let mut out: Vec<T> = Vec::new();
        let mut items = self;
        let mut stack: Vec<U> = Vec::new();
        loop
            invariant
                true,
            decreases items.len(),
        {
            match items.pop() {
                Some(v) => stack.push(v),
                None => { break ; },
            }
        }
        loop
            invariant
                true,
            decreases stack.len(),
        {
            match stack.pop() {
                Some(v) => out.push(v.into_cmv29()),
                None => { break ; },
            }
        }
        out
    }
}

/// Re-tags the inner value of an `MDFType` as legacy.
pub fn mdf_to_cmv29<T>(m: MDFType<T>) -> (r: MDFType<T>)
    ensures
        mdf_inner_spec(r) == mdf_inner_spec(m),
        is_cmv29(r),
{
    match m {
        MDFType::CMV29(t) => MDFType::CMV29(t),
        MDFType::CMV40(t) => MDFType::CMV29(t),
    }
}

/// The signal encoding of a display or track.
#[derive(Clone, Copy, Debug, PartialEq, Eq, Structural)]
pub enum EncodingEnum {
    Pq,
    Linear,
    GammaBT1886,
    GammaDCI,
    Gamma22,
    Gamma24,
    Hlg,
}

/// Wrapper node around the signal encoding.
#[derive(Clone, Copy, Debug, PartialEq, Eq, Structural)]
pub struct Encoding {
    pub encoding: EncodingEnum,
}

/// The transfer function named by a display-table index.
pub open spec fn encoding_from_index_spec(index: nat) -> EncodingEnum {
    if index == 0 {
        EncodingEnum::Pq
    } else if index == 1 {
        EncodingEnum::Linear
    } else if index == 2 {
        EncodingEnum::GammaBT1886
    } else if index == 3 {
        EncodingEnum::GammaDCI
    } else if index == 4 {
        EncodingEnum::Gamma22
    } else if index == 5 {
        EncodingEnum::Gamma24
    } else {
        EncodingEnum::Hlg
    }
}

/// Decodes a display-table transfer-function index.
pub fn encoding_from_index(index: u64) -> (r: EncodingEnum)
    ensures
        r == encoding_from_index_spec(index as nat),
{
    if index == 0 {
        EncodingEnum::Pq
    } else if index == 1 {
        EncodingEnum::Linear
    } else if index == 2 {
        EncodingEnum::GammaBT1886
    } else if index == 3 {
        EncodingEnum::GammaDCI
    } else if index == 4 {
        EncodingEnum::Gamma22
    } else if index == 5 {
        EncodingEnum::Gamma24
    } else {
        EncodingEnum::Hlg
    }
}

/// The color space of a track (only RGB is produced).
#[derive(Clone, Copy, Debug, PartialEq, Eq, Structural)]
pub enum ColorSpaceEnum {
    Rgb,
}

/// Wrapper node around the color space.
#[derive(Clone, Copy, Debug, PartialEq, Eq, Structural)]
pub struct ColorSpace {
    pub color_space: ColorSpaceEnum,
}

/// The application scope of a display description.
#[derive(Clone, Copy, Debug, PartialEq, Eq, Structural)]
pub enum ApplicationTypeEnum {
    All,
    Home,
}

/// Wrapper node around the application scope.
#[derive(Clone, Copy, Debug, PartialEq, Eq, Structural)]
pub struct ApplicationType {
    pub application_type: ApplicationTypeEnum,
}

/// The signal range of a track (only full/computer range is produced).
#[derive(Clone, Copy, Debug, PartialEq, Eq, Structural)]
pub enum SignalRangeEnum {
    Computer,
}

/// Wrapper node around the signal range.
#[derive(Clone, Copy, Debug, PartialEq, Eq, Structural)]
pub struct SignalRange {
    pub signal_range: SignalRangeEnum,
}

/// The three document schema versions this crate can emit.
#[derive(Clone, Copy, Debug, PartialEq, Eq, Structural)]
pub enum XMLVersion {
    V205,
    V402,
    V510,
}

/// A dotted three-part schema version.
#[derive(Clone, Copy, Debug, PartialEq, Eq, Structural)]
pub struct Version {
    pub major: u64,
    pub minor: u64,
    pub revision: u64,
}

/// The numeric value of each named schema version.
pub open spec fn version_of_spec(v: XMLVersion) -> Version {
    match v {
        XMLVersion::V205 => Version { major: 2, minor: 0, revision: 5 },
        XMLVersion::V402 => Version { major: 4, minor: 0, revision: 2 },
        XMLVersion::V510 => Version { major: 5, minor: 1, revision: 0 },
    }
}

/// The namespace string of a schema version: a fixed prefix followed by
/// the underscore-joined version parts.
pub open spec fn dolby_xmlns_spec(v: Version) -> Seq<char> {
    "http://www.dolby.com/schemas/dvmd/"@ + dec_str(v.major as nat) + "_"@ + dec_str(
        v.minor as nat,
    ) + "_"@ + dec_str(v.revision as nat)
}

/// The dotted rendering of a version, as in the document's Version node.
pub open spec fn version_text_spec(v: Version) -> Seq<char> {
    dec_str(v.major as nat) + "."@ + dec_str(v.minor as nat) + "."@ + dec_str(v.revision as nat)
}

impl Version {
    /// The numeric version for a named schema version.
    pub fn from_xml_version(v: XMLVersion) -> (r: Version)
        ensures
            r == version_of_spec(v),
    {
        match v {
            XMLVersion::V205 => Version { major: 2, minor: 0, revision: 5 },
            XMLVersion::V402 => Version { major: 4, minor: 0, revision: 2 },
            XMLVersion::V510 => Version { major: 5, minor: 1, revision: 0 },
        }
    }

    /// The document namespace for this version.
    pub fn get_dolby_xmlns(&self) -> (r: String)
        ensures
            r@ == dolby_xmlns_spec(*self),
    {
        let mut s = String::new();
        s.append("http://www.dolby.com/schemas/dvmd/");
        crate::text::append_decimal(&mut s, self.major);
        s.append("_");
        crate::text::append_decimal(&mut s, self.minor);
        s.append("_");
        crate::text::append_decimal(&mut s, self.revision);
        proof {
            assert(s@ =~= dolby_xmlns_spec(*self));
        }
        s
    }

    /// The dotted text of this version.
    pub fn to_text(&self) -> (r: String)
        ensures
            r@ == version_text_spec(*self),
    {
        let mut s = String::new();
        crate::text::append_decimal(&mut s, self.major);
        s.append(".");
        crate::text::append_decimal(&mut s, self.minor);
        s.append(".");
        crate::text::append_decimal(&mut s, self.revision);
        proof {
            assert(s@ =~= version_text_spec(*self));
        }
        s
    }

    /// Whether this version lies strictly above the least current-dialect
    /// version (4.0.2), ordering the parts lexicographically.
    pub fn above_min_cmv40(&self) -> (r: bool)
        ensures
            r == version_above_min_cmv40_spec(*self),
    {
        if self.major != 4 {
            self.major > 4
        } else if self.minor != 0 {
            self.minor > 0
        } else {
            self.revision > 2
        }
    }
}

/// Lexicographic comparison of a version against the least
/// current-dialect version, 4.0.2.
pub open spec fn version_above_min_cmv40_spec(v: Version) -> bool {
    v.major > 4 || (v.major == 4 && (v.minor > 0 || (v.minor == 0 && v.revision > 2)))
}

/// A fresh opaque identifier used for document linking.
///
/// Relies on `uuid::Uuid::new_v4` and its `Display` rendering: a random
/// version-4 UUID in the 36-character hyphenated form.  Nothing beyond
/// the length is promised: the value is random.
#[verifier::external_body]
fn fresh_uuid_string() -> (r: String)
    ensures
        r@.len() == 36,
{
    uuid::Uuid::new_v4().to_string()
}

/// An opaque unique identifier in hyphenated UUID form.
#[derive(Clone, Debug)]
pub struct UUIDv4(pub String);

impl UUIDv4 {
    /// A fresh random identifier.
    pub fn new() -> (r: Self)
        ensures
            r.0@.len() == 36,
    {
        UUIDv4(fresh_uuid_string())
    }
}

impl Default for UUIDv4 {
    /// The all-zero identifier.
    fn default() -> (r: Self)
        ensures
            r.0@ == "00000000-0000-0000-0000-000000000000"@,
    {
        let mut s = String::new();
        s.append("00000000-0000-0000-0000-000000000000");
        proof {
            assert(s@ =~= "00000000-0000-0000-0000-000000000000"@);
        }
        UUIDv4(s)
    }
}

/// The current UTC time.
///
/// Relies on `chrono::Utc::now` and `DateTime::to_rfc3339_opts`: the
/// wall-clock time in RFC 3339 form with whole-second precision and a
/// `Z` suffix.  The value depends on the clock, so nothing is promised
/// of it.
#[verifier::external_body]
fn now_rfc3339_string() -> String {
    chrono::Utc::now().to_rfc3339_opts(chrono::SecondsFormat::Secs, true)
}

/// A timestamp in RFC 3339 form.
#[derive(Clone, Debug)]
pub struct DateTime(pub String);

impl DateTime {
    /// The current UTC time.
    pub fn new() -> Self {
        DateTime(now_rfc3339_string())
    }
}

/// One revision entry of the document's revision history.
#[derive(Clone, Debug)]
pub struct Revision {
    pub date_time: DateTime,
    pub author: String,
    pub software: String,
    pub software_version: String,
    pub comment: Option<String>,
}

impl Revision {
    /// A fresh entry naming this tool, dated now.
    pub fn new() -> (r: Self)
        ensures
            r.author@ == "dovi_meta"@,
            r.software@ == "dovi_meta"@,
            r.software_version@ == "0.1.0"@,
            r.comment is None,
    {
        let mut author = String::new();
        author.append("dovi_meta");
        let mut software = String::new();
        software.append("dovi_meta");
        let mut software_version = String::new();
        software_version.append("0.1.0");
        proof {
            assert(author@ =~= "dovi_meta"@);
            assert(software@ =~= "dovi_meta"@);
            assert(software_version@ =~= "0.1.0"@);
        }
        Revision {
            date_time: DateTime::new(),
            author,
            software,
            software_version,
            comment: None,
        }
    }
}

/// The document's revision history.
#[derive(Clone, Debug)]
pub struct RevisionHistory {
    pub revisions: Option<Vec<Revision>>,
}

impl RevisionHistory {
    /// A history holding one fresh revision entry.
    pub fn new() -> (r: Self)
        ensures
            r.revisions matches Some(v) && v@.len() == 1,
    {
        let mut revisions: Vec<Revision> = Vec::new();
        revisions.push(Revision::new());
        RevisionHistory { revisions: Some(revisions) }
    }
}

/// Color-space primaries as three dialect-tagged chromaticity pairs
/// (the white point travels separately where needed).
#[derive(Clone, Copy, Debug, PartialEq, Eq, Structural)]
pub struct Primaries {
    pub red: MDFType<Chromaticity>,
    pub green: MDFType<Chromaticity>,
    pub blue: MDFType<Chromaticity>,
}

impl Primaries {
    /// Tags a display primaries triple for the current dialect.
    pub fn from_display(p: &crate::display::Primaries) -> (r: Self)
        ensures
            r.red == MDFType::CMV40(p.red),
            r.green == MDFType::CMV40(p.green),
            r.blue == MDFType::CMV40(p.blue),
    {
        Primaries {
            red: MDFType::CMV40(p.red),
            green: MDFType::CMV40(p.green),
            blue: MDFType::CMV40(p.blue),
        }
    }

    /// Re-tags the three pairs for the legacy dialect.
    pub fn into_cmv29(self) -> (r: Self)
        ensures
            mdf_inner_spec(r.red) == mdf_inner_spec(self.red),
            mdf_inner_spec(r.green) == mdf_inner_spec(self.green),
            mdf_inner_spec(r.blue) == mdf_inner_spec(self.blue),
            is_cmv29(r.red) && is_cmv29(r.green) && is_cmv29(r.blue),
    {
        Primaries {
            red: mdf_to_cmv29(self.red),
            green: mdf_to_cmv29(self.green),
            blue: mdf_to_cmv29(self.blue),
        }
    }
}

/// A level that names a target display by identifier.
pub trait WithTid: Sized {
    /// The identifier this level targets.
    spec fn tid_spec(&self) -> u64;

    /// The identifiers this level type can carry.
    spec fn tid_in_range(tid: u64) -> bool;

    /// The empty level aimed at the given target identifier.
    spec fn with_tid_spec(tid: u64) -> Self;

    /// Returns the target identifier.
    fn tid(&self) -> (r: u64)
        ensures
            r == self.tid_spec(),
            Self::tid_in_range(r),
    ;

    /// An empty level aimed at the given target identifier.
    fn with_tid(tid: u64) -> (r: Self)
        requires
            Self::tid_in_range(tid),
        ensures
            r == Self::with_tid_spec(tid),
            r.tid_spec() == tid,
    ;
}

/// The target identifiers of a sequence of levels, in order.
pub open spec fn tids_of<T: WithTid>(s: Seq<T>) -> Seq<u64> {
    s.map(|i: int, t: T| t.tid_spec())
}

/// The identifiers of `b` that neither occur in `a_tids` nor earlier in
/// `b`, in first-occurrence order: exactly the identifiers a merge must
/// append, each once.
pub open spec fn missing_tids<T: WithTid>(a_tids: Seq<u64>, b: Seq<T>) -> Seq<u64>
    decreases b.len(),
{
    if b.len() == 0 {
        Seq::empty()
    } else {
        let pre = missing_tids(a_tids, b.drop_last());
        let t = b.last().tid_spec();
        if a_tids.contains(t) || pre.contains(t) {
            pre
        } else {
            pre.push(t)
        }
    }
}

/// Merges the target identifiers of `b` into `a`: existing entries of
/// `a` are kept unchanged, in place, and each identifier of `b` that `a`
/// does not yet carry gets exactly one fresh empty level appended, in
/// first-occurrence order; nothing else is added.  An absent `a` becomes
/// the list of fresh levels for `b`'s identifiers, one per entry.
#[verifier::loop_isolation(false)]
pub fn update_levels<T: WithTid + Clone>(a: &mut Option<Vec<T>>, b: &Option<Vec<T>>)
    ensures
        b is None ==> *final(a) == *old(a),
        b is Some && (*old(a)) is None ==> ((*final(a)) matches Some(av) && av@.len()
            == b->Some_0@.len() && (forall|j: int|
            0 <= j < av@.len() ==> #[trigger] av@[j] == T::with_tid_spec(b->Some_0@[j].tid_spec())
                && av@[j].tid_spec() == b->Some_0@[j].tid_spec())),
        b is Some && (*old(a)) is Some ==> ((*final(a)) matches Some(av) && {
            let oldv = (*old(a))->Some_0;
            let miss = missing_tids(tids_of(oldv@), b->Some_0@);
            &&& av@.len() == oldv@.len() + miss.len()
            &&& av@.subrange(0, oldv@.len() as int) == oldv@
            &&& (forall|w: int|
                0 <= w < miss.len() ==> #[trigger] av@[oldv@.len() + w] == T::with_tid_spec(
                    miss[w],
                ) && av@[oldv@.len() + w].tid_spec() == miss[w])
            &&& (forall|j: int|
                0 <= j < b->Some_0@.len() ==> tids_of(av@).contains(
                    #[trigger] b->Some_0@[j].tid_spec(),
                ))
        }),
{
    match b {
        None => {},
        Some(b_vec) => {
            if a.is_none() {
                let mut fresh: Vec<T> = Vec::new();
                let mut i: usize = 0;
                while i < b_vec.len()
                    invariant
                        i <= b_vec.len(),
                        fresh@.len() == i,
                        forall|j: int|
                            0 <= j < i ==> #[trigger] fresh@[j] == T::with_tid_spec(
                                b_vec@[j].tid_spec(),
                            ) && fresh@[j].tid_spec() == b_vec@[j].tid_spec(),
                    decreases b_vec.len() - i,
                {
                    fresh.push(T::with_tid(b_vec[i].tid()));
                    i = i + 1;
                }
                *a = Some(fresh);
            } else if let Some(a_vec) = a {
                let ghost oldv = a_vec@;
                let mut i: usize = 0;
                while i < b_vec.len()
                    invariant
                        i <= b_vec.len(),
                        ({
                            let miss = missing_tids(tids_of(oldv), b_vec@.subrange(0, i as int));
                            &&& a_vec@.len() == oldv.len() + miss.len()
                            &&& a_vec@.subrange(0, oldv.len() as int) == oldv
                            &&& (forall|w: int|
                                0 <= w < miss.len() ==> #[trigger] a_vec@[oldv.len() + w]
                                    == T::with_tid_spec(miss[w]) && a_vec@[oldv.len()
                                    + w].tid_spec() == miss[w])
                        }),
                        forall|j: int|
                            0 <= j < i ==> tids_of(a_vec@).contains(
                                #[trigger] b_vec@[j].tid_spec(),
                            ),
                    decreases b_vec.len() - i,
                {
                    let ghost miss_i = missing_tids(tids_of(oldv), b_vec@.subrange(0, i as int));
                    proof {
                        assert(b_vec@.subrange(0, i + 1 as int).drop_last() =~= b_vec@.subrange(
                            0,
                            i as int,
                        ));
                        assert(b_vec@.subrange(0, i + 1 as int).last() == b_vec@[i as int]);
                    }
                    let want = b_vec[i].tid();
                    let mut found = false;
                    let mut k: usize = 0;
                    while k < a_vec.len()
                        invariant
                            k <= a_vec.len(),
                            found <==> exists|m: int|
                                0 <= m < k && a_vec@[m].tid_spec() == want,
                        decreases a_vec.len() - k,
                    {
                        if a_vec[k].tid() == want {
                            found = true;
                        }
                        k = k + 1;
                    }
                    proof {
                        // The scan answers exactly whether the identifier
                        // already occurs, either in the kept entries or in
                        // what this merge appended so far.
                        if found {
                            let m = choose|m: int|
                                0 <= m < a_vec@.len() && a_vec@[m].tid_spec() == want;
                            if m < oldv.len() {
                                assert(tids_of(oldv)[m] == want);
                                assert(tids_of(oldv).contains(want));
                            } else {
                                assert(a_vec@[oldv.len() + (m - oldv.len())].tid_spec()
                                    == miss_i[m - oldv.len()]);
                                assert(miss_i.contains(want));
                            }
                        } else {
                            if tids_of(oldv).contains(want) {
                                let m = choose|m: int|
                                    0 <= m < tids_of(oldv).len() && tids_of(oldv)[m] == want;
                                assert(a_vec@.subrange(0, oldv.len() as int)[m] == oldv[m]);
                                assert(a_vec@[m].tid_spec() == want);
                                assert(false);
                            }
                            if miss_i.contains(want) {
                                let w = choose|w: int|
                                    0 <= w < miss_i.len() && miss_i[w] == want;
                                assert(a_vec@[oldv.len() + w].tid_spec() == want);
                                assert(false);
                            }
                        }
                    }
                    if !found {
                        let ghost before = a_vec@;
                        a_vec.push(T::with_tid(want));
                        proof {
                            let miss_n = missing_tids(
                                tids_of(oldv),
                                b_vec@.subrange(0, i + 1 as int),
                            );
                            assert(miss_n == miss_i.push(want));
                            assert(a_vec@.subrange(0, oldv.len() as int) =~= oldv);
                            assert forall|j: int| 0 <= j < i + 1 implies tids_of(
                                a_vec@,
                            ).contains(#[trigger] b_vec@[j].tid_spec()) by {
                                if j == i {
                                    assert(tids_of(a_vec@)[before.len() as int] == want);
                                } else {
                                    let m = choose|m: int|
                                        0 <= m < tids_of(before).len() && tids_of(before)[m]
                                            == b_vec@[j].tid_spec();
                                    assert(tids_of(a_vec@)[m] == b_vec@[j].tid_spec());
                                }
                            }
                        }
                    } else {
                        proof {
                            let miss_n = missing_tids(
                                tids_of(oldv),
                                b_vec@.subrange(0, i + 1 as int),
                            );
                            assert(miss_n == miss_i);
                            let m = choose|m: int|
                                0 <= m < a_vec@.len() && a_vec@[m].tid_spec() == want;
                            assert(tids_of(a_vec@)[m] == want);
                        }
                    }
                    i = i + 1;
                }
                proof {
                    assert(b_vec@.subrange(0, b_vec@.len() as int) =~= b_vec@);
                }
            }
        },
    }
}

} // verus!
