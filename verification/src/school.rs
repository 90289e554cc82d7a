//! School directory listings.
//!
//! A listing arrives with three comma-separated lists of numeric
//! login-method codes and the school's url, whose second-to-last
//! slash-separated segment names the school.

use vstd::prelude::*;
use vstd::string::StrSliceExecFns;
use vstd::string::StringExecFns;

use crate::errors::SchoolListingError;
use crate::weeks::{digit_run_len, digits_value, scan_number};

verus! {

/// The login methods available for a school, one code list per user
/// type. A method is available when its code is present.
#[derive(Debug, Clone, PartialEq, Eq)]
pub struct LoginMethods {
    pub student: Vec<u8>,
    pub teacher: Vec<u8>,
    pub parent: Vec<u8>,
}

/// A school as the directory lists it.
#[derive(Debug, Clone, PartialEq, Eq)]
pub struct SchoolListing {
    pub login_methods: LoginMethods,
    pub name: String,
    pub url: String,
    pub url_name: String,
}

/// A directory record as it arrives on the wire, with plain fields.
#[derive(Debug, Clone, PartialEq, Eq)]
pub struct RawSchoolListing {
    pub student_login_methods: String,
    pub parent_login_methods: String,
    pub teacher_login_methods: String,
    pub name: String,
    pub url: String,
}

/// Position of the first `sep` at or after `i`; the length when none
/// follows.
pub open spec fn seg_end(s: Seq<char>, i: int, sep: char) -> int
    decreases s.len() - i when i <= s.len()
{
    if i < 0 || i >= s.len() || s[i] == sep {
        i
    } else {
        seg_end(s, i + 1, sep)
    }
}

/// The method codes denoted by the text from `i` on: comma-separated
/// segments, each empty (and skipped) or all digits with a value of
/// at most 255.
pub open spec fn spec_methods_from(s: Seq<char>, i: int) -> Option<Seq<u8>>
    decreases s.len() - i when 0 <= i <= s.len()
    via spec_methods_from_decreases
{
    let j = seg_end(s, i, ',');
    let head: Option<Seq<u8>> = if j == i {
        Some(Seq::empty())
    } else if digit_run_len(s, i) == j - i && digits_value(s, i, j - i) <= 255 {
        Some(seq![digits_value(s, i, j - i) as u8])
    } else {
        None
    };
    match head {
        None => None,
        Some(h) => {
            if j == s.len() {
                Some(h)
            } else {
                match spec_methods_from(s, j + 1) {
                    None => None,
                    Some(rest) => Some(h + rest),
                }
            }
        },
    }
}

/// The method codes denoted by a whole code-list text.
pub open spec fn spec_parse_methods(s: Seq<char>) -> Option<Seq<u8>> {
    spec_methods_from(s, 0)
}

/// Segment ends stay within the text, at a separator or its end.
proof fn lemma_seg_end_bounds(s: Seq<char>, i: int, sep: char)
    requires
        0 <= i <= s.len(),
    ensures
        i <= seg_end(s, i, sep) <= s.len(),
        seg_end(s, i, sep) < s.len() ==> s[seg_end(s, i, sep)] == sep,
    decreases s.len() - i,
{
    if i < s.len() && s[i] != sep {
        lemma_seg_end_bounds(s, i + 1, sep);
    }
}

#[via_fn]
proof fn spec_methods_from_decreases(s: Seq<char>, i: int) {
    lemma_seg_end_bounds(s, i, ',');
}

/// A segment ends exactly at the first separator position.
proof fn lemma_seg_end_of(s: Seq<char>, i: int, k: int, sep: char)
    requires
        0 <= i <= k <= s.len(),
        forall|j: int| i <= j < k ==> #[trigger] s[j] != sep,
        k == s.len() || s[k] == sep,
    ensures
        seg_end(s, i, sep) == k,
    decreases k - i,
{
    if i < k {
        lemma_seg_end_of(s, i + 1, k, sep);
    }
}

/// A segment runs at least as far as the separators stay away.
proof fn lemma_seg_end_min(s: Seq<char>, i: int, m: int, sep: char)
    requires
        0 <= i <= m <= s.len(),
        forall|j: int| i <= j < m ==> #[trigger] s[j] != sep,
    ensures
        seg_end(s, i, sep) >= m,
    decreases m - i,
{
    if i < m {
        lemma_seg_end_min(s, i + 1, m, sep);
    } else {
        lemma_seg_end_bounds(s, i, sep);
    }
}

/// Parse a comma-separated list of numeric login-method codes; empty
/// segments are skipped. Fails exactly on a segment that is neither
/// empty nor a number of at most 255.
pub fn parse_methods(raw: &str) -> (r: Result<Vec<u8>, SchoolListingError>)
    ensures
        spec_parse_methods(raw@) is Some ==> r is Ok && r->Ok_0@ == spec_parse_methods(
            raw@,
        )->Some_0,
        spec_parse_methods(raw@) is None ==> (r matches Err(SchoolListingError::ParseError(t))
            && t@ == raw@),
{
    let n = raw.unicode_len();
    let mut out: Vec<u8> = Vec::new();
    let mut i: usize = 0;
    proof {
        if spec_methods_from(raw@, 0) is Some {
            assert(Seq::<u8>::empty() + spec_methods_from(raw@, 0)->Some_0 =~= spec_methods_from(
                raw@,
                0,
            )->Some_0);
        }
    }
    loop
        invariant
            raw@.len() == n,
            0 <= i <= n,
            match spec_methods_from(raw@, i as int) {
                None => spec_parse_methods(raw@) is None,
                Some(rest) => spec_parse_methods(raw@) == Some(out@ + rest),
            },
        decreases n - i,
    {
        let (k, v, big) = scan_number(raw, i, n);
        proof {
            assert forall|j: int| i <= j < k implies #[trigger] raw@[j] != ',' by {
                crate::weeks::lemma_digit_run_chars(raw@, i as int, j);
            }
        }
        if k == i {
            // an empty or immediately malformed segment
            if i == n {
                proof {
                    lemma_seg_end_of(raw@, i as int, i as int, ',');
                    assert(out@ + Seq::<u8>::empty() =~= out@);
                }
                return Ok(out);
            }
            if raw.get_char(i) == ',' {
                proof {
                    lemma_seg_end_of(raw@, i as int, i as int, ',');
                    if spec_methods_from(raw@, i + 1) is Some {
                        assert(Seq::<u8>::empty() + spec_methods_from(raw@, i + 1)->Some_0
                            =~= spec_methods_from(raw@, i + 1)->Some_0);
                    }
                }
                i = i + 1;
            } else {
                proof {
                    lemma_seg_end_min(raw@, i as int, i as int + 1, ',');
                }
                return Err(SchoolListingError::ParseError(String::from_str(raw)));
            }
        } else {
            if k == n {
                if big {
                    proof {
                        lemma_seg_end_of(raw@, i as int, k as int, ',');
                    }
                    return Err(SchoolListingError::ParseError(String::from_str(raw)));
                }
                let ghost before = out@;
                out.push(v as u8);
                proof {
                    lemma_seg_end_of(raw@, i as int, k as int, ',');
                    assert(out@ =~= before + seq![v as u8]);
                }
                return Ok(out);
            }
            if raw.get_char(k) == ',' {
                if big {
                    proof {
                        lemma_seg_end_of(raw@, i as int, k as int, ',');
                    }
                    return Err(SchoolListingError::ParseError(String::from_str(raw)));
                }
                let ghost before = out@;
                out.push(v as u8);
                proof {
                    lemma_seg_end_of(raw@, i as int, k as int, ',');
                    if spec_methods_from(raw@, k + 1) is Some {
                        let rest = spec_methods_from(raw@, k + 1)->Some_0;
                        assert(before + (seq![v as u8] + rest) =~= out@ + rest);
                    }
                }
                i = k + 1;
            } else {
                // the segment continues past its digits
                proof {
                    lemma_seg_end_min(raw@, i as int, k as int + 1, ',');
                }
                return Err(SchoolListingError::ParseError(String::from_str(raw)));
            }
        }
    }
}

/// Position of the last `sep` in the text, or -1 when there is none.
pub open spec fn spec_rfind(s: Seq<char>, sep: char) -> int
    decreases s.len(),
{
    if s.len() == 0 {
        -1
    } else if s.last() == sep {
        s.len() - 1
    } else {
        spec_rfind(s.drop_last(), sep)
    }
}

/// The name segment of a school url: the text between the last two
/// separators (or from the start, with only one); none without any
/// separator.
pub open spec fn spec_url_name(url: Seq<char>) -> Option<Seq<char>> {
    let e = spec_rfind(url, '/');
    if e < 0 {
        None
    } else {
        let b = spec_rfind(url.subrange(0, e), '/');
        Some(url.subrange(b + 1, e))
    }
}

/// The last separator is where it is found.
proof fn lemma_rfind_of(s: Seq<char>, k: int, sep: char)
    requires
        0 <= k < s.len(),
        s[k] == sep,
        forall|j: int| k < j < s.len() ==> #[trigger] s[j] != sep,
    ensures
        spec_rfind(s, sep) == k,
    decreases s.len(),
{
    if k < s.len() - 1 {
        lemma_rfind_of(s.drop_last(), k, sep);
    }
}

/// Without a separator there is no last one.
proof fn lemma_rfind_none(s: Seq<char>, sep: char)
    requires
        forall|j: int| 0 <= j < s.len() ==> #[trigger] s[j] != sep,
    ensures
        spec_rfind(s, sep) == -1,
    decreases s.len(),
{
    if s.len() > 0 {
        lemma_rfind_none(s.drop_last(), sep);
    }
}

/// Positions of last separators are in range and hold the separator.
proof fn lemma_rfind_bounds(s: Seq<char>, sep: char)
    ensures
        -1 <= spec_rfind(s, sep) < s.len(),
        spec_rfind(s, sep) >= 0 ==> s[spec_rfind(s, sep)] == sep,
    decreases s.len(),
{
    if s.len() > 0 && s.last() != sep {
        lemma_rfind_bounds(s.drop_last(), sep);
    }
}

/// Position of the last `sep` strictly before `upto`.
fn rfind_before(s: &str, upto: usize, sep: char) -> (r: Option<usize>)
    requires
        upto <= s@.len(),
    ensures
        r is Some ==> r->Some_0 < upto && spec_rfind(s@.subrange(0, upto as int), sep)
            == r->Some_0,
        r is None ==> spec_rfind(s@.subrange(0, upto as int), sep) == -1,
{
    let mut j = upto;
    while j > 0
        invariant
            upto <= s@.len(),
            0 <= j <= upto,
            forall|idx: int| j <= idx < upto ==> #[trigger] s@[idx] != sep,
        decreases j,
    {
        j = j - 1;
        if s.get_char(j) == sep {
            proof {
                lemma_rfind_of(s@.subrange(0, upto as int), j as int, sep);
            }
            return Some(j);
        }
    }
    proof {
        lemma_rfind_none(s@.subrange(0, upto as int), sep);
    }
    None
}

/// Whether a raw directory record resolves to a listing: all three
/// code lists parse and the url has a name segment.
pub open spec fn raw_school_resolves(raw: RawSchoolListing) -> bool {
    &&& spec_parse_methods(raw.student_login_methods@) is Some
    &&& spec_parse_methods(raw.teacher_login_methods@) is Some
    &&& spec_parse_methods(raw.parent_login_methods@) is Some
    &&& spec_url_name(raw.url@) is Some
}

/// The error a raw directory record produces, examined in order: the
/// student, teacher and parent code lists, then the url.
pub open spec fn school_raw_error(raw: RawSchoolListing, e: SchoolListingError) -> bool {
    if spec_parse_methods(raw.student_login_methods@) is None {
        e matches SchoolListingError::ParseError(t) && t@ == raw.student_login_methods@
    } else if spec_parse_methods(raw.teacher_login_methods@) is None {
        e matches SchoolListingError::ParseError(t) && t@ == raw.teacher_login_methods@
    } else if spec_parse_methods(raw.parent_login_methods@) is None {
        e matches SchoolListingError::ParseError(t) && t@ == raw.parent_login_methods@
    } else {
        e == SchoolListingError::BadUrl
    }
}

impl SchoolListing {
    /// How a resolved listing relates to its raw record.
    pub open spec fn matches_raw(self, raw: RawSchoolListing) -> bool {
        &&& self.login_methods.student@ == spec_parse_methods(
            raw.student_login_methods@,
        )->Some_0
        &&& self.login_methods.teacher@ == spec_parse_methods(
            raw.teacher_login_methods@,
        )->Some_0
        &&& self.login_methods.parent@ == spec_parse_methods(raw.parent_login_methods@)->Some_0
        &&& self.name@ == raw.name@
        &&& self.url@ == raw.url@
        &&& self.url_name@ == spec_url_name(raw.url@)->Some_0
    }

    /// Resolve one raw directory record: parse the three code lists
    /// and cut the school's name out of its url.
    pub fn from_raw(raw: &RawSchoolListing) -> (r: Result<SchoolListing, SchoolListingError>)
        ensures
            r is Ok <==> raw_school_resolves(*raw),
            r is Ok ==> r->Ok_0.matches_raw(*raw),
            r is Err ==> school_raw_error(*raw, r->Err_0),
    {
        let student = match parse_methods(raw.student_login_methods.as_str()) {
            Ok(v) => v,
            Err(e) => {
                return Err(e);
            },
        };
        let teacher = match parse_methods(raw.teacher_login_methods.as_str()) {
            Ok(v) => v,
            Err(e) => {
                return Err(e);
            },
        };
        let parent = match parse_methods(raw.parent_login_methods.as_str()) {
            Ok(v) => v,
            Err(e) => {
                return Err(e);
            },
        };
        let login_methods = LoginMethods { student, teacher, parent };
        let n = raw.url.as_str().unicode_len();
        let e = match rfind_before(raw.url.as_str(), n, '/') {
            Some(e) => e,
            None => {
                proof {
                    assert(raw.url@.subrange(0, raw.url@.len() as int) =~= raw.url@);
                }
                return Err(SchoolListingError::BadUrl);
            },
        };
        proof {
            assert(raw.url@.subrange(0, raw.url@.len() as int) =~= raw.url@);
        }
        let b_plus_one = match rfind_before(raw.url.as_str(), e, '/') {
            Some(b) => b + 1,
            None => 0,
        };
        proof {
            lemma_rfind_bounds(raw.url@.subrange(0, e as int), '/');
        }
        let url_name = String::from_str(raw.url.as_str().substring_char(b_plus_one, e));
        Ok(
            SchoolListing {
                login_methods,
                name: raw.name.clone(),
                url_name,
                url: raw.url.clone(),
            },
        )
    }

    /// Resolve a whole directory: every record in order, stopping at
    /// the first that fails.
    pub fn from_raw_many(raws: &Vec<RawSchoolListing>) -> (r: Result<
        Vec<SchoolListing>,
        SchoolListingError,
    >)
        ensures
            r is Ok <==> (forall|i: int|
                0 <= i < raws@.len() ==> raw_school_resolves(#[trigger] raws@[i])),
            r is Ok ==> {
                let list = r->Ok_0;
                &&& list@.len() == raws@.len()
                &&& forall|i: int|
                    0 <= i < raws@.len() ==> (#[trigger] list@[i]).matches_raw(raws@[i])
            },
            r is Err ==> exists|i: int|
                0 <= i < raws@.len() && !raw_school_resolves(#[trigger] raws@[i])
                    && school_raw_error(raws@[i], r->Err_0),
    {
        let mut schools: Vec<SchoolListing> = Vec::new();
        let mut i: usize = 0;
        while i < raws.len()
            invariant
                0 <= i <= raws@.len(),
                schools@.len() == i,
                forall|j: int| 0 <= j < i ==> raw_school_resolves(#[trigger] raws@[j]),
                forall|j: int|
                    0 <= j < i ==> (#[trigger] schools@[j]).matches_raw(raws@[j]),
            decreases raws@.len() - i,
        {
            match Self::from_raw(&raws[i]) {
                Ok(school) => {
                    schools.push(school);
                },
                Err(e) => {
                    return Err(e);
                },
            }
            i = i + 1;
        }
        Ok(schools)
    }
}

} // verus!
