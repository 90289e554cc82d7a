//! Core value types: users' type codes, organizations, session
//! tokens, and lunch menus.

use vstd::prelude::*;
use vstd::string::StringExecFns;

use crate::date::{Date, DateTime};
use crate::errors::LunchMenuParseError;
use crate::utils::{parse_date, parse_datetime, spec_parse_date, spec_parse_datetime};

pub use crate::school::{LoginMethods, SchoolListing};

verus! {

/// The type of user logged in to the system.
#[derive(Debug, Clone, Copy, PartialEq, Eq, Structural)]
pub enum UserType {
    Student,
    Parent,
    Teacher,
}

impl UserType {
    /// The lowercase name used in api routes.
    pub open spec fn spec_str(self) -> Seq<char> {
        match self {
            UserType::Student => "student"@,
            UserType::Parent => "parent"@,
            UserType::Teacher => "teacher"@,
        }
    }

    /// Decode a user type from its wire code: 1 is a student, 2 a
    /// parent, 3 a teacher; every other code denotes no user type.
    pub fn from_u8(user_type: u8) -> (r: Option<UserType>)
        ensures
            r == if user_type == 1 {
                Some(UserType::Student)
            } else if user_type == 2 {
                Some(UserType::Parent)
            } else if user_type == 3 {
                Some(UserType::Teacher)
            } else {
                None::<UserType>
            },
    {
        match user_type {
            1 => Some(UserType::Student),
            2 => Some(UserType::Parent),
            3 => Some(UserType::Teacher),
            _ => None,
        }
    }

    /// The lowercase name used in api routes.
    pub fn to_string(&self) -> (r: String)
        ensures
            r@ == self.spec_str(),
    {
        match self {
            UserType::Student => String::from_str("student"),
            UserType::Parent => String::from_str("parent"),
            UserType::Teacher => String::from_str("teacher"),
        }
    }
}

/// An organization record as it arrives on the wire, with plain
/// fields.
#[derive(Debug, Clone, PartialEq, Eq)]
pub struct RawOrg {
    pub name: String,
    pub blogger: bool,
    pub school_type: u32,
    pub leisure_school: u32,
    pub class: String,
    pub org_id: u32,
    pub token_login: String,
}

/// An organization the user belongs to.
#[derive(Debug, Clone, PartialEq, Eq)]
pub struct Org {
    /// Unique identifier for the organization.
    pub id: u32,
    /// Human readable name of the organization.
    pub name: String,
    pub blogger: bool,
    pub school_type: u32,
    pub leisure_school: u32,
    /// The class the user attends, where that makes sense.
    pub class: String,
    /// Url for logging in to the organization with a web browser.
    pub token_login: String,
}

impl From<RawOrg> for Org {
    fn from(value: RawOrg) -> (r: Org) {
        Org {
            id: value.org_id,
            name: value.name,
            blogger: value.blogger,
            school_type: value.school_type,
            leisure_school: value.leisure_school,
            class: value.class,
            token_login: value.token_login,
        }
    }
}

impl vstd::std_specs::convert::FromSpecImpl<RawOrg> for Org {
    open spec fn obeys_from_spec() -> bool {
        true
    }

    open spec fn from_spec(t: RawOrg) -> Org {
        Org {
            id: t.org_id,
            name: t.name,
            blogger: t.blogger,
            school_type: t.school_type,
            leisure_school: t.leisure_school,
            class: t.class,
            token_login: t.token_login,
        }
    }
}

/// A session token.
///
/// A token is retrieved with the app key and must be refreshed once
/// it nears its expiry instant. The reference instant `now` is
/// injected at construction so that expiry questions are answered
/// deterministically.
#[derive(Debug, Clone, PartialEq, Eq)]
pub struct Token {
    /// The reference instant against which expiry is judged.
    pub now: DateTime,
    /// The token itself.
    pub token: String,
    /// When the token expires.
    pub expires: DateTime,
}

impl Token {
    pub open spec fn wf(self) -> bool {
        self.now.wf() && self.expires.wf()
    }

    /// Milliseconds from the reference instant to the expiry instant;
    /// negative once expired.
    pub open spec fn spec_expires_in_ms(self) -> int {
        self.expires.spec_ms_value() - self.now.spec_ms_value()
    }

    /// Create a token with an explicit reference instant.
    pub fn new_with_now(token: String, expires: DateTime, now: DateTime) -> (r: Token)
        ensures
            r == (Token { now, token, expires }),
    {
        Token { now, token, expires }
    }

    /// Whether both instants of this token are well formed, decidably.
    pub fn well_formed(&self) -> (r: bool)
        ensures
            r == self.wf(),
    {
        self.now.well_formed() && self.expires.well_formed()
    }

    /// Milliseconds until the token expires, relative to the
    /// reference instant; negative once expired.
    pub fn expires_in(&self) -> (r: i64)
        requires
            self.wf(),
        ensures
            r == self.spec_expires_in_ms(),
    {
        self.expires.ms_value() as i64 - self.now.ms_value() as i64
    }

    /// Whether the token has expired: its expiry instant lies before
    /// the reference instant.
    pub fn is_expired(&self) -> (r: bool)
        requires
            self.wf(),
        ensures
            r == (self.spec_expires_in_ms() < 0),
    {
        self.expires_in() < 0
    }

    /// Whether the token is still valid: the opposite of expired.
    pub fn is_valid(&self) -> (r: bool)
        requires
            self.wf(),
        ensures
            r == (self.spec_expires_in_ms() >= 0),
    {
        !self.is_expired()
    }

    /// Whether the token is safe to use: more than one minute left
    /// until it expires.
    pub fn is_safe(&self) -> (r: bool)
        requires
            self.wf(),
        ensures
            r == (self.spec_expires_in_ms() > 60000),
    {
        self.expires_in() > 60000
    }
}

/// One day's lunch.
#[derive(Debug, Clone, PartialEq, Eq)]
pub struct Lunch {
    pub date: Date,
    pub food: String,
}

/// One week's lunch menu.
#[derive(Debug, Clone, PartialEq, Eq)]
pub struct LunchMenu {
    pub week: u32,
    pub created_at: DateTime,
    pub category: String,
    pub monday: Lunch,
    pub tuesday: Lunch,
    pub wednesday: Lunch,
    pub thursday: Lunch,
    pub friday: Lunch,
}

/// A lunch-menu record as it arrives on the wire, with plain fields:
/// seven dates as `YYYY-MM-DD` texts, the dishes of the five school
/// days, and bookkeeping fields.
#[derive(Debug, Clone, PartialEq, Eq)]
pub struct RawLunchMenu {
    pub week: u32,
    pub cre_date: String,
    pub dish_category_name: String,
    pub dates: Vec<String>,
    pub monday: String,
    pub tuesday: String,
    pub wednesday: String,
    pub thursday: String,
    pub friday: String,
}

/// Index of the first date text in `dates`, from position `i` on,
/// that does not parse; the length when all parse.
pub open spec fn first_bad_date(dates: Seq<String>, i: int) -> int
    decreases dates.len() - i,
{
    if i < 0 || i >= dates.len() {
        i
    } else if spec_parse_date(dates[i]@) is None {
        i
    } else {
        first_bad_date(dates, i + 1)
    }
}

proof fn lemma_first_bad_date(dates: Seq<String>, k: int, i: int)
    requires
        0 <= k <= i <= dates.len(),
        forall|j: int| k <= j < i ==> spec_parse_date(#[trigger] dates[j]@) is Some,
        i < dates.len() ==> spec_parse_date(dates[i]@) is None,
    ensures
        first_bad_date(dates, k) == i,
    decreases i - k,
{
    if k < i {
        lemma_first_bad_date(dates, k + 1, i);
    }
}

impl LunchMenu {
    /// Whether a raw record resolves to a menu: seven dates that all
    /// parse and a creation timestamp that parses.
    pub open spec fn raw_resolves(raw: RawLunchMenu) -> bool {
        &&& raw.dates@.len() == 7
        &&& first_bad_date(raw.dates@, 0) == 7
        &&& spec_parse_datetime(raw.cre_date@) is Some
    }

    /// How a resolved menu relates to its raw record: the first five
    /// dates become the school days' dates, the dishes carry over,
    /// and the creation timestamp is the parsed `cre_date`.
    pub open spec fn matches_raw(self, raw: RawLunchMenu) -> bool {
        &&& self.week == raw.week
        &&& self.created_at == spec_parse_datetime(raw.cre_date@)->Some_0
        &&& self.category@ == raw.dish_category_name@
        &&& self.monday.date == spec_parse_date(raw.dates@[0]@)->Some_0
        &&& self.monday.food@ == raw.monday@
        &&& self.tuesday.date == spec_parse_date(raw.dates@[1]@)->Some_0
        &&& self.tuesday.food@ == raw.tuesday@
        &&& self.wednesday.date == spec_parse_date(raw.dates@[2]@)->Some_0
        &&& self.wednesday.food@ == raw.wednesday@
        &&& self.thursday.date == spec_parse_date(raw.dates@[3]@)->Some_0
        &&& self.thursday.food@ == raw.thursday@
        &&& self.friday.date == spec_parse_date(raw.dates@[4]@)->Some_0
        &&& self.friday.food@ == raw.friday@
    }

    /// Build a week's menu from a raw record. Fails on a record
    /// without seven dates, on the first unparsable date, or on an
    /// unparsable creation timestamp, in that order.
    pub fn from_raw(raw: &RawLunchMenu) -> (r: Result<LunchMenu, LunchMenuParseError>)
        ensures
            r is Ok <==> Self::raw_resolves(*raw),
            r is Ok ==> r->Ok_0.matches_raw(*raw),
            r is Err ==> {
                let e = r->Err_0;
                if raw.dates@.len() != 7 {
                    e matches LunchMenuParseError::SerdeError(_)
                } else {
                    let k = first_bad_date(raw.dates@, 0);
                    if k < 7 {
                        e matches LunchMenuParseError::DateParseError(s) && s@ == raw.dates@[k]@
                    } else {
                        e matches LunchMenuParseError::DateParseError(s) && s@ == raw.cre_date@
                    }
                }
            },
    {
        if raw.dates.len() != 7 {
            return Err(LunchMenuParseError::SerdeError(String::from_str("dates")));
        }
        let mut parsed: Vec<Date> = Vec::new();
        let mut i: usize = 0;
        while i < 7
            invariant
                raw.dates@.len() == 7,
                0 <= i <= 7,
                parsed@.len() == i,
                forall|j: int|
                    0 <= j < i ==> spec_parse_date(#[trigger] raw.dates@[j]@) is Some && parsed@[j]
                        == spec_parse_date(raw.dates@[j]@)->Some_0,
            decreases 7 - i,
        {
            match parse_date(raw.dates[i].as_str()) {
                Ok(d) => {
                    parsed.push(d);
                },
                Err(_) => {
                    proof {
                        lemma_first_bad_date(raw.dates@, 0, i as int);
                    }
                    return Err(LunchMenuParseError::DateParseError(raw.dates[i].clone()));
                },
            }
            i = i + 1;
        }
        proof {
            lemma_first_bad_date(raw.dates@, 0, 7);
        }
        let created_at = match parse_datetime(raw.cre_date.as_str()) {
            Ok(dt) => dt,
            Err(_) => {
                return Err(LunchMenuParseError::DateParseError(raw.cre_date.clone()));
            },
        };
        Ok(
            LunchMenu {
                week: raw.week,
                created_at,
                category: raw.dish_category_name.clone(),
                monday: Lunch { date: parsed[0], food: raw.monday.clone() },
                tuesday: Lunch { date: parsed[1], food: raw.tuesday.clone() },
                wednesday: Lunch { date: parsed[2], food: raw.wednesday.clone() },
                thursday: Lunch { date: parsed[3], food: raw.thursday.clone() },
                friday: Lunch { date: parsed[4], food: raw.friday.clone() },
            },
        )
    }

    /// Resolve the first record of a response; a response without
    /// records means no menu is available.
    pub fn from_raw_list(raws: &Vec<RawLunchMenu>) -> (r: Result<LunchMenu, LunchMenuParseError>)
        ensures
            raws@.len() == 0 ==> r == Err::<LunchMenu, LunchMenuParseError>(
                LunchMenuParseError::NoLunchMenu,
            ),
            raws@.len() > 0 ==> (r is Ok <==> Self::raw_resolves(raws@[0])),
            r is Ok ==> r->Ok_0.matches_raw(raws@[0]),
    {
        if raws.len() == 0 {
            return Err(LunchMenuParseError::NoLunchMenu);
        }
        Self::from_raw(&raws[0])
    }
}

} // verus!
