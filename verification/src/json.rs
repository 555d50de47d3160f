//! A JSON document as the DSM web API returns it, and the lookups that read it.
//!
//! The lookups behave as `serde_json::Value`'s: indexing a value that is not an
//! object, or an object without the key, gives `null`, and each `as_*` reading
//! gives `None` for a value of another kind.

use vstd::prelude::*;

verus! {

/// A JSON number, as `serde_json` keeps it: a non-negative integer, a negative
/// integer, or a floating-point number (whose value nothing here reads).
#[derive(Debug, Clone, PartialEq, Eq)]
pub enum Number {
    PosInt(u64),
    NegInt(i64),
    Float,
}

/// A JSON value. An object keeps its members in order; a lookup by key finds
/// the first member with that key.
#[derive(Debug, PartialEq, Eq)]
pub enum Json {
    Null,
    Bool(bool),
    Number(Number),
    String(String),
    Array(Vec<Json>),
    Object(Vec<(String, Json)>),
}

/// The value of the first member named `key`, or `null` when there is none.
pub open spec fn lookup(members: Seq<(String, Json)>, key: Seq<char>) -> Json
    decreases members.len(),
{
    if members.len() == 0 {
        Json::Null
    } else if members[0].0@ == key {
        members[0].1
    } else {
        lookup(members.drop_first(), key)
    }
}

/// Whether some member is named `key`.
pub open spec fn has_member(members: Seq<(String, Json)>, key: Seq<char>) -> bool {
    exists|i: int| 0 <= i < members.len() && #[trigger] members[i].0@ == key
}

impl Json {
    /// Whether `self` is an object with a member named `key`.
    pub open spec fn has(self, key: Seq<char>) -> bool {
        match self {
            Json::Object(members) => has_member(members@, key),
            _ => false,
        }
    }

    /// `value[key]`: the member named `key` of an object, else `null`.
    pub open spec fn at(self, key: Seq<char>) -> Json {
        match self {
            Json::Object(members) => lookup(members@, key),
            _ => Json::Null,
        }
    }

    /// `value.as_str()`.
    pub open spec fn str_of(self) -> Option<Seq<char>> {
        match self {
            Json::String(s) => Some(s@),
            _ => None,
        }
    }

    /// `value.as_u64()`.
    pub open spec fn u64_of(self) -> Option<u64> {
        match self {
            Json::Number(Number::PosInt(n)) => Some(n),
            _ => None,
        }
    }

    /// `value.as_i64()`.
    pub open spec fn i64_of(self) -> Option<i64> {
        match self {
            Json::Number(Number::PosInt(n)) => if n <= i64::MAX as u64 {
                Some(n as i64)
            } else {
                None
            },
            Json::Number(Number::NegInt(n)) => Some(n),
            _ => None,
        }
    }

    /// `value.as_bool()`.
    pub open spec fn bool_of(self) -> Option<bool> {
        match self {
            Json::Bool(b) => Some(b),
            _ => None,
        }
    }

    /// `value.as_array()`.
    pub open spec fn array_of(self) -> Option<Seq<Json>> {
        match self {
            Json::Array(items) => Some(items@),
            _ => None,
        }
    }

    /// `value.as_u64().unwrap_or(0)`.
    pub open spec fn u64_or_zero(self) -> u64 {
        match self.u64_of() {
            Some(n) => n,
            None => 0,
        }
    }

    /// `value.as_str().unwrap_or(default)`.
    pub open spec fn str_or(self, default: Seq<char>) -> Seq<char> {
        match self.str_of() {
            Some(s) => s,
            None => default,
        }
    }

    /// `value[key]`, or `None` where it is `null` because the key is absent.
    pub fn get(&self, key: &str) -> (r: Option<&Json>)
        ensures
            r is Some <==> self.has(key@),
            match r {
                Some(v) => *v == self.at(key@),
                None => self.at(key@) == Json::Null,
            },
    {
        match self {
            Json::Object(members) => {
                let mut i: usize = 0;
                assert(members@.skip(0) =~= members@);
                assert(self.has(key@) == has_member(members@, key@));
                while i < members.len()
                    invariant
                        0 <= i <= members@.len(),
                        self.at(key@) == lookup(members@.skip(i as int), key@),
                        self.has(key@) == has_member(members@.skip(i as int), key@),
                    decreases members@.len() - i,
                {
                    assert(members@.skip(i as int).drop_first() =~= members@.skip(i + 1));
                    assert(members@.skip(i as int)[0] == members@[i as int]);
                    let ghost rest = members@.skip(i as int);
                    assert(has_member(rest, key@) <==> (rest[0].0@ == key@ || has_member(
                        rest.drop_first(),
                        key@,
                    ))) by {
                        if has_member(rest, key@) && rest[0].0@ != key@ {
                            let j = choose|j: int| 0 <= j < rest.len() && #[trigger] rest[j].0@ == key@;
                            assert(rest.drop_first()[j - 1] == rest[j]);
                        }
                        if has_member(rest.drop_first(), key@) {
                            let j = choose|j: int|
                                0 <= j < rest.drop_first().len() && #[trigger] rest.drop_first()[j].0@
                                    == key@;
                            assert(rest[j + 1] == rest.drop_first()[j]);
                        }
                    }
                    if str_eq(members[i].0.as_str(), key) {
                        return Some(&members[i].1);
                    }
                    i = i + 1;
                }
                assert(members@.skip(i as int) =~= Seq::<(String, Json)>::empty());
                None
            },
            _ => None,
        }
    }

    /// `value.as_str()`.
    pub fn as_str(&self) -> (r: Option<&str>)
        ensures
            match r {
                Some(s) => self.str_of() == Some(s@),
                None => self.str_of() is None,
            },
    {
        match self {
            Json::String(s) => Some(s.as_str()),
            _ => None,
        }
    }

    /// `value.as_u64()`.
    pub fn as_u64(&self) -> (r: Option<u64>)
        ensures
            r == self.u64_of(),
    {
        match self {
            Json::Number(Number::PosInt(n)) => Some(*n),
            _ => None,
        }
    }

    /// `value.as_i64()`.
    pub fn as_i64(&self) -> (r: Option<i64>)
        ensures
            r == self.i64_of(),
    {
        match self {
            Json::Number(Number::PosInt(n)) => if *n <= i64::MAX as u64 {
                Some(*n as i64)
            } else {
                None
            },
            Json::Number(Number::NegInt(n)) => Some(*n),
            _ => None,
        }
    }

    /// `value.as_bool()`.
    pub fn as_bool(&self) -> (r: Option<bool>)
        ensures
            r == self.bool_of(),
    {
        match self {
            Json::Bool(b) => Some(*b),
            _ => None,
        }
    }

    /// `value.as_array()`.
    pub fn as_array(&self) -> (r: Option<&Vec<Json>>)
        ensures
            match r {
                Some(items) => self.array_of() == Some(items@),
                None => self.array_of() is None,
            },
    {
        match self {
            Json::Array(items) => Some(items),
            _ => None,
        }
    }
}

/// Whether two strings hold the same characters.
pub fn str_eq(a: &str, b: &str) -> (r: bool)
    ensures
        r == (a@ == b@),
{
    let n = a.unicode_len();
    let m = b.unicode_len();
    if n != m {
        return false;
    }
    let mut i: usize = 0;
    while i < n
        invariant
            n == a@.len(),
            m == b@.len(),
            n == m,
            0 <= i <= n,
            forall|j: int| 0 <= j < i ==> a@[j] == b@[j],
        decreases n - i,
    {
        if a.get_char(i) != b.get_char(i) {
            return false;
        }
        i = i + 1;
    }
    assert(a@ =~= b@);
    true
}

/// `value.as_str().unwrap_or(default)`, owned.
pub fn str_or(value: Option<&Json>, default: &str) -> (r: String)
    ensures
        r@ == match value {
            Some(v) => v.str_or(default@),
            None => Json::Null.str_or(default@),
        },
{
    match value {
        Some(v) => match v.as_str() {
            Some(s) => String::from_str(s),
            None => String::from_str(default),
        },
        None => String::from_str(default),
    }
}

/// `value.as_u64()` of a member that may be absent.
pub fn u64_at(value: Option<&Json>) -> (r: Option<u64>)
    ensures
        r == match value {
            Some(v) => v.u64_of(),
            None => Json::Null.u64_of(),
        },
{
    match value {
        Some(v) => v.as_u64(),
        None => None,
    }
}

/// `value.as_i64()` of a member that may be absent.
pub fn i64_at(value: Option<&Json>) -> (r: Option<i64>)
    ensures
        r == match value {
            Some(v) => v.i64_of(),
            None => Json::Null.i64_of(),
        },
{
    match value {
        Some(v) => v.as_i64(),
        None => None,
    }
}

/// `field` is the text of `member` where `member` is a JSON string, and
/// `default` where it is anything else.
pub open spec fn holds_text_or(field: Seq<char>, member: Json, default: Seq<char>) -> bool {
    match member {
        Json::String(t) => field == t@,
        _ => field == default,
    }
}

/// `field` is the number of `member` where `member` is a non-negative integer,
/// and 0 where it is anything else.
pub open spec fn holds_count(field: int, member: Json) -> bool {
    match member {
        Json::Number(Number::PosInt(n)) => field == n,
        _ => field == 0,
    }
}

/// A lookup by key finds the first member of that name, and `null` where
/// there is none.
pub proof fn lemma_lookup_first(members: Seq<(String, Json)>, key: Seq<char>, i: int)
    requires
        0 <= i <= members.len(),
        forall|j: int| 0 <= j < i ==> #[trigger] members[j].0@ != key,
        i < members.len() ==> members[i].0@ == key,
    ensures
        lookup(members, key) == if i < members.len() {
            members[i].1
        } else {
            Json::Null
        },
    decreases i,
{
    if i > 0 {
        let rest = members.drop_first();
        assert forall|j: int| 0 <= j < i - 1 implies #[trigger] rest[j].0@ != key by {
            assert(rest[j] == members[j + 1]);
        }
        if i < members.len() {
            assert(rest[i - 1] == members[i]);
        }
        lemma_lookup_first(rest, key, i - 1);
        assert(members[0].0@ != key);
    }
}

/// The readings of a value: `as_str` gives the text of a string, `as_u64`
/// a non-negative integer, and `unwrap_or` the default otherwise.
pub proof fn lemma_readings(v: Json, default: Seq<char>)
    ensures
        holds_text_or(v.str_or(default), v, default),
        holds_count(v.u64_or_zero() as int, v),
{
}

}
