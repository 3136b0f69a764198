use vstd::prelude::*;

verus! {

/// A JSON document as the library reads it.
///
/// Numbers that fit an `i64` are held exactly; any other number is held by its
/// textual form, which the library never interprets.
#[derive(Debug)]
pub enum Json {
    Null,
    Bool(bool),
    Int(i64),
    OtherNumber(String),
    Str(String),
    Array(Vec<Json>),
    Object(Vec<(String, Json)>),
}

/// `value[i]`: the i-th element of an array, `Null` for anything else.
pub open spec fn json_at(j: Json, i: int) -> Json {
    match j {
        Json::Array(v) => if 0 <= i < v@.len() { v@[i] } else { Json::Null },
        _ => Json::Null,
    }
}

/// Index of the first entry of an object entry list whose key is `key`.
pub open spec fn first_key_index(entries: Seq<(String, Json)>, key: Seq<char>) -> Option<int>
    decreases entries.len(),
{
    if entries.len() == 0 {
        None
    } else if entries[0].0@ == key {
        Some(0)
    } else {
        match first_key_index(entries.drop_first(), key) {
            Some(i) => Some(i + 1),
            None => None,
        }
    }
}

/// Adds `d` to an optional index.
pub open spec fn shift_index(o: Option<int>, d: int) -> Option<int> {
    match o {
        Some(k) => Some(k + d),
        None => None,
    }
}

/// `value.get(key)`: the member named `key` of an object.
pub open spec fn json_get(j: Json, key: Seq<char>) -> Option<Json> {
    match j {
        Json::Object(m) => match first_key_index(m@, key) {
            Some(i) => Some(m@[i].1),
            None => None,
        },
        _ => None,
    }
}

/// `value[key]`: the member named `key`, `Null` when there is none.
pub open spec fn json_field(j: Json, key: Seq<char>) -> Json {
    match json_get(j, key) {
        Some(v) => v,
        None => Json::Null,
    }
}

/// `value.as_str()`.
pub open spec fn json_str(j: Json) -> Option<Seq<char>> {
    match j {
        Json::Str(s) => Some(s@),
        _ => None,
    }
}

/// `value.as_bool()`.
pub open spec fn json_bool(j: Json) -> Option<bool> {
    match j {
        Json::Bool(b) => Some(b),
        _ => None,
    }
}

/// `value.as_i64()`.
pub open spec fn json_int(j: Json) -> Option<i64> {
    match j {
        Json::Int(n) => Some(n),
        _ => None,
    }
}

/// `value.as_str()` on an optional member; `None` when absent.
pub open spec fn opt_str(j: Option<Json>) -> Option<Seq<char>> {
    match j {
        Some(v) => json_str(v),
        None => None,
    }
}

/// `value.as_bool()` on an optional member, `false` when absent or not a boolean.
pub open spec fn opt_flag(j: Option<Json>) -> bool {
    match j {
        Some(Json::Bool(b)) => b,
        _ => false,
    }
}

pub proof fn lemma_first_key_index_bounds(entries: Seq<(String, Json)>, key: Seq<char>)
    ensures
        first_key_index(entries, key) matches Some(i) ==> 0 <= i < entries.len()
            && entries[i].0@ == key,
    decreases entries.len(),
{
    if entries.len() > 0 {
        lemma_first_key_index_bounds(entries.drop_first(), key);
    }
}

/// Compares a `String` with a string slice, character by character.
pub fn str_eq(a: &str, b: &str) -> (r: bool)
    ensures
        r == (a@ == b@),
{
    let x = crate::text::chars_of(a);
    let y = crate::text::chars_of(b);
    if x.len() != y.len() {
        return false;
    }
    let mut i: usize = 0;
    while i < x.len()
        invariant
            x@ == a@,
            y@ == b@,
            x.len() == y.len(),
            i <= x.len(),
            forall|k: int| 0 <= k < i ==> x@[k] == y@[k],
        decreases x.len() - i,
    {
        if x[i] != y[i] {
            return false;
        }
        i += 1;
    }
    assert(x@ =~= y@);
    true
}

impl Json {
    /// `self.get(key)`.
    pub fn get(&self, key: &str) -> (r: Option<&Json>)
        ensures
            r matches Some(v) ==> json_get(*self, key@) == Some(*v),
            r is None ==> json_get(*self, key@) is None,
    {
        match self {
            Json::Object(m) => {
                let mut i: usize = 0;
                assert(m@.skip(0) =~= m@);
                while i < m.len()
                    invariant
                        i <= m@.len(),
                        *self == Json::Object(*m),
                        first_key_index(m@, key@) == shift_index(first_key_index(m@.skip(i as int), key@), i as int),
                    decreases m.len() - i,
                {
                    assert(m@.skip(i as int).drop_first() =~= m@.skip(i + 1));
                    if str_eq(m[i].0.as_str(), key) {
                        return Some(&m[i].1);
                    }
                    i += 1;
                }
                assert(m@.skip(i as int).len() == 0);
                None
            },
            _ => None,
        }
    }

    /// `self[i]` for arrays; `None` where the indexing would give `Null`
    /// because `self` is not an array or is too short.
    pub fn at(&self, i: usize) -> (r: Option<&Json>)
        ensures
            r matches Some(v) ==> *v == json_at(*self, i as int) && self is Array,
            r is None ==> json_at(*self, i as int) == Json::Null,
    {
        match self {
            Json::Array(v) => if i < v.len() { Some(&v[i]) } else { None },
            _ => None,
        }
    }

    /// `self.as_str()`.
    pub fn as_str(&self) -> (r: Option<&str>)
        ensures
            r matches Some(s) ==> json_str(*self) == Some(s@),
            r is None ==> json_str(*self) is None,
    {
        match self {
            Json::Str(s) => Some(s.as_str()),
            _ => None,
        }
    }

    /// `self.as_bool()`.
    pub fn as_bool(&self) -> (r: Option<bool>)
        ensures
            r == json_bool(*self),
    {
        match self {
            Json::Bool(b) => Some(*b),
            _ => None,
        }
    }

    /// `self.as_i64()`.
    pub fn as_i64(&self) -> (r: Option<i64>)
        ensures
            r == json_int(*self),
    {
        match self {
            Json::Int(n) => Some(*n),
            _ => None,
        }
    }

    /// `self.is_array()`.
    pub fn is_array(&self) -> (r: bool)
        ensures
            r == (*self is Array),
    {
        match self {
            Json::Array(_) => true,
            _ => false,
        }
    }
}

} // verus!

verus! {

/// Number of elements of an array (`-1` for a non-array).
pub open spec fn json_len(j: Json) -> int {
    match j {
        Json::Array(v) => v@.len() as int,
        _ => -1,
    }
}

/// Whether `j` is the string `s`.
pub open spec fn is_str(j: Json, s: Seq<char>) -> bool {
    json_str(j) == Some(s)
}

/// A JSON string holding a copy of `s`.
pub fn jstr(s: &str) -> (r: Json)
    ensures
        is_str(r, s@),
{
    Json::Str(crate::text::owned(s))
}

/// A one-element array.
pub fn jarr1(a: Json) -> (r: Json)
    ensures
        json_len(r) == 1,
        json_at(r, 0) == a,
{
    let mut v: Vec<Json> = Vec::new();
    v.push(a);
    Json::Array(v)
}

/// Appends `n` nulls.
pub fn push_nulls(v: &mut Vec<Json>, n: usize)
    ensures
        final(v)@.len() == old(v)@.len() + n,
        forall|i: int| 0 <= i < old(v)@.len() ==> final(v)@[i] == old(v)@[i],
        forall|i: int| old(v)@.len() <= i < final(v)@.len() ==> final(v)@[i] == Json::Null,
{
    let mut k: usize = 0;
    while k < n
        invariant
            k <= n,
            v@.len() == old(v)@.len() + k,
            forall|i: int| 0 <= i < old(v)@.len() ==> v@[i] == old(v)@[i],
            forall|i: int| old(v)@.len() <= i < v@.len() ==> v@[i] == Json::Null,
        decreases n - k,
    {
        v.push(Json::Null);
        k += 1;
    }
}

} // verus!
