//! A JSON value tree and the defensive readers that the decoders are built
//! from.
//!
//! A reader never fails: asked for something that is not there, or that has
//! another shape, it answers `None`.

use vstd::prelude::*;
use crate::text::str_eq;

verus! {

/// An IEEE-754 double, held by its bit pattern.
#[derive(Clone, Copy, Debug, PartialEq, Eq)]
pub struct Float64 {
    pub bits: u64,
}

/// Bit pattern of the double 1.
pub const ONE_BITS: u64 = 0x3FF0_0000_0000_0000;

/// Bit pattern of the double negative zero.
pub const NEGATIVE_ZERO_BITS: u64 = 0x8000_0000_0000_0000;

impl Float64 {
    /// Whether the double lies between 0 and 1, both included. The doubles
    /// that are not negative are ordered as their bit patterns are, so these
    /// are the patterns up to that of 1, and negative zero.
    pub open spec fn in_unit_range(self) -> bool {
        self.bits <= ONE_BITS || self.bits == NEGATIVE_ZERO_BITS
    }

    /// Whether the double lies between 0 and 1, both included.
    pub fn is_in_unit_range(&self) -> (r: bool)
        ensures
            r == self.in_unit_range(),
    {
        self.bits <= ONE_BITS || self.bits == NEGATIVE_ZERO_BITS
    }
}

/// Bit pattern of the double 2^52, below which the mantissa of a double that
/// is a whole number has room left.
pub const MANTISSA_TOP: u64 = 0x10_0000_0000_0000;

/// The bits of a double from a mantissa `m` that is still to be brought up
/// to 2^52 and the exponent field `e` that goes with it: each doubling of
/// the mantissa lowers the exponent by one. Nothing stands for 0.
pub open spec fn double_bits_scaled(m: nat, e: nat) -> nat
    decreases e,
{
    if m == 0 || e == 0 {
        0
    } else if m >= MANTISSA_TOP {
        (e * MANTISSA_TOP + (m - MANTISSA_TOP)) as nat
    } else {
        double_bits_scaled(2 * m, (e - 1) as nat)
    }
}

/// The bit pattern of the double that the whole number `n` is. A number
/// below 2^53 with the exponent field 1075 stands for itself; it is
/// brought to the form of a double by doubling.
pub open spec fn double_bits_of(n: nat) -> nat {
    double_bits_scaled(n, 1075)
}

impl Float64 {
    /// Whether the double is negative: its sign is set.
    pub open spec fn negative(self) -> bool {
        self.bits >= NEGATIVE_ZERO_BITS
    }

    /// The double that `n` is.
    pub fn of_u32(n: u32) -> (f: Float64)
        ensures
            f.bits == double_bits_of(n as nat),
    {
        let mut m: u64 = n as u64;
        let mut e: u64 = 1075;
        while m != 0 && e != 0 && m < MANTISSA_TOP
            invariant
                e <= 1075,
                m < 2 * MANTISSA_TOP,
                double_bits_scaled(m as nat, e as nat) == double_bits_of(n as nat),
            decreases e,
        {
            m = 2 * m;
            e = e - 1;
        }
        if m == 0 || e == 0 {
            Float64 { bits: 0 }
        } else {
            Float64 { bits: e * MANTISSA_TOP + (m - MANTISSA_TOP) }
        }
    }
}

impl JsonNumber {
    /// Whether the number is at most `n`. A whole number is compared as it
    /// is. Any other number is compared as a double: one that is negative is
    /// below every `n`, and those that are not are ordered as their bit
    /// patterns are.
    pub open spec fn at_most(self, n: u32) -> bool {
        match self.unsigned {
            Some(u) => u <= n,
            None => match self.signed {
                Some(i) => i <= n,
                None => match self.float {
                    Some(f) => f.negative() || f.bits <= double_bits_of(n as nat),
                    None => false,
                },
            },
        }
    }

    /// Whether the number is at most `n`.
    pub fn is_at_most(&self, n: u32) -> (r: bool)
        ensures
            r == self.at_most(n),
    {
        match self.unsigned {
            Some(u) => u <= n as u64,
            None => match self.signed {
                Some(i) => i <= n as i64,
                None => match self.float {
                    Some(f) => f.bits >= NEGATIVE_ZERO_BITS || f.bits <= Float64::of_u32(n).bits,
                    None => false,
                },
            },
        }
    }
}

/// A JSON number, held as the readings it offers: as an unsigned integer, as
/// a signed integer and as a double. A reading that the number does not have
/// is `None`.
#[derive(Clone, Copy, Debug, PartialEq, Eq)]
pub struct JsonNumber {
    pub unsigned: Option<u64>,
    pub signed: Option<i64>,
    pub float: Option<Float64>,
}

/// A JSON value. The members of an object are kept in order; a key is looked
/// up from the front, so of two members with one key the first is found.
#[derive(Debug, PartialEq)]
pub enum Json {
    Null,
    Bool(bool),
    Number(JsonNumber),
    String(String),
    Array(Vec<Json>),
    Object(Vec<(String, Json)>),
}

/// The views of the elements of `s`.
pub open spec fn views<T: View>(s: Seq<T>) -> Seq<T::V> {
    Seq::new(s.len(), |i: int| s[i]@)
}

/// The view of the value inside `o`, if there is one.
pub open spec fn view_of<T: View>(o: Option<T>) -> Option<T::V> {
    match o {
        Some(t) => Some(t@),
        None => None,
    }
}

/// Position of the first member of `members` whose key is `key`.
pub open spec fn member_index(members: Seq<(String, Json)>, key: Seq<char>) -> Option<int>
    decreases members.len(),
{
    if members.len() == 0 {
        None
    } else if members[0].0@ == key {
        Some(0)
    } else {
        match member_index(members.drop_first(), key) {
            Some(i) => Some(i + 1),
            None => None,
        }
    }
}

/// `member_index` finds a member with the key that no such member precedes,
/// and finds one whenever there is one.
pub proof fn lemma_member_index(members: Seq<(String, Json)>, key: Seq<char>)
    ensures
        match member_index(members, key) {
            Some(i) => 0 <= i < members.len() && members[i].0@ == key && forall|j: int|
                0 <= j < i ==> (#[trigger] members[j]).0@ != key,
            None => forall|j: int| 0 <= j < members.len() ==> (#[trigger] members[j]).0@ != key,
        },
    decreases members.len(),
{
    if members.len() > 0 && members[0].0@ != key {
        let t = members.drop_first();
        lemma_member_index(t, key);
        match member_index(t, key) {
            Some(i) => {
                assert forall|j: int| 0 <= j < i + 1 implies (#[trigger] members[j]).0@ != key by {
                    if j > 0 {
                        assert(members[j] == t[j - 1]);
                    }
                }
                assert(members[i + 1] == t[i]);
            },
            None => {
                assert forall|j: int| 0 <= j < members.len() implies (#[trigger] members[j]).0@
                    != key by {
                    if j > 0 {
                        assert(members[j] == t[j - 1]);
                    }
                }
            },
        }
    }
}

/// The value that `members` gives to `key`: that of the first member with
/// the key.
pub open spec fn lookup(members: Seq<(String, Json)>, key: Seq<char>) -> Option<Json> {
    match member_index(members, key) {
        Some(i) => Some(members[i].1),
        None => None,
    }
}

/// The mapping from keys to values that a list of members stands for.
pub open spec fn as_map(members: Seq<(String, Json)>) -> Map<Seq<char>, Json> {
    Map::new(
        |key: Seq<char>| member_index(members, key) is Some,
        |key: Seq<char>| members[member_index(members, key)->0].1,
    )
}

/// Whether no key occurs twice among `members`.
pub open spec fn distinct_keys(members: Seq<(String, Json)>) -> bool {
    forall|i: int, j: int|
        0 <= i < j < members.len() ==> (#[trigger] members[i]).0@ != (#[trigger] members[j]).0@
}

/// Whether no key occurs twice in any object of `tree`, down to `depth`
/// levels of containers.
pub open spec fn well_keyed(tree: Json, depth: nat) -> bool
    decreases depth,
{
    match tree {
        Json::Array(items) => depth > 0 ==> forall|i: int|
            0 <= i < items@.len() ==> well_keyed(#[trigger] items@[i], (depth - 1) as nat),
        Json::Object(members) => distinct_keys(members@) && (depth > 0 ==> forall|i: int|
            0 <= i < members@.len() ==> well_keyed(
                (#[trigger] members@[i]).1,
                (depth - 1) as nat,
            )),
        _ => true,
    }
}

/// A member whose key is new keeps the keys distinct.
pub proof fn lemma_distinct_push(members: Seq<(String, Json)>, member: (String, Json))
    requires
        distinct_keys(members),
        lookup(members, member.0@) is None,
    ensures
        distinct_keys(members.push(member)),
{
    lemma_member_index(members, member.0@);
    let longer = members.push(member);
    assert forall|i: int, j: int| 0 <= i < j < longer.len() implies (#[trigger] longer[i]).0@ != (
    #[trigger] longer[j]).0@ by {
        if j < members.len() {
            assert(longer[i] == members[i]);
            assert(longer[j] == members[j]);
        } else {
            assert(longer[i] == members[i]);
        }
    }
}

/// What a key is given once a member is added at the end: what it was given
/// before, or, where it was given nothing and is the key of the new member,
/// the new value.
pub proof fn lemma_lookup_push(
    members: Seq<(String, Json)>,
    member: (String, Json),
    key: Seq<char>,
)
    ensures
        lookup(members.push(member), key) == match lookup(members, key) {
            Some(v) => Some(v),
            None => if member.0@ == key {
                Some(member.1)
            } else {
                None
            },
        },
        member_index(members, key) is Some ==> member_index(members.push(member), key)
            == member_index(members, key),
    decreases members.len(),
{
    let longer = members.push(member);
    if members.len() == 0 {
        assert(longer.drop_first() =~= Seq::<(String, Json)>::empty());
        assert(member_index(longer.drop_first(), key) is None);
    } else {
        assert(longer[0] == members[0]);
        if members[0].0@ != key {
            assert(longer.drop_first() =~= members.drop_first().push(member));
            lemma_lookup_push(members.drop_first(), member, key);
            lemma_member_index(members.drop_first(), key);
            lemma_member_index(longer.drop_first(), key);
            match member_index(members.drop_first(), key) {
                Some(i) => {
                    assert(members[i + 1] == members.drop_first()[i]);
                    assert(longer[i + 1] == members[i + 1]);
                },
                None => {
                    if member.0@ == key {
                        let i = member_index(longer.drop_first(), key)->0;
                        assert(longer[i + 1] == longer.drop_first()[i]);
                    }
                },
            }
        }
    }
}

/// The value that `members` gives to `key`.
pub fn find_member<'a>(members: &'a Vec<(String, Json)>, key: &str) -> (r: Option<&'a Json>)
    ensures
        match r {
            Some(v) => lookup(members@, key@) == Some(*v),
            None => lookup(members@, key@) is None,
        },
{
    let mut i: usize = 0;
    while i < members.len()
        invariant
            i <= members.len(),
            forall|j: int| 0 <= j < i ==> (#[trigger] members@[j]).0@ != key@,
        decreases members.len() - i,
    {
        if str_eq(members[i].0.as_str(), key) {
            proof {
                lemma_member_index(members@, key@);
            }
            return Some(&members[i].1);
        }
        i += 1;
    }
    proof {
        lemma_member_index(members@, key@);
    }
    None
}

impl Json {
    /// The value under `key`, where `self` is an object that has the key.
    pub open spec fn field(self, key: Seq<char>) -> Option<Json> {
        match self {
            Json::Object(members) => lookup(members@, key),
            _ => None,
        }
    }

    /// The characters of `self`, where it is a string.
    pub open spec fn text(self) -> Option<Seq<char>> {
        match self {
            Json::String(s) => Some(s@),
            _ => None,
        }
    }

    /// The elements of `self`, where it is an array.
    pub open spec fn elements(self) -> Option<Seq<Json>> {
        match self {
            Json::Array(items) => Some(items@),
            _ => None,
        }
    }

    /// The members of `self`, where it is an object.
    pub open spec fn members(self) -> Option<Seq<(String, Json)>> {
        match self {
            Json::Object(members) => Some(members@),
            _ => None,
        }
    }

    /// The truth value of `self`, where it is a boolean.
    pub open spec fn boolean(self) -> Option<bool> {
        match self {
            Json::Bool(b) => Some(b),
            _ => None,
        }
    }

    /// The reading of `self` as a double, where it is a number that has one.
    pub open spec fn double(self) -> Option<Float64> {
        match self {
            Json::Number(n) => n.float,
            _ => None,
        }
    }

    /// The number that `self` is, where it is one.
    pub open spec fn number(self) -> Option<JsonNumber> {
        match self {
            Json::Number(n) => Some(n),
            _ => None,
        }
    }

    /// The reading of `self` as an unsigned integer, where it is a number
    /// that has one.
    pub open spec fn unsigned(self) -> Option<u64> {
        match self {
            Json::Number(n) => n.unsigned,
            _ => None,
        }
    }

    /// The characters of the string under `key`.
    pub open spec fn text_field(self, key: Seq<char>) -> Option<Seq<char>> {
        match self.field(key) {
            Some(v) => v.text(),
            None => None,
        }
    }

    /// The elements of the array under `key`.
    pub open spec fn array_field(self, key: Seq<char>) -> Option<Seq<Json>> {
        match self.field(key) {
            Some(v) => v.elements(),
            None => None,
        }
    }

    /// The double under `key`.
    pub open spec fn double_field(self, key: Seq<char>) -> Option<Float64> {
        match self.field(key) {
            Some(v) => v.double(),
            None => None,
        }
    }

    /// The value under `key` of an object; `None` for any other value and for
    /// an object without the key.
    pub fn get(&self, key: &str) -> (r: Option<&Json>)
        ensures
            match r {
                Some(v) => self.field(key@) == Some(*v),
                None => self.field(key@) is None,
            },
    {
        match self {
            Json::Object(members) => find_member(members, key),
            _ => None,
        }
    }

    /// The string that `self` is, if it is one.
    pub fn as_str(&self) -> (r: Option<&str>)
        ensures
            match r {
                Some(s) => self.text() == Some(s@),
                None => self.text() is None,
            },
    {
        match self {
            Json::String(s) => Some(s.as_str()),
            _ => None,
        }
    }

    /// The elements of the array that `self` is, if it is one.
    pub fn as_array(&self) -> (r: Option<&Vec<Json>>)
        ensures
            match r {
                Some(items) => self.elements() == Some(items@),
                None => self.elements() is None,
            },
    {
        match self {
            Json::Array(items) => Some(items),
            _ => None,
        }
    }

    /// The members of the object that `self` is, if it is one.
    pub fn as_object(&self) -> (r: Option<&Vec<(String, Json)>>)
        ensures
            match r {
                Some(members) => self.members() == Some(members@),
                None => self.members() is None,
            },
    {
        match self {
            Json::Object(members) => Some(members),
            _ => None,
        }
    }

    /// The truth value that `self` is, if it is a boolean.
    pub fn as_bool(&self) -> (r: Option<bool>)
        ensures
            r == self.boolean(),
    {
        match self {
            Json::Bool(b) => Some(*b),
            _ => None,
        }
    }

    /// The number that `self` is, if it is one.
    pub fn as_number(&self) -> (r: Option<JsonNumber>)
        ensures
            r == self.number(),
    {
        match self {
            Json::Number(n) => Some(*n),
            _ => None,
        }
    }

    /// The number that `self` is, read as a double.
    pub fn as_f64(&self) -> (r: Option<Float64>)
        ensures
            r == self.double(),
    {
        match self {
            Json::Number(n) => n.float,
            _ => None,
        }
    }

    /// The number that `self` is, read as an unsigned integer.
    pub fn as_u64(&self) -> (r: Option<u64>)
        ensures
            r == self.unsigned(),
    {
        match self {
            Json::Number(n) => n.unsigned,
            _ => None,
        }
    }

    /// The string under `key`, copied.
    pub fn get_string(&self, key: &str) -> (r: Option<String>)
        ensures
            view_of(r) == self.text_field(key@),
    {
        match self.get(key) {
            Some(v) => match v.as_str() {
                Some(s) => Some(String::from_str(s)),
                None => None,
            },
            None => None,
        }
    }

    /// The double under `key`.
    pub fn get_f64(&self, key: &str) -> (r: Option<Float64>)
        ensures
            r == self.double_field(key@),
    {
        match self.get(key) {
            Some(v) => v.as_f64(),
            None => None,
        }
    }

    /// The elements of the array under `key`.
    pub fn get_array(&self, key: &str) -> (r: Option<&Vec<Json>>)
        ensures
            match r {
                Some(items) => self.array_field(key@) == Some(items@),
                None => self.array_field(key@) is None,
            },
    {
        match self.get(key) {
            Some(v) => v.as_array(),
            None => None,
        }
    }
}

} // verus!
