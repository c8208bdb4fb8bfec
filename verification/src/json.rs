//! JSON documents: the data that commands take and return.
//!
//! `JsonValue` is the document as the program holds it; `Json` is the value
//! it stands for. An object stands for a map from keys to values: where a key
//! is written twice, the later entry counts.

use vstd::prelude::*;
use crate::number::double_of_int;
use crate::number::Double;
use crate::number::SIGN_BIT;
use crate::text::chars_of;
use crate::text::chars_eq;
use crate::text::str_eq;

verus! {

/// A number of a JSON document: a non-negative integer, a negative integer,
/// or a binary64 number.
#[derive(Clone, Copy, Debug)]
pub enum JsonNumber {
    PosInt(u64),
    NegInt(i64),
    Float(Double),
}

/// The value of a JSON number: an integer, or the bits of a binary64 number
/// with negative zero written as zero.
pub enum JsonNum {
    Int(int),
    Float(u64),
}

/// The value that a JSON document stands for.
pub enum Json {
    Null,
    Bool(bool),
    Number(JsonNum),
    String(Seq<char>),
    Array(Seq<Json>),
    Object(Map<Seq<char>, Json>),
}

/// One `key: value` pair of an object.
#[derive(Debug)]
pub struct JsonEntry {
    pub key: String,
    pub value: JsonValue,
}

/// A map from keys to documents, held as the entries that write it.
#[derive(Debug)]
pub struct JsonMap {
    pub entries: Vec<JsonEntry>,
}

/// A JSON document.
#[derive(Debug)]
pub enum JsonValue {
    Null,
    Bool(bool),
    Number(JsonNumber),
    String(String),
    Array(Vec<JsonValue>),
    Object(JsonMap),
}

impl View for JsonNumber {
    type V = JsonNum;

    open spec fn view(&self) -> JsonNum {
        match self {
            JsonNumber::PosInt(n) => JsonNum::Int(*n as int),
            JsonNumber::NegInt(n) => JsonNum::Int(*n as int),
            JsonNumber::Float(d) => if d.magnitude() == 0 {
                JsonNum::Float(0)
            } else {
                JsonNum::Float(d.bits)
            },
        }
    }
}

/// The values of the items of an array.
pub open spec fn items_view(items: Seq<JsonValue>) -> Seq<Json>
    decreases items,
{
    Seq::new(
        items.len(),
        |i: int|
            if 0 <= i < items.len() {
                items[i].view()
            } else {
                Json::Null
            },
    )
}

/// The map that the entries of an object stand for.
pub open spec fn entries_view(entries: Seq<JsonEntry>) -> Map<Seq<char>, Json>
    decreases entries,
{
    if entries.len() == 0 {
        Map::empty()
    } else {
        entries_view(entries.drop_last()).insert(entries.last().key@, entries.last().value.view())
    }
}

impl View for JsonValue {
    type V = Json;

    open spec fn view(&self) -> Json
        decreases self,
    {
        match self {
            JsonValue::Null => Json::Null,
            JsonValue::Bool(b) => Json::Bool(*b),
            JsonValue::Number(n) => Json::Number(n@),
            JsonValue::String(s) => Json::String(s@),
            JsonValue::Array(items) => Json::Array(items_view(items@)),
            JsonValue::Object(map) => Json::Object(entries_view(map.entries@)),
        }
    }
}

impl View for JsonMap {
    type V = Map<Seq<char>, Json>;

    open spec fn view(&self) -> Map<Seq<char>, Json> {
        entries_view(self.entries@)
    }
}

impl JsonNum {
    /// The number as a binary64 number: an integer gives the nearest one.
    pub open spec fn to_double(self) -> Double {
        match self {
            JsonNum::Int(n) => double_of_int(n),
            JsonNum::Float(bits) => Double { bits },
        }
    }
}

impl Json {
    /// A number as a binary64 number; nothing for another value.
    pub open spec fn numeric(self) -> Option<Double> {
        match self {
            Json::Number(n) => Some(n.to_double()),
            _ => None,
        }
    }

    /// The member `key` of an object; nothing for another value, or where the
    /// object has no such member.
    pub open spec fn member(self, key: Seq<char>) -> Option<Json> {
        match self {
            Json::Object(m) => if m.dom().contains(key) {
                Some(m[key])
            } else {
                None
            },
            _ => None,
        }
    }

    /// The item `index` of an array; nothing for another value, or where the
    /// array is shorter.
    pub open spec fn item(self, index: int) -> Option<Json> {
        match self {
            Json::Array(items) => if 0 <= index < items.len() {
                Some(items[index])
            } else {
                None
            },
            _ => None,
        }
    }
}

/// The member `key` of the map that `entries` stand for.
pub open spec fn lookup(entries: Seq<JsonEntry>, key: Seq<char>) -> Option<Json> {
    Json::Object(entries_view(entries)).member(key)
}

/// A key is in the map of some entries exactly when one of them has it.
pub proof fn lemma_entries_dom(entries: Seq<JsonEntry>, key: Seq<char>)
    ensures
        entries_view(entries).dom().contains(key) <==> exists|i: int|
            0 <= i < entries.len() && #[trigger] entries[i].key@ == key,
    decreases entries.len(),
{
    if entries.len() > 0 {
        let rest = entries.drop_last();
        lemma_entries_dom(rest, key);
        assert(entries_view(entries) == entries_view(rest).insert(
            entries.last().key@,
            entries.last().value@,
        ));
        if entries_view(entries).dom().contains(key) {
            if entries.last().key@ == key {
                assert(entries[entries.len() - 1].key@ == key);
            } else {
                let i = choose|i: int| 0 <= i < rest.len() && #[trigger] rest[i].key@ == key;
                assert(entries[i].key@ == key);
            }
        }
        if exists|i: int| 0 <= i < entries.len() && #[trigger] entries[i].key@ == key {
            let i = choose|i: int| 0 <= i < entries.len() && #[trigger] entries[i].key@ == key;
            if i < entries.len() - 1 {
                assert(rest[i].key@ == key);
            }
        }
    }
}

/// Looking a key up goes by the last entry first.
pub proof fn lemma_lookup_last(entries: Seq<JsonEntry>, key: Seq<char>)
    requires
        entries.len() > 0,
    ensures
        lookup(entries, key) == if entries.last().key@ == key {
            Some(entries.last().value@)
        } else {
            lookup(entries.drop_last(), key)
        },
{
    assert(entries_view(entries) == entries_view(entries.drop_last()).insert(
        entries.last().key@,
        entries.last().value@,
    ));
}

/// Entries that agree pairwise in key and value stand for the same map.
pub proof fn lemma_entries_congruent(a: Seq<JsonEntry>, b: Seq<JsonEntry>)
    requires
        a.len() == b.len(),
        forall|i: int|
            0 <= i < a.len() ==> (#[trigger] a[i]).key@ == b[i].key@ && a[i].value@ == b[i].value@,
    ensures
        entries_view(a) == entries_view(b),
    decreases a.len(),
{
    if a.len() > 0 {
        lemma_entries_congruent(a.drop_last(), b.drop_last());
        assert(a.last() == a[a.len() - 1]);
        assert(entries_view(a) == entries_view(a.drop_last()).insert(
            a.last().key@,
            a.last().value@,
        ));
        assert(entries_view(b) == entries_view(b.drop_last()).insert(
            b.last().key@,
            b.last().value@,
        ));
    } else {
        assert(entries_view(a) == Map::<Seq<char>, Json>::empty());
        assert(entries_view(b) == Map::<Seq<char>, Json>::empty());
    }
}

/// The place of the entry that decides the member `key`: the last with that
/// key.
pub fn find_entry(entries: &Vec<JsonEntry>, key: &Vec<char>) -> (r: Option<usize>)
    ensures
        r is Some <==> lookup(entries@, key@) is Some,
        r matches Some(i) ==> i < entries.len() && entries@[i as int].key@ == key@ && lookup(
            entries@,
            key@,
        ) == Some(entries@[i as int].value@),
{
    let mut i: usize = entries.len();
    proof {
        assert(entries@.take(i as int) =~= entries@);
    }
    while i > 0
        invariant
            i <= entries.len(),
            lookup(entries@, key@) == lookup(entries@.take(i as int), key@),
        decreases i,
    {
        i -= 1;
        let name = chars_of(entries[i].key.as_str());
        proof {
            assert(entries@.take(i + 1).drop_last() =~= entries@.take(i as int));
            assert(entries@.take(i + 1).last() == entries@[i as int]);
            lemma_lookup_last(entries@.take(i + 1), key@);
        }
        if chars_eq(&name, key) {
            return Some(i);
        }
    }
    proof {
        assert(entries_view(entries@.take(0)) == Map::<Seq<char>, Json>::empty());
    }
    None
}

/// One more entry at the end adds its member to the map, or replaces it.
pub proof fn lemma_entries_push(entries: Seq<JsonEntry>, entry: JsonEntry)
    ensures
        entries_view(entries.push(entry)) == entries_view(entries).insert(
            entry.key@,
            entry.value@,
        ),
{
    let all = entries.push(entry);
    assert(all.drop_last() =~= entries);
    assert(entries_view(all) == entries_view(all.drop_last()).insert(
        all.last().key@,
        all.last().value@,
    ));
}

/// No entries stand for the empty map.
pub proof fn lemma_entries_empty()
    ensures
        entries_view(Seq::<JsonEntry>::empty()) == Map::<Seq<char>, Json>::empty(),
{
    assert(entries_view(Seq::<JsonEntry>::empty()) == Map::<Seq<char>, Json>::empty());
}

impl JsonEntry {
    /// The entry `key: value`.
    pub fn new(key: &str, value: JsonValue) -> (r: JsonEntry)
        ensures
            r.key@ == key@,
            r.value == value,
    {
        JsonEntry { key: String::from_str(key), value }
    }
}

impl Clone for JsonEntry {
    fn clone(&self) -> (r: Self)
        ensures
            r.key@ == self.key@,
            r.value@ == self.value@,
    {
        JsonEntry { key: self.key.clone(), value: self.value.clone() }
    }
}

impl JsonNumber {
    /// The number as a binary64 number: an integer gives the nearest one.
    pub fn as_double(&self) -> (r: Double)
        ensures
            r.alike(self@.to_double()),
            !(self is Float) ==> r == self@.to_double(),
            self matches JsonNumber::Float(d) ==> r == d,
    {
        match self {
            JsonNumber::PosInt(n) => Double::from_u64(*n),
            JsonNumber::NegInt(n) => Double::from_i64(*n),
            JsonNumber::Float(d) => *d,
        }
    }

    /// Whether two numbers have the same value.
    pub fn same(&self, other: &JsonNumber) -> (r: bool)
        ensures
            r == (self@ == other@),
    {
        match (self, other) {
            (JsonNumber::PosInt(a), JsonNumber::PosInt(b)) => *a == *b,
            (JsonNumber::NegInt(a), JsonNumber::NegInt(b)) => *a == *b,
            (JsonNumber::PosInt(a), JsonNumber::NegInt(b)) => *b >= 0 && *a == *b as u64,
            (JsonNumber::NegInt(a), JsonNumber::PosInt(b)) => *a >= 0 && *a as u64 == *b,
            (JsonNumber::Float(a), JsonNumber::Float(b)) => {
                let zero_a = a.bits == 0 || a.bits == SIGN_BIT;
                let zero_b = b.bits == 0 || b.bits == SIGN_BIT;
                if zero_a || zero_b {
                    zero_a && zero_b
                } else {
                    a.bits == b.bits
                }
            },
            _ => false,
        }
    }
}

impl Clone for JsonValue {
    fn clone(&self) -> (r: Self)
        ensures
            r@ == self@,
        decreases self,
    {
        match self {
            JsonValue::Null => JsonValue::Null,
            JsonValue::Bool(b) => JsonValue::Bool(*b),
            JsonValue::Number(n) => JsonValue::Number(*n),
            JsonValue::String(s) => JsonValue::String(s.clone()),
            JsonValue::Array(items) => {
                let mut out: Vec<JsonValue> = Vec::new();
                let mut i: usize = 0;
                while i < items.len()
                    invariant
                        i <= items.len(),
                        out.len() == i,
                        self is Array,
                        self->Array_0 == items,
                        forall|j: int| 0 <= j < i ==> (#[trigger] out@[j])@ == items@[j]@,
                    decreases items.len() - i,
                {
                    out.push(items[i].clone());
                    i += 1;
                }
                proof {
                    assert(items_view(out@) =~= items_view(items@));
                }
                JsonValue::Array(out)
            },
            JsonValue::Object(map) => {
                let entries = &map.entries;
                let mut out: Vec<JsonEntry> = Vec::new();
                let mut i: usize = 0;
                while i < entries.len()
                    invariant
                        i <= entries.len(),
                        out.len() == i,
                        self is Object,
                        self->Object_0.entries == entries,
                        forall|j: int|
                            0 <= j < i ==> (#[trigger] out@[j]).key@ == entries@[j].key@
                                && out@[j].value@ == entries@[j].value@,
                    decreases entries.len() - i,
                {
                    out.push(
                        JsonEntry { key: entries[i].key.clone(), value: entries[i].value.clone() },
                    );
                    i += 1;
                }
                proof {
                    lemma_entries_congruent(out@, entries@);
                }
                JsonValue::Object(JsonMap { entries: out })
            },
        }
    }
}

/// Whether two lists of entries stand for the same map.
pub fn entries_eq(a: &Vec<JsonEntry>, b: &Vec<JsonEntry>) -> (r: bool)
    ensures
        r == (entries_view(a@) == entries_view(b@)),
    decreases a,
{
    let mut i: usize = 0;
    while i < a.len()
        invariant
            i <= a.len(),
            forall|j: int|
                0 <= j < i ==> lookup(a@, (#[trigger] a@[j]).key@) == lookup(b@, a@[j].key@),
        decreases a.len() - i,
    {
        let key = chars_of(a[i].key.as_str());
        match (find_entry(a, &key), find_entry(b, &key)) {
            (Some(x), Some(y)) => {
                if !a[x].value.json_eq(&b[y].value) {
                    return false;
                }
            },
            _ => {
                proof {
                    lemma_entries_dom(a@, key@);
                }
                return false;
            },
        }
        i += 1;
    }
    let mut j: usize = 0;
    while j < b.len()
        invariant
            j <= b.len(),
            forall|k: int| 0 <= k < j ==> lookup(a@, (#[trigger] b@[k]).key@) is Some,
            forall|k: int|
                0 <= k < a.len() ==> lookup(a@, (#[trigger] a@[k]).key@) == lookup(
                    b@,
                    a@[k].key@,
                ),
        decreases b.len() - j,
    {
        let key = chars_of(b[j].key.as_str());
        if find_entry(a, &key).is_none() {
            proof {
                lemma_entries_dom(b@, key@);
            }
            return false;
        }
        j += 1;
    }
    proof {
        let ma = entries_view(a@);
        let mb = entries_view(b@);
        assert forall|k: Seq<char>| #[trigger] ma.dom().contains(k) implies mb.dom().contains(k)
            && ma[k] == mb[k] by {
            lemma_entries_dom(a@, k);
            let x = choose|x: int| 0 <= x < a@.len() && #[trigger] a@[x].key@ == k;
            assert(lookup(a@, a@[x].key@) == lookup(b@, a@[x].key@));
        }
        assert forall|k: Seq<char>| #[trigger] mb.dom().contains(k) implies ma.dom().contains(
            k,
        ) by {
            lemma_entries_dom(b@, k);
            let y = choose|y: int| 0 <= y < b@.len() && #[trigger] b@[y].key@ == k;
            assert(lookup(a@, b@[y].key@) is Some);
        }
        assert(ma =~= mb);
    }
    true
}

impl JsonMap {
    /// The map without members.
    pub fn new() -> (r: JsonMap)
        ensures
            r@ == Map::<Seq<char>, Json>::empty(),
    {
        let entries: Vec<JsonEntry> = Vec::new();
        proof {
            lemma_entries_empty();
            assert(entries@ =~= Seq::<JsonEntry>::empty());
        }
        JsonMap { entries }
    }

    /// Sets the member `key` to `value`.
    pub fn insert(&mut self, key: &str, value: JsonValue)
        ensures
            final(self)@ == old(self)@.insert(key@, value@),
    {
        let entry = JsonEntry::new(key, value);
        proof {
            lemma_entries_push(self.entries@, entry);
        }
        self.entries.push(entry);
    }

    /// The same map with the member `key` set to `value`.
    pub fn with(self, key: &str, value: JsonValue) -> (r: JsonMap)
        ensures
            r@ == self@.insert(key@, value@),
    {
        let mut r = self;
        r.insert(key, value);
        r
    }

    /// The member `key`.
    pub fn get(&self, key: &str) -> (r: Option<&JsonValue>)
        ensures
            r is Some <==> self@.dom().contains(key@),
            r matches Some(v) ==> v@ == self@[key@],
    {
        let wanted = chars_of(key);
        match find_entry(&self.entries, &wanted) {
            Some(i) => Some(&self.entries[i].value),
            None => None,
        }
    }

    /// Whether the map has a member `key`.
    pub fn contains_key(&self, key: &str) -> (r: bool)
        ensures
            r == self@.dom().contains(key@),
    {
        self.get(key).is_some()
    }

    /// Whether two maps have the same members.
    pub fn same(&self, other: &JsonMap) -> (r: bool)
        ensures
            r == (self@ == other@),
    {
        entries_eq(&self.entries, &other.entries)
    }
}

impl Clone for JsonMap {
    fn clone(&self) -> (r: Self)
        ensures
            r@ == self@,
    {
        let mut out: Vec<JsonEntry> = Vec::new();
        let mut i: usize = 0;
        while i < self.entries.len()
            invariant
                i <= self.entries.len(),
                out.len() == i,
                forall|j: int|
                    0 <= j < i ==> (#[trigger] out@[j]).key@ == self.entries@[j].key@
                        && out@[j].value@ == self.entries@[j].value@,
            decreases self.entries.len() - i,
        {
            out.push(self.entries[i].clone());
            i += 1;
        }
        proof {
            lemma_entries_congruent(out@, self.entries@);
        }
        JsonMap { entries: out }
    }
}

impl JsonValue {
    /// The string `s` as a document.
    pub fn string(s: &str) -> (r: JsonValue)
        ensures
            r@ == Json::String(s@),
    {
        JsonValue::String(String::from_str(s))
    }

    /// The object with the members of `map`.
    pub fn object(map: JsonMap) -> (r: JsonValue)
        ensures
            r@ == Json::Object(map@),
    {
        JsonValue::Object(map)
    }

    /// The array of `items`.
    pub fn array(items: Vec<JsonValue>) -> (r: JsonValue)
        ensures
            r@ == Json::Array(items_view(items@)),
    {
        JsonValue::Array(items)
    }

    /// The non-negative integer `n` as a document.
    pub fn unsigned(n: u64) -> (r: JsonValue)
        ensures
            r@ == Json::Number(JsonNum::Int(n as int)),
    {
        JsonValue::Number(JsonNumber::PosInt(n))
    }

    /// Whether this is `null`.
    pub fn is_null(&self) -> (r: bool)
        ensures
            r == (self@ is Null),
    {
        match self {
            JsonValue::Null => true,
            _ => false,
        }
    }

    /// Whether this is a string.
    pub fn is_string(&self) -> (r: bool)
        ensures
            r == (self@ is String),
    {
        match self {
            JsonValue::String(_) => true,
            _ => false,
        }
    }

    /// Whether this is an array.
    pub fn is_array(&self) -> (r: bool)
        ensures
            r == (self@ is Array),
    {
        match self {
            JsonValue::Array(_) => true,
            _ => false,
        }
    }

    /// Whether this is an object.
    pub fn is_object(&self) -> (r: bool)
        ensures
            r == (self@ is Object),
    {
        match self {
            JsonValue::Object(_) => true,
            _ => false,
        }
    }

    /// A number as a binary64 number.
    pub fn as_double(&self) -> (r: Option<Double>)
        ensures
            r is Some <==> self@.numeric() is Some,
            r matches Some(d) ==> d.alike(self@.numeric()->0),
    {
        match self {
            JsonValue::Number(n) => Some(n.as_double()),
            _ => None,
        }
    }

    /// The member `key` of an object.
    pub fn get(&self, key: &str) -> (r: Option<&JsonValue>)
        ensures
            r is Some <==> self@.member(key@) is Some,
            r matches Some(v) ==> Some(v@) == self@.member(key@),
    {
        match self {
            JsonValue::Object(map) => {
                assert(self@ == Json::Object(entries_view(map.entries@)));
                map.get(key)
            },
            _ => None,
        }
    }

    /// Whether two documents stand for the same value.
    pub fn json_eq(&self, other: &JsonValue) -> (r: bool)
        ensures
            r == (self@ == other@),
        decreases self,
    {
        match (self, other) {
            (JsonValue::Null, JsonValue::Null) => true,
            (JsonValue::Bool(a), JsonValue::Bool(b)) => *a == *b,
            (JsonValue::Number(a), JsonValue::Number(b)) => a.same(b),
            (JsonValue::String(a), JsonValue::String(b)) => str_eq(a.as_str(), b.as_str()),
            (JsonValue::Array(a), JsonValue::Array(b)) => {
                assert(self@ == Json::Array(items_view(a@)));
                assert(other@ == Json::Array(items_view(b@)));
                if a.len() != b.len() {
                    assert(items_view(a@).len() != items_view(b@).len());
                    return false;
                }
                let mut i: usize = 0;
                while i < a.len()
                    invariant
                        i <= a.len(),
                        a.len() == b.len(),
                        self is Array,
                        self->Array_0 == a,
                        self@ == Json::Array(items_view(a@)),
                        other@ == Json::Array(items_view(b@)),
                        forall|j: int| 0 <= j < i ==> (#[trigger] a@[j])@ == b@[j]@,
                    decreases a.len() - i,
                {
                    if !a[i].json_eq(&b[i]) {
                        assert(items_view(a@)[i as int] != items_view(b@)[i as int]);
                        return false;
                    }
                    i += 1;
                }
                assert(items_view(a@) =~= items_view(b@));
                true
            },
            (JsonValue::Object(a), JsonValue::Object(b)) => {
                assert(self@ == Json::Object(entries_view(a.entries@)));
                assert(other@ == Json::Object(entries_view(b.entries@)));
                entries_eq(&a.entries, &b.entries)
            },
            _ => false,
        }
    }

    /// The item `index` of an array.
    pub fn get_index(&self, index: usize) -> (r: Option<&JsonValue>)
        ensures
            r is Some <==> self@.item(index as int) is Some,
            r matches Some(v) ==> Some(v@) == self@.item(index as int) && self is Array && index
                < self->Array_0@.len() && self->Array_0@[index as int] == *v,
    {
        match self {
            JsonValue::Array(items) => {
                assert(self@ == Json::Array(items_view(items@)));
                assert(items_view(items@).len() == items@.len());
                if index < items.len() {
                    assert(items_view(items@)[index as int] == items@[index as int]@);
                    Some(&items[index])
                } else {
                    None
                }
            },
            _ => None,
        }
    }
}

} // verus!

verus! {

impl PartialEq for JsonNumber {
    fn eq(&self, other: &JsonNumber) -> (r: bool) {
        self.same(other)
    }
}

impl vstd::std_specs::cmp::PartialEqSpecImpl for JsonNumber {
    open spec fn obeys_eq_spec() -> bool {
        true
    }

    open spec fn eq_spec(&self, other: &JsonNumber) -> bool {
        self@ == other@
    }
}

impl PartialEq for JsonMap {
    fn eq(&self, other: &JsonMap) -> (r: bool) {
        self.same(other)
    }
}

impl vstd::std_specs::cmp::PartialEqSpecImpl for JsonMap {
    open spec fn obeys_eq_spec() -> bool {
        true
    }

    open spec fn eq_spec(&self, other: &JsonMap) -> bool {
        self@ == other@
    }
}

impl PartialEq for JsonValue {
    fn eq(&self, other: &JsonValue) -> (r: bool) {
        self.json_eq(other)
    }
}

impl vstd::std_specs::cmp::PartialEqSpecImpl for JsonValue {
    open spec fn obeys_eq_spec() -> bool {
        true
    }

    open spec fn eq_spec(&self, other: &JsonValue) -> bool {
        self@ == other@
    }
}

} // verus!
