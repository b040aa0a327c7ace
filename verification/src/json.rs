//! JSON values: what they are, looking into them, and putting them together.
use vstd::prelude::*;
use vstd::string::*;

use crate::text;

verus! {

/// A number of `serde_json` that is no integer: carried through, never looked into.
#[verifier::external_type_specification]
#[verifier::external_body]
pub struct ExNumber(serde_json::Number);

/// A number that `serde_json` holds as neither `u64` nor `i64`.
#[derive(Debug)]
pub struct OtherNumber {
    pub(crate) number: serde_json::Number,
}

/// A value of `serde_json`.
#[verifier::external_type_specification]
#[verifier::external_body]
pub struct ExValue(serde_json::Value);

/// A JSON value.
///
/// In an object an entry shadows every earlier one with the same key.
#[derive(Debug)]
pub enum Json {
    Null,
    Bool(bool),
    /// An integer from 0 up.
    Unsigned(u64),
    /// An integer of either sign.
    Signed(i64),
    /// A number that is no integer, or too large for one.
    Other(OtherNumber),
    Str(String),
    Array(Vec<Json>),
    Object(Vec<(String, Json)>),
}

/// What a JSON value is.
pub enum JsonView {
    Null,
    Bool(bool),
    Unsigned(u64),
    Negative(i64),
    Other(OtherNumber),
    Str(Seq<char>),
    Array(Seq<JsonView>),
    Object(Map<Seq<char>, JsonView>),
}

/// The mathematical value of `j`.
pub open spec fn json_view(j: Json) -> JsonView
    decreases j,
{
    match j {
        Json::Null => JsonView::Null,
        Json::Bool(b) => JsonView::Bool(b),
        Json::Unsigned(n) => JsonView::Unsigned(n),
        Json::Signed(n) => integer_view(n as int),
        Json::Other(n) => JsonView::Other(n),
        Json::Str(s) => JsonView::Str(s@),
        Json::Array(items) => JsonView::Array(array_view(items@)),
        Json::Object(entries) => JsonView::Object(entries_view(entries@)),
    }
}

/// The mathematical values of the items of an array.
pub open spec fn array_view(items: Seq<Json>) -> Seq<JsonView>
    decreases items,
{
    Seq::new(
        items.len(),
        |i: int|
            if 0 <= i < items.len() {
                json_view(items[i])
            } else {
                JsonView::Null
            },
    )
}

/// The map that the entries of an object stand for.
pub open spec fn entries_view(entries: Seq<(String, Json)>) -> Map<Seq<char>, JsonView>
    decreases entries,
{
    if entries.len() == 0 {
        Map::empty()
    } else {
        entries_view(entries.drop_last()).insert(
            entries.last().0@,
            json_view(entries.last().1),
        )
    }
}

impl View for Json {
    type V = JsonView;

    open spec fn view(&self) -> JsonView {
        json_view(*self)
    }
}

impl JsonView {
    /// The member `key` of an object.
    pub open spec fn get(self, key: Seq<char>) -> Option<JsonView> {
        match self {
            JsonView::Object(members) => if members.contains_key(key) {
                Some(members[key])
            } else {
                None
            },
            _ => None,
        }
    }

    /// The member `first`, or, where there is none, the member `second`.
    pub open spec fn get_either(self, first: Seq<char>, second: Seq<char>) -> Option<JsonView> {
        if self.get(first) is Some {
            self.get(first)
        } else {
            self.get(second)
        }
    }

    /// The characters of a string.
    pub open spec fn as_str(self) -> Option<Seq<char>> {
        match self {
            JsonView::Str(s) => Some(s),
            _ => None,
        }
    }

    /// A number that fits `u64`.
    pub open spec fn as_u64(self) -> Option<u64> {
        match self {
            JsonView::Unsigned(n) => Some(n),
            _ => None,
        }
    }

    /// A number that fits `i64`.
    pub open spec fn as_i64(self) -> Option<i64> {
        match self {
            JsonView::Unsigned(n) => if n <= i64::MAX {
                Some(n as i64)
            } else {
                None
            },
            JsonView::Negative(n) => Some(n),
            _ => None,
        }
    }

    /// A truth value.
    pub open spec fn as_bool(self) -> Option<bool> {
        match self {
            JsonView::Bool(b) => Some(b),
            _ => None,
        }
    }

    /// The items of an array.
    pub open spec fn as_array(self) -> Option<Seq<JsonView>> {
        match self {
            JsonView::Array(items) => Some(items),
            _ => None,
        }
    }
}

/// Whether an object has no members but those named.
pub open spec fn has_only(value: JsonView, names: Set<Seq<char>>) -> bool {
    forall|key: Seq<char>| #[trigger] value.get(key) is Some ==> names.contains(key)
}

/// The view of an optional reference to a value.
pub open spec fn opt_json(o: Option<&Json>) -> Option<JsonView> {
    match o {
        Some(j) => Some(j@),
        None => None,
    }
}

/// The member `key` of an optional value.
pub open spec fn member(o: Option<JsonView>, key: Seq<char>) -> Option<JsonView> {
    match o {
        Some(j) => j.get(key),
        None => None,
    }
}

/// The characters of an optional value, where that is a string.
pub open spec fn text_in(o: Option<JsonView>) -> Option<Seq<char>> {
    match o {
        Some(j) => j.as_str(),
        None => None,
    }
}

/// The member `key` of `j`, where that is a string.
pub open spec fn text_at(j: JsonView, key: Seq<char>) -> Option<Seq<char>> {
    text_in(j.get(key))
}

/// The `i64` in an optional value.
pub open spec fn i64_in(o: Option<JsonView>) -> Option<i64> {
    match o {
        Some(j) => j.as_i64(),
        None => None,
    }
}

/// The `u64` in an optional value.
pub open spec fn u64_in(o: Option<JsonView>) -> Option<u64> {
    match o {
        Some(j) => j.as_u64(),
        None => None,
    }
}

// ---------------------------------------------------------------------------
// Lemmas on the entries of an object
// ---------------------------------------------------------------------------

/// Whether entry `i` is the last one with its key.
pub open spec fn is_last_with_key(entries: Seq<(String, Json)>, i: int) -> bool {
    &&& 0 <= i < entries.len()
    &&& forall|k: int| i < k < entries.len() ==> (#[trigger] entries[k]).0@ != entries[i].0@
}

/// The last entry with a key gives the member of that key.
pub proof fn lemma_entry_found(entries: Seq<(String, Json)>, i: int)
    requires
        is_last_with_key(entries, i),
    ensures
        entries_view(entries).contains_key(entries[i].0@),
        entries_view(entries)[entries[i].0@] == entries[i].1@,
    decreases entries.len(),
{
    if i < entries.len() - 1 {
        let front = entries.drop_last();
        assert(entries.last().0@ != entries[i].0@);
        assert forall|k: int| i < k < front.len() implies (#[trigger] front[k]).0@
            != front[i].0@ by {
            assert(front[k] == entries[k]);
        }
        lemma_entry_found(front, i);
    }
}

/// A key that no entry has is no member.
pub proof fn lemma_entry_absent(entries: Seq<(String, Json)>, key: Seq<char>)
    requires
        forall|k: int| 0 <= k < entries.len() ==> (#[trigger] entries[k]).0@ != key,
    ensures
        !entries_view(entries).contains_key(key),
    decreases entries.len(),
{
    if entries.len() > 0 {
        let front = entries.drop_last();
        assert forall|k: int| 0 <= k < front.len() implies (#[trigger] front[k]).0@ != key by {
            assert(front[k] == entries[k]);
        }
        assert(entries.last() == entries[entries.len() - 1]);
        lemma_entry_absent(front, key);
    }
}

/// Every member has an entry.
pub proof fn lemma_member_has_entry(entries: Seq<(String, Json)>, key: Seq<char>) -> (i: int)
    requires
        entries_view(entries).contains_key(key),
    ensures
        is_last_with_key(entries, i),
        entries[i].0@ == key,
    decreases entries.len(),
{
    let last = entries.len() - 1;
    assert(entries.len() > 0);
    if entries.last().0@ == key {
        last
    } else {
        let front = entries.drop_last();
        let i = lemma_member_has_entry(front, key);
        assert(entries[i] == front[i]);
        assert forall|k: int| i < k < entries.len() implies (#[trigger] entries[k]).0@
            != entries[i].0@ by {
            if k < front.len() {
                assert(entries[k] == front[k]);
            }
        }
        i
    }
}

/// One entry more adds or replaces one member.
pub proof fn lemma_entry_pushed(entries: Seq<(String, Json)>, entry: (String, Json))
    ensures
        entries_view(entries.push(entry)) == entries_view(entries).insert(entry.0@, entry.1@),
{
    assert(entries.push(entry).drop_last() =~= entries);
}

/// Giving the last entry with a key another value replaces that member.
pub proof fn lemma_entry_replaced(entries: Seq<(String, Json)>, i: int, entry: (String, Json))
    requires
        is_last_with_key(entries, i),
        entry.0@ == entries[i].0@,
    ensures
        entries_view(entries.update(i, entry)) == entries_view(entries).insert(
            entry.0@,
            entry.1@,
        ),
    decreases entries.len(),
{
    let after = entries.update(i, entry);
    let front = entries.drop_last();
    if i == entries.len() - 1 {
        assert(after.drop_last() =~= front);
        assert(entries_view(after) =~= entries_view(entries).insert(entry.0@, entry.1@));
    } else {
        assert(after.drop_last() =~= front.update(i, entry));
        assert forall|k: int| i < k < front.len() implies (#[trigger] front[k]).0@
            != front[i].0@ by {
            assert(front[k] == entries[k]);
        }
        lemma_entry_replaced(front, i, entry);
        assert(entries.last() == entries[entries.len() - 1]);
        assert(entries_view(after) =~= entries_view(entries).insert(entry.0@, entry.1@));
    }
}

// ---------------------------------------------------------------------------
// Accessors
// ---------------------------------------------------------------------------

impl Json {
    /// The member `key` of an object.
    pub fn get(&self, key: &str) -> (res: Option<&Json>)
        ensures
            opt_json(res) == self@.get(key@),
    {
        match self {
            Json::Object(entries) => {
                let mut i: usize = entries.len();
                while i > 0
                    invariant
                        i <= entries@.len(),
                        forall|k: int|
                            i <= k < entries@.len() ==> (#[trigger] entries@[k]).0@ != key@,
                        self@ == JsonView::Object(entries_view(entries@)),
                    decreases i,
                {
                    if text::eq(entries[i - 1].0.as_str(), key) {
                        proof {
                            lemma_entry_found(entries@, i - 1);
                        }
                        return Some(&entries[i - 1].1);
                    }
                    i -= 1;
                }
                proof {
                    lemma_entry_absent(entries@, key@);
                }
                None
            },
            _ => None,
        }
    }

    /// The member `first`, or, where there is none, the member `second`.
    pub fn get_either(&self, first: &str, second: &str) -> (res: Option<&Json>)
        ensures
            opt_json(res) == self@.get_either(first@, second@),
    {
        match self.get(first) {
            Some(found) => Some(found),
            None => self.get(second),
        }
    }

    /// The text of a string.
    pub fn as_str(&self) -> (res: Option<&str>)
        ensures
            text::opt_str(res) == self@.as_str(),
    {
        match self {
            Json::Str(s) => Some(s.as_str()),
            _ => None,
        }
    }

    /// A number that fits `u64`.
    pub fn as_u64(&self) -> (res: Option<u64>)
        ensures
            res == self@.as_u64(),
    {
        match self {
            Json::Unsigned(n) => Some(*n),
            Json::Signed(n) => if *n >= 0 {
                Some(*n as u64)
            } else {
                None
            },
            _ => None,
        }
    }

    /// A number that fits `i64`.
    pub fn as_i64(&self) -> (res: Option<i64>)
        ensures
            res == self@.as_i64(),
    {
        match self {
            Json::Unsigned(n) => if *n <= i64::MAX as u64 {
                Some(*n as i64)
            } else {
                None
            },
            Json::Signed(n) => Some(*n),
            _ => None,
        }
    }

    /// A truth value.
    pub fn as_bool(&self) -> (res: Option<bool>)
        ensures
            res == self@.as_bool(),
    {
        match self {
            Json::Bool(b) => Some(*b),
            _ => None,
        }
    }

    /// The items of an array.
    pub fn as_array(&self) -> (res: Option<&Vec<Json>>)
        ensures
            match res {
                Some(items) => self@.as_array() == Some(array_view(items@)),
                None => self@.as_array() is None,
            },
    {
        match self {
            Json::Array(items) => Some(items),
            _ => None,
        }
    }

    /// Tells whether the value is an object.
    pub fn is_object(&self) -> (res: bool)
        ensures
            res == (self@ is Object),
    {
        match self {
            Json::Object(_) => true,
            _ => false,
        }
    }

    /// Tells whether the value is an array.
    pub fn is_array(&self) -> (res: bool)
        ensures
            res == (self@ is Array),
    {
        match self {
            Json::Array(_) => true,
            _ => false,
        }
    }

    /// A string value.
    pub fn text(s: &str) -> (res: Json)
        ensures
            res@ == JsonView::Str(s@),
    {
        Json::Str(s.to_owned())
    }

    /// An object without members.
    pub fn empty_object() -> (res: Json)
        ensures
            res@ == JsonView::Object(Map::empty()),
    {
        Json::Object(Vec::new())
    }

    /// An integer.
    pub fn integer(n: i64) -> (res: Json)
        ensures
            res@ == integer_view(n as int),
    {
        Json::Signed(n)
    }

    /// This object with the member `key` added or replaced; any other value stays as it is.
    pub fn with(self, key: &str, value: Json) -> (res: Json)
        ensures
            res@ == with_member(self@, key@, value@),
    {
        match self {
            Json::Object(entries) => {
                let mut entries = entries;
                put(&mut entries, key, value);
                Json::Object(entries)
            },
            other => other,
        }
    }
}

/// The JSON value of an integer that fits `i64` or `u64`.
pub open spec fn integer_view(n: int) -> JsonView {
    if n < 0 {
        JsonView::Negative(n as i64)
    } else {
        JsonView::Unsigned(n as u64)
    }
}

/// The object `j` with the member `key` added or replaced; any other value as it is.
pub open spec fn with_member(j: JsonView, key: Seq<char>, value: JsonView) -> JsonView {
    match j {
        JsonView::Object(members) => JsonView::Object(members.insert(key, value)),
        other => other,
    }
}

/// Adds a member to the entries of an object, or replaces it.
pub fn put(entries: &mut Vec<(String, Json)>, key: &str, value: Json)
    ensures
        entries_view(final(entries)@) == entries_view(old(entries)@).insert(key@, value@),
{
    let mut i: usize = entries.len();
    while i > 0
        invariant
            i <= entries@.len(),
            entries@ == old(entries)@,
            forall|k: int| i <= k < entries@.len() ==> (#[trigger] entries@[k]).0@ != key@,
        decreases i,
    {
        if text::eq(entries[i - 1].0.as_str(), key) {
            let entry = (key.to_owned(), value);
            proof {
                lemma_entry_replaced(entries@, i - 1, entry);
            }
            entries.set(i - 1, entry);
            return ;
        }
        i -= 1;
    }
    let entry = (key.to_owned(), value);
    proof {
        lemma_entry_pushed(entries@, entry);
    }
    entries.push(entry);
}

/// `Clone` of `serde_json::Number`: the copy is the same number.
pub assume_specification[ <serde_json::Number as Clone>::clone ](n: &serde_json::Number) -> (res:
    serde_json::Number)
    ensures
        res == n,
;

/// A copy of `j`.
pub fn copy_of(j: &Json) -> (res: Json)
    ensures
        res@ == j@,
    decreases j,
{
    match j {
        Json::Null => Json::Null,
        Json::Bool(b) => Json::Bool(*b),
        Json::Unsigned(n) => Json::Unsigned(*n),
        Json::Signed(n) => Json::Signed(*n),
        Json::Other(n) => Json::Other(OtherNumber { number: n.number.clone() }),
        Json::Str(s) => Json::Str(s.clone()),
        Json::Array(items) => {
            let mut out: Vec<Json> = Vec::new();
            let mut i: usize = 0;
            while i < items.len()
                invariant
                    i <= items@.len(),
                    out@.len() == i,
                    *j == Json::Array(*items),
                    forall|k: int| 0 <= k < i ==> (#[trigger] out@[k])@ == items@[k]@,
                decreases items.len() - i,
            {
                assert(decreases_to!(items@ => items@[i as int]));
                assert(decreases_to!(*j => j->Array_0));
                assert(decreases_to!(j->Array_0 => j->Array_0@));
                out.push(copy_of(&items[i]));
                i += 1;
            }
            assert(array_view(out@) =~= array_view(items@));
            Json::Array(out)
        },
        Json::Object(entries) => {
            let mut out: Vec<(String, Json)> = Vec::new();
            let mut i: usize = 0;
            while i < entries.len()
                invariant
                    i <= entries@.len(),
                    *j == Json::Object(*entries),
                    entries_view(out@) == entries_view(entries@.take(i as int)),
                decreases entries.len() - i,
            {
                assert(decreases_to!(entries@ => entries@[i as int]));
                assert(decreases_to!(entries@[i as int] => entries@[i as int].1));
                assert(decreases_to!(*j => j->Object_0));
                assert(decreases_to!(j->Object_0 => j->Object_0@));
                let entry = (entries[i].0.clone(), copy_of(&entries[i].1));
                proof {
                    lemma_entry_pushed(out@, entry);
                    assert(entries@.take(i + 1).drop_last() =~= entries@.take(i as int));
                }
                out.push(entry);
                i += 1;
            }
            assert(entries@.take(entries@.len() as int) =~= entries@);
            Json::Object(out)
        },
    }
}

/// The member `key` of an optional value.
pub fn member_in<'a>(o: Option<&'a Json>, key: &str) -> (res: Option<&'a Json>)
    ensures
        opt_json(res) == member(opt_json(o), key@),
{
    match o {
        Some(j) => j.get(key),
        None => None,
    }
}

/// The text of an optional value, where that is a string.
pub fn str_in<'a>(o: Option<&'a Json>) -> (res: Option<&'a str>)
    ensures
        text::opt_str(res) == text_in(opt_json(o)),
{
    match o {
        Some(j) => j.as_str(),
        None => None,
    }
}

/// The `i64` in an optional value.
pub fn integer_in(o: Option<&Json>) -> (res: Option<i64>)
    ensures
        res == i64_in(opt_json(o)),
{
    match o {
        Some(j) => j.as_i64(),
        None => None,
    }
}

/// The `u64` in an optional value.
pub fn unsigned_in(o: Option<&Json>) -> (res: Option<u64>)
    ensures
        res == u64_in(opt_json(o)),
{
    match o {
        Some(j) => j.as_u64(),
        None => None,
    }
}

/// Tells whether the member `key` of `j` is the string `text`.
pub fn member_is(j: &Json, key: &str, text: &str) -> (res: bool)
    ensures
        res == (text_at(j@, key@) == Some(text@)),
{
    match str_in(j.get(key)) {
        Some(found) => text::eq(found, text),
        None => false,
    }
}

impl Clone for Json {
    fn clone(&self) -> (res: Self)
        ensures
            res@ == self@,
    {
        copy_of(self)
    }
}

// ---------------------------------------------------------------------------
// Laws
// ---------------------------------------------------------------------------

/// A member of an object is the value of the last entry with its key; there is none where no entry
/// has the key, and none of what is no object.
pub proof fn law_last_entry_is_the_member<'a>(
    value: &'a Json,
    key: &str,
    entries: Vec<(String, Json)>,
    i: int,
    res: Option<&'a Json>,
)
    requires
        call_ensures(Json::get, (value, key), res),
    ensures
        *value == Json::Object(entries) && 0 <= i < entries@.len() && entries@[i].0@ == key@ && (
        forall|k: int| i < k < entries@.len() ==> (#[trigger] entries@[k]).0@ != key@) ==> (
        res matches Some(found) && found@ == entries@[i].1@),
        *value == Json::Object(entries) && (forall|k: int|
            0 <= k < entries@.len() ==> (#[trigger] entries@[k]).0@ != key@) ==> res is None,
        !(value@ is Object) ==> res is None,
{
    if *value == Json::Object(entries) {
        if 0 <= i < entries@.len() && entries@[i].0@ == key@ && (forall|k: int|
            i < k < entries@.len() ==> (#[trigger] entries@[k]).0@ != key@) {
            assert(is_last_with_key(entries@, i));
            lemma_entry_found(entries@, i);
        }
        if forall|k: int| 0 <= k < entries@.len() ==> (#[trigger] entries@[k]).0@ != key@ {
            lemma_entry_absent(entries@, key@);
        }
    }
}

/// Of two members the first counts, and the second only where there is no first.
pub proof fn law_first_member_counts<'a>(
    value: &'a Json,
    first: &str,
    second: &str,
    a: Option<&'a Json>,
    b: Option<&'a Json>,
    res: Option<&'a Json>,
)
    requires
        call_ensures(Json::get_either, (value, first, second), res),
        call_ensures(Json::get, (value, first), a),
        call_ensures(Json::get, (value, second), b),
    ensures
        a is Some ==> opt_json(res) == opt_json(a),
        a is None ==> opt_json(res) == opt_json(b),
{
}

/// A member that was put in is found as it is, and every other member is the one that was there.
pub proof fn law_member_is_found_as_put_in(before: Json, key: &str, value: Json, res: Json)
    requires
        call_ensures(Json::with, (before, key, value), res),
    ensures
        before@ is Object ==> res@.get(key@) == Some(value@),
        forall|other: Seq<char>|
            other != key@ ==> #[trigger] res@.get(other) == before@.get(other),
        !(before@ is Object) ==> res@ == before@,
{
}

/// A value is read as what it is and as nothing else: a text, a truth value, a list, or an integer
/// that is small enough.
pub proof fn law_values_are_read_as_what_they_are<'a>(
    value: &'a Json,
    as_text: Option<&'a str>,
    unsigned: Option<u64>,
    signed: Option<i64>,
    truth: Option<bool>,
    list: Option<&'a Vec<Json>>,
)
    requires
        call_ensures(Json::as_str, (value,), as_text),
        call_ensures(Json::as_u64, (value,), unsigned),
        call_ensures(Json::as_i64, (value,), signed),
        call_ensures(Json::as_bool, (value,), truth),
        call_ensures(Json::as_array, (value,), list),
    ensures
        match *value {
            Json::Str(s) => text::opt_str(as_text) == Some(s@),
            _ => as_text is None,
        },
        match *value {
            Json::Unsigned(n) => unsigned == Some(n) && signed == if n <= 0x7fff_ffff_ffff_ffff {
                Some(n as i64)
            } else {
                None
            },
            Json::Signed(n) => signed == Some(n) && unsigned == if n >= 0 {
                Some(n as u64)
            } else {
                None
            },
            _ => unsigned is None && signed is None,
        },
        match *value {
            Json::Bool(b) => truth == Some(b),
            _ => truth is None,
        },
        match *value {
            Json::Array(items) => list matches Some(found) && array_view(found@) == array_view(
                items@,
            ),
            _ => list is None,
        },
{
}

/// Values are made as what they are asked for.
pub proof fn law_values_are_made_as_asked(s: &str, n: i64, as_text: Json, empty: Json, number: Json)
    requires
        call_ensures(Json::text, (s,), as_text),
        call_ensures(Json::empty_object, (), empty),
        call_ensures(Json::integer, (n,), number),
    ensures
        as_text@ == JsonView::Str(s@),
        empty@ is Object,
        forall|key: Seq<char>| #[trigger] empty@.get(key) is None,
        i64_in(Some(number@)) == Some(n),
{
}

/// A copy is the same value, and a member of a value that may be missing is that of the value.
pub proof fn law_copies_and_members_are_the_same<'a>(
    value: &'a Json,
    copy: Json,
    maybe: Option<&'a Json>,
    key: &str,
    member_found: Option<&'a Json>,
    text_found: Option<&'a str>,
    is: bool,
    wanted: &str,
)
    requires
        call_ensures(copy_of, (value,), copy),
        call_ensures(member_in, (maybe, key), member_found),
        call_ensures(str_in, (maybe,), text_found),
        call_ensures(member_is, (value, key, wanted), is),
    ensures
        copy@ == value@,
        maybe is None ==> member_found is None && text_found is None,
        maybe matches Some(there) ==> opt_json(member_found) == there@.get(key@)
            && text::opt_str(text_found) == (match there@ {
            JsonView::Str(s) => Some(s),
            _ => None,
        }),
        is <==> value@.get(key@) == Some(JsonView::Str(wanted@)),
{
}

/// A value is an object or an array where it was made as one.
pub proof fn law_objects_and_arrays_are_told_apart(value: &Json, object: bool, array: bool)
    requires
        call_ensures(Json::is_object, (value,), object),
        call_ensures(Json::is_array, (value,), array),
    ensures
        match *value {
            Json::Object(_) => object && !array,
            Json::Array(_) => array && !object,
            _ => !object && !array,
        },
{
}

/// An entry that was put in is the member under its key, and every other member is the one that
/// was there.
pub proof fn law_entry_is_the_member_it_was_put_in_as<'a>(
    entries: &mut Vec<(String, Json)>,
    key: &str,
    value: Json,
    other: &str,
    before: &'a Json,
    after: &'a Json,
    found: Option<&'a Json>,
    found_before: Option<&'a Json>,
    found_after: Option<&'a Json>,
)
    requires
        call_ensures(put, (entries, key, value), ()),
        *before == Json::Object(*old(entries)),
        *after == Json::Object(*final(entries)),
        call_ensures(Json::get, (after, key), found),
        other@ != key@,
        call_ensures(Json::get, (before, other), found_before),
        call_ensures(Json::get, (after, other), found_after),
    ensures
        found matches Some(there) && there@ == value@,
        opt_json(found_after) == opt_json(found_before),
{
}

/// An optional value is read as an integer where it is there and is one.
pub proof fn law_optional_integers_are_read<'a>(
    maybe: Option<&'a Json>,
    signed: Option<i64>,
    unsigned: Option<u64>,
)
    requires
        call_ensures(integer_in, (maybe,), signed),
        call_ensures(unsigned_in, (maybe,), unsigned),
    ensures
        maybe is None ==> signed is None && unsigned is None,
        maybe matches Some(there) ==> match *there {
            Json::Unsigned(n) => unsigned == Some(n) && signed == if n <= 0x7fff_ffff_ffff_ffff {
                Some(n as i64)
            } else {
                None
            },
            Json::Signed(n) => signed == Some(n) && unsigned == if n >= 0 {
                Some(n as u64)
            } else {
                None
            },
            _ => unsigned is None && signed is None,
        },
{
}

} // verus!
