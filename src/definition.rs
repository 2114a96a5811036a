use vstd::prelude::*;

use crate::compose::{decimal, push_decimal};
use crate::text::{chars_of, push_chars};

verus! {

/// A JSON document, as the dictionary service returns it.
pub enum JsonValue {
    Null,
    Bool(bool),
    /// A number, kept as the text it was written with.
    Number(String),
    Str(String),
    Array(Vec<JsonValue>),
    /// Members in document order; keys are unique.
    Object(Vec<(String, JsonValue)>),
}

/// The value of the first member named `key` at or after index `i`.
pub open spec fn member_from(fields: Seq<(String, JsonValue)>, key: Seq<char>, i: int) -> Option<
    JsonValue,
>
    decreases fields.len() - i,
{
    if i < 0 || i >= fields.len() {
        None
    } else if fields[i].0@ == key {
        Some(fields[i].1)
    } else {
        member_from(fields, key, i + 1)
    }
}

/// The member `key` of an object; none for other values.
pub open spec fn member(v: JsonValue, key: Seq<char>) -> Option<JsonValue> {
    match v {
        JsonValue::Object(fields) => member_from(fields@, key, 0),
        _ => None,
    }
}

/// The characters of a string value.
pub open spec fn text_value(v: Option<JsonValue>) -> Option<Seq<char>> {
    match v {
        Some(JsonValue::Str(s)) => Some(s@),
        _ => None,
    }
}

/// The elements of an array value.
pub open spec fn array_value(v: Option<JsonValue>) -> Option<Seq<JsonValue>> {
    match v {
        Some(JsonValue::Array(a)) => Some(a@),
        _ => None,
    }
}

/// The "definition" texts of the first `n` entries of `ds`; none if one of them lacks it.
pub open spec fn sentences(ds: Seq<JsonValue>, n: int) -> Option<Seq<Seq<char>>>
    decreases n,
{
    if n <= 0 || n > ds.len() {
        Some(Seq::empty())
    } else {
        match (sentences(ds, n - 1), text_value(member(ds[n - 1], "definition"@))) {
            (Some(a), Some(t)) => Some(a.push(t)),
            _ => None,
        }
    }
}

/// The definition texts of the first `n` meanings of `ms`, in order; none if a meaning lacks
/// its "definitions" array or one of its entries lacks its text.
pub open spec fn meaning_sentences(ms: Seq<JsonValue>, n: int) -> Option<Seq<Seq<char>>>
    decreases n,
{
    if n <= 0 || n > ms.len() {
        Some(Seq::empty())
    } else {
        match (meaning_sentences(ms, n - 1), array_value(member(ms[n - 1], "definitions"@))) {
            (Some(a), Some(ds)) => match sentences(ds, ds.len() as int) {
                Some(b) => Some(a + b),
                None => None,
            },
            _ => None,
        }
    }
}

/// The word and the definition texts that a dictionary response holds in its first entry.
pub open spec fn definition_of(v: JsonValue) -> Option<(Seq<char>, Seq<Seq<char>>)> {
    match array_value(Some(v)) {
        Some(entries) => if entries.len() == 0 {
            None
        } else {
            match (
                text_value(member(entries[0], "word"@)),
                array_value(member(entries[0], "meanings"@)),
            ) {
                (Some(w), Some(ms)) => match meaning_sentences(ms, ms.len() as int) {
                    Some(l) => Some((w, l)),
                    None => None,
                },
                _ => None,
            }
        },
        None => None,
    }
}

/// The characters of each string.
pub open spec fn texts(v: Seq<String>) -> Seq<Seq<char>> {
    v.map_values(|s: String| s@)
}

fn same_chars(a: &Vec<char>, b: &Vec<char>) -> (r: bool)
    ensures
        r == (a@ == b@),
{
    if a.len() != b.len() {
        return false;
    }
    let mut i: usize = 0;
    while i < a.len()
        invariant
            i <= a@.len(),
            a@.len() == b@.len(),
            forall|j: int| 0 <= j < i ==> a@[j] == b@[j],
        decreases a@.len() - i,
    {
        if a[i] != b[i] {
            return false;
        }
        i = i + 1;
    }
    assert(a@ =~= b@);
    true
}

/// The member `key` of `v`, if `v` is an object that has one.
pub fn get_member<'a>(v: &'a JsonValue, key: &str) -> (r: Option<&'a JsonValue>)
    ensures
        r matches Some(x) ==> member(*v, key@) == Some(*x),
        r is None ==> member(*v, key@) is None,
{
    match v {
        JsonValue::Object(fields) => {
            let k = chars_of(key);
            let mut i: usize = 0;
            while i < fields.len()
                invariant
                    i <= fields@.len(),
                    k@ == key@,
                    v is Object && v->Object_0 == fields,
                    member_from(fields@, key@, 0) == member_from(fields@, key@, i as int),
                decreases fields@.len() - i,
            {
                let name = chars_of(fields[i].0.as_str());
                if same_chars(&name, &k) {
                    assert(fields@[i as int].0@ == key@);
                    assert(member_from(fields@, key@, i as int) == Some(fields@[i as int].1));
                    return Some(&fields[i].1);
                }
                i = i + 1;
            }
            None
        },
        _ => None,
    }
}

/// The definition texts of the entries of `ds`, appended to `out`; false where one lacks it.
fn push_sentences(out: &mut Vec<String>, ds: &Vec<JsonValue>) -> (ok: bool)
    ensures
        ok ==> (sentences(ds@, ds@.len() as int) matches Some(t) && texts(final(out)@) == texts(
            old(out)@,
        ) + t),
        !ok ==> sentences(ds@, ds@.len() as int) is None,
{
    let mut i: usize = 0;
    while i < ds.len()
        invariant
            i <= ds@.len(),
            sentences(ds@, i as int) matches Some(t) && texts(out@) == texts(old(out)@) + t,
        decreases ds@.len() - i,
    {
        match get_member(&ds[i], "definition") {
            Some(JsonValue::Str(s)) => {
                let ghost before = out@;
                out.push(s.clone());
                assert(texts(out@) =~= texts(before).push(s@));
                assert(texts(out@) =~= texts(old(out)@) + sentences(ds@, i + 1)->0);
            },
            _ => {
                assert(sentences(ds@, i + 1) is None);
                assert forall|n: int| i + 1 <= n <= ds@.len() implies sentences(ds@, n) is None by {
                    lemma_sentences_stay_none(ds@, i + 1, n);
                }
                return false;
            },
        }
        i = i + 1;
    }
    true
}

proof fn lemma_sentences_stay_none(ds: Seq<JsonValue>, m: int, n: int)
    requires
        0 < m <= n <= ds.len(),
        sentences(ds, m) is None,
    ensures
        sentences(ds, n) is None,
    decreases n - m,
{
    if m < n {
        lemma_sentences_stay_none(ds, m, n - 1);
    }
}

proof fn lemma_meanings_stay_none(ms: Seq<JsonValue>, m: int, n: int)
    requires
        0 < m <= n <= ms.len(),
        meaning_sentences(ms, m) is None,
    ensures
        meaning_sentences(ms, n) is None,
    decreases n - m,
{
    if m < n {
        lemma_meanings_stay_none(ms, m, n - 1);
    }
}

/// The word on a line of its own, then each definition text after its number, counted from 0.
pub open spec fn definition_text(word: Seq<char>, list: Seq<Seq<char>>) -> Seq<char>
    decreases list.len(),
{
    if list.len() == 0 {
        word + seq!['\n']
    } else {
        let n = (list.len() - 1) as int;
        definition_text(word, list.drop_last()) + decimal(n as nat) + ". "@ + list[n]
    }
}

/// A word with its numbered definitions.
pub struct Definition {
    pub word: String,
    pub list: Vec<String>,
}

impl Definition {
    /// The definition as text: the word on a line of its own, then each entry after its
    /// number.
    pub fn to_text(&self) -> (r: String)
        ensures
            r@ == definition_text(self.word@, texts(self.list@)),
    {
        let mut r = crate::text::string_of(&chars_of(self.word.as_str()));
        crate::text::push_char(&mut r, '\n');
        assert(texts(self.list@).subrange(0, 0) =~= Seq::<Seq<char>>::empty());
        let mut i: usize = 0;
        while i < self.list.len()
            invariant
                i <= self.list@.len(),
                r@ == definition_text(self.word@, texts(self.list@).subrange(0, i as int)),
            decreases self.list@.len() - i,
        {
            let mut digits: Vec<char> = Vec::new();
            push_decimal(&mut digits, i);
            push_chars(&mut r, &digits, 0, digits.len());
            assert(digits@.subrange(0, digits@.len() as int) =~= decimal(i as nat));
            r.append(". ");
            r.append(self.list[i].as_str());
            assert(texts(self.list@).subrange(0, i + 1).drop_last() =~= texts(
                self.list@,
            ).subrange(0, i as int));
            assert(r@ =~= definition_text(self.word@, texts(self.list@).subrange(0, i + 1)));
            i = i + 1;
        }
        assert(texts(self.list@).subrange(0, i as int) =~= texts(self.list@));
        r
    }

    /// The definition that a dictionary response holds: the word of its first entry and the
    /// definition texts of all of that entry's meanings, in order.
    pub fn from_json(value: &JsonValue) -> (r: Option<Definition>)
        ensures
            r matches Some(d) ==> definition_of(*value) == Some((d.word@, texts(d.list@))),
            r is None ==> definition_of(*value) is None,
    {
        let entries = match value {
            JsonValue::Array(a) => a,
            _ => {
                return None;
            },
        };
        if entries.len() == 0 {
            return None;
        }
        let entry = &entries[0];
        let word = match get_member(entry, "word") {
            Some(JsonValue::Str(w)) => w,
            _ => {
                return None;
            },
        };
        let meanings = match get_member(entry, "meanings") {
            Some(JsonValue::Array(ms)) => ms,
            _ => {
                return None;
            },
        };
        let ghost whole = match meaning_sentences(meanings@, meanings@.len() as int) {
            Some(l) => Some((word@, l)),
            None => None,
        };
        assert(definition_of(*value) == whole);
        let mut list: Vec<String> = Vec::new();
        let mut i: usize = 0;
        while i < meanings.len()
            invariant
                i <= meanings@.len(),
                definition_of(*value) == whole,
                whole == match meaning_sentences(meanings@, meanings@.len() as int) {
                    Some(l) => Some((word@, l)),
                    None => None,
                },
                meaning_sentences(meanings@, i as int) matches Some(t) && texts(list@) == t,
            decreases meanings@.len() - i,
        {
            let ghost before = list@;
            let ok = match get_member(&meanings[i], "definitions") {
                Some(JsonValue::Array(ds)) => push_sentences(&mut list, ds),
                _ => false,
            };
            if !ok {
                assert(meaning_sentences(meanings@, i + 1) is None);
                proof {
                    lemma_meanings_stay_none(meanings@, i + 1, meanings@.len() as int);
                }
                return None;
            }
            assert(texts(list@) =~= meaning_sentences(meanings@, i + 1)->0);
            i = i + 1;
        }
        Some(Definition { word: word.clone(), list })
    }
}

} // verus!
