//! The credential store: one API key and one API base URL for each
//! explorer, found by a name that occurs in the explorer's URLs.

use crate::json::{
    json_document, lemma_array_view, lemma_object_view, members_view, written_text, Json,
    JsonValue, Member, MemberValue,
};
use crate::models::ParseError;
use vstd::prelude::*;

verus! {

/// The credentials of one explorer.
#[derive(Debug)]
pub struct CredentialEntry {
    /// A text that occurs in the URLs of this explorer.
    pub name: String,
    /// The API key.
    pub key: String,
    /// The base URL of the API.
    pub url: String,
}

/// The mathematical value of a credential entry.
pub struct EntryValue {
    pub name: Seq<char>,
    pub key: Seq<char>,
    pub url: Seq<char>,
}

impl View for CredentialEntry {
    type V = EntryValue;

    open spec fn view(&self) -> EntryValue {
        EntryValue { name: self.name@, key: self.key@, url: self.url@ }
    }
}

/// The values of a list of entries.
pub open spec fn entries_view(entries: Seq<CredentialEntry>) -> Seq<EntryValue> {
    Seq::new(entries.len(), |i: int| entries[i]@)
}

/// No two entries have the same name.
pub open spec fn distinct_names(entries: Seq<EntryValue>) -> bool {
    forall|i: int, j: int|
        0 <= i < j < entries.len() ==> (#[trigger] entries[i]).name != (#[trigger] entries[j]).name
}

/// Some entry is named `name`.
pub open spec fn has_name(entries: Seq<EntryValue>, name: Seq<char>) -> bool {
    exists|i: int| 0 <= i < entries.len() && (#[trigger] entries[i]).name == name
}

/// `entries` with `e` in the place of the entry of its name, or at the end
/// where no entry has that name.
pub open spec fn with_entry(entries: Seq<EntryValue>, e: EntryValue) -> Seq<EntryValue> {
    if has_name(entries, e.name) {
        Seq::new(
            entries.len(),
            |i: int|
                if entries[i].name == e.name {
                    e
                } else {
                    entries[i]
                },
        )
    } else {
        entries.push(e)
    }
}

/// `entries` with `key` as the key of the entry named `name`.
pub open spec fn with_key(entries: Seq<EntryValue>, name: Seq<char>, key: Seq<char>) -> Seq<
    EntryValue,
> {
    Seq::new(
        entries.len(),
        |i: int|
            if entries[i].name == name {
                EntryValue { name: name, key: key, url: entries[i].url }
            } else {
                entries[i]
            },
    )
}

/// `entries` with `url` as the base URL of the entry named `name`.
pub open spec fn with_url(entries: Seq<EntryValue>, name: Seq<char>, url: Seq<char>) -> Seq<
    EntryValue,
> {
    Seq::new(
        entries.len(),
        |i: int|
            if entries[i].name == name {
                EntryValue { name: name, key: entries[i].key, url: url }
            } else {
                entries[i]
            },
    )
}

/// `after` is `before` without one entry named `name`.
pub open spec fn removed_from(before: Seq<EntryValue>, after: Seq<EntryValue>, name: Seq<char>) -> bool {
    exists|i: int|
        0 <= i < before.len() && (#[trigger] before[i]).name == name && after == before.remove(i)
}

/// A JSON value that holds one key and one base URL: an array of exactly
/// two strings.
pub open spec fn is_credential(v: JsonValue) -> bool {
    &&& v is Array
    &&& v->Array_0.len() == 2
    &&& v->Array_0[0] is Text
    &&& v->Array_0[1] is Text
}

/// The entry that a member of the stored object stands for.
pub open spec fn entry_of(m: MemberValue) -> EntryValue {
    EntryValue {
        name: m.name,
        key: m.value->Array_0[0]->Text_0,
        url: m.value->Array_0[1]->Text_0,
    }
}

/// The entries that a stored document lists: one for each member of its
/// object, in order. `None` unless the document is an object in which
/// every member holds an array of two strings and no name occurs twice.
pub open spec fn credentials_of(doc: JsonValue) -> Option<Seq<EntryValue>> {
    match doc {
        JsonValue::Object(members) => {
            let entries = Seq::new(members.len(), |i: int| entry_of(members[i]));
            if (forall|i: int| 0 <= i < members.len() ==> is_credential((#[trigger] members[i]).value))
                && distinct_names(entries) {
                Some(entries)
            } else {
                None
            }
        },
        _ => None,
    }
}

/// The member of the stored object that stands for an entry: under the
/// entry's name, an array of its key and its base URL.
pub open spec fn member_of(e: EntryValue) -> MemberValue {
    MemberValue {
        name: e.name,
        value: JsonValue::Array(seq![JsonValue::Text(e.key), JsonValue::Text(e.url)]),
    }
}

/// The document that stores a list of entries: an object with one member
/// for each entry, in order.
pub open spec fn stored_document(entries: Seq<EntryValue>) -> JsonValue {
    JsonValue::Object(Seq::new(entries.len(), |i: int| member_of(entries[i])))
}

/// What is stored can be read again: the document that stores a list of
/// entries with distinct names lists these entries.
pub proof fn lemma_stored_document_is_read_back(entries: Seq<EntryValue>)
    requires
        distinct_names(entries),
    ensures
        credentials_of(stored_document(entries)) == Some(entries),
{
    let members = stored_document(entries)->Object_0;
    let listed = Seq::new(members.len(), |i: int| entry_of(members[i]));
    assert forall|i: int| 0 <= i < members.len() implies is_credential(
        (#[trigger] members[i]).value,
    ) by {
        assert(members[i] == member_of(entries[i]));
    }
    assert forall|i: int| 0 <= i < listed.len() implies listed[i] == entries[i] by {
        assert(members[i] == member_of(entries[i]));
    }
    assert(listed =~= entries);
}

proof fn lemma_same_names(before: Seq<EntryValue>, after: Seq<EntryValue>)
    requires
        distinct_names(before),
        after.len() == before.len(),
        forall|k: int| 0 <= k < before.len() ==> (#[trigger] after[k]).name == before[k].name,
    ensures
        distinct_names(after),
{
    assert forall|i: int, j: int| 0 <= i < j < after.len() implies (#[trigger] after[i]).name != (
    #[trigger] after[j]).name by {
        assert(before[i].name != before[j].name);
    }
}

proof fn lemma_push_name(before: Seq<EntryValue>, e: EntryValue)
    requires
        distinct_names(before),
        !has_name(before, e.name),
    ensures
        distinct_names(before.push(e)),
{
    let after = before.push(e);
    assert forall|i: int, j: int| 0 <= i < j < after.len() implies (#[trigger] after[i]).name != (
    #[trigger] after[j]).name by {
        if j < before.len() {
            assert(before[i].name != before[j].name);
        } else {
            assert(before[i].name != e.name);
        }
    }
}

proof fn lemma_remove_name(before: Seq<EntryValue>, at: int)
    requires
        distinct_names(before),
        0 <= at < before.len(),
    ensures
        distinct_names(before.remove(at)),
        !has_name(before.remove(at), before[at].name),
{
    let after = before.remove(at);
    assert forall|i: int, j: int| 0 <= i < j < after.len() implies (#[trigger] after[i]).name != (
    #[trigger] after[j]).name by {
        let a = if i < at { i } else { i + 1 };
        let b = if j < at { j } else { j + 1 };
        assert(before[a].name != before[b].name);
    }
    assert forall|i: int| 0 <= i < after.len() implies (#[trigger] after[i]).name != before[at].name by {
        let a = if i < at { i } else { i + 1 };
        if a < at {
            assert(before[a].name != before[at].name);
        } else {
            assert(before[at].name != before[a].name);
        }
    }
}

/// The credential store. Its entries keep the order in which they were
/// added, and no two of them have the same name.
#[derive(Debug)]
pub struct ApiDB {
    db: Vec<CredentialEntry>,
}

impl View for ApiDB {
    type V = Seq<EntryValue>;

    closed spec fn view(&self) -> Seq<EntryValue> {
        entries_view(self.db@)
    }
}

impl ApiDB {
    #[verifier::type_invariant]
    spec fn names_are_distinct(&self) -> bool {
        distinct_names(entries_view(self.db@))
    }

    /// The empty store.
    pub fn new() -> (r: Self)
        ensures
            r@ == Seq::<EntryValue>::empty(),
    {
        let r = ApiDB { db: Vec::new() };
        assert(r@ =~= Seq::<EntryValue>::empty());
        r
    }

    /// The entries, in order.
    pub fn entries(&self) -> (r: &Vec<CredentialEntry>)
        ensures
            entries_view(r@) == self@,
            distinct_names(self@),
    {
        proof {
            use_type_invariant(self);
        }
        &self.db
    }

    /// Moves the entries out and leaves the store empty.
    fn take_entries(&mut self) -> (r: Vec<CredentialEntry>)
        ensures
            r == old(self).db,
            final(self).db@ == Seq::<CredentialEntry>::empty(),
    {
        let mut db: Vec<CredentialEntry> = Vec::new();
        std::mem::swap(&mut self.db, &mut db);
        db
    }

    /// The index of the entry named `name`.
    fn position(&self, name: &str) -> (r: Option<usize>)
        ensures
            match r {
                Some(i) => i < self@.len() && self@[i as int].name == name@,
                None => !has_name(self@, name@),
            },
    {
        let wanted = name.to_owned();
        let mut i: usize = 0;
        while i < self.db.len()
            invariant
                i <= self.db.len(),
                wanted@ == name@,
                forall|k: int| 0 <= k < i ==> (#[trigger] self@[k]).name != name@,
            decreases self.db.len() - i,
        {
            if self.db[i].name == wanted {
                return Some(i);
            }
            i += 1;
        }
        None
    }

    /// Sets the key of the entry named `name`. Returns whether there is
    /// such an entry; without one the store stays as it was.
    pub fn change_api_key(&mut self, name: &str, new_key: &str) -> (r: bool)
        ensures
            r == has_name(old(self)@, name@),
            final(self)@ == with_key(old(self)@, name@, new_key@),
            distinct_names(final(self)@),
    {
        proof {
            use_type_invariant(&*self);
        }
        match self.position(name) {
            Some(i) => {
                let e = CredentialEntry {
                    name: name.to_owned(),
                    key: new_key.to_owned(),
                    url: self.db[i].url.clone(),
                };
                let mut db = self.take_entries();
                db.set(i, e);
                proof {
                    lemma_same_names(old(self)@, entries_view(db@));
                }
                self.db = db;
                assert(self@ =~= with_key(old(self)@, name@, new_key@));
                true
            },
            None => {
                assert(self@ =~= with_key(self@, name@, new_key@));
                false
            },
        }
    }

    /// Sets the base URL of the entry named `name`. Returns whether there
    /// is such an entry; without one the store stays as it was.
    pub fn change_api_url(&mut self, name: &str, new_url: &str) -> (r: bool)
        ensures
            r == has_name(old(self)@, name@),
            final(self)@ == with_url(old(self)@, name@, new_url@),
            distinct_names(final(self)@),
    {
        proof {
            use_type_invariant(&*self);
        }
        match self.position(name) {
            Some(i) => {
                let e = CredentialEntry {
                    name: name.to_owned(),
                    key: self.db[i].key.clone(),
                    url: new_url.to_owned(),
                };
                let mut db = self.take_entries();
                db.set(i, e);
                proof {
                    lemma_same_names(old(self)@, entries_view(db@));
                }
                self.db = db;
                assert(self@ =~= with_url(old(self)@, name@, new_url@));
                true
            },
            None => {
                assert(self@ =~= with_url(self@, name@, new_url@));
                false
            },
        }
    }

    /// Adds an entry. Where the store has an entry of that name already,
    /// the new one takes its place.
    pub fn add_new_api(&mut self, name: &str, key: &str, api: &str)
        ensures
            final(self)@ == with_entry(
                old(self)@,
                EntryValue { name: name@, key: key@, url: api@ },
            ),
            distinct_names(final(self)@),
    {
        proof {
            use_type_invariant(&*self);
        }
        let e = CredentialEntry { name: name.to_owned(), key: key.to_owned(), url: api.to_owned() };
        match self.position(name) {
            Some(i) => {
                let ghost added = e@;
                let mut db = self.take_entries();
                db.set(i, e);
                proof {
                    lemma_same_names(old(self)@, entries_view(db@));
                }
                self.db = db;
                assert(self@ =~= with_entry(old(self)@, added));
            },
            None => {
                let ghost added = e@;
                let mut db = self.take_entries();
                db.push(e);
                proof {
                    lemma_push_name(old(self)@, added);
                    assert(entries_view(db@) =~= old(self)@.push(added));
                }
                self.db = db;
                assert(self@ =~= with_entry(old(self)@, added));
            },
        }
    }

    /// Removes the entry named `name`. Returns whether there was one;
    /// without one the store stays as it was.
    pub fn remove_api(&mut self, name: &str) -> (r: bool)
        ensures
            r == has_name(old(self)@, name@),
            r ==> removed_from(old(self)@, final(self)@, name@),
            !r ==> final(self)@ == old(self)@,
            !has_name(final(self)@, name@),
            distinct_names(final(self)@),
    {
        proof {
            use_type_invariant(&*self);
        }
        match self.position(name) {
            Some(i) => {
                let mut db = self.take_entries();
                db.remove(i);
                proof {
                    lemma_remove_name(old(self)@, i as int);
                    assert(entries_view(db@) =~= old(self)@.remove(i as int));
                }
                self.db = db;
                assert(self@ =~= old(self)@.remove(i as int));
                true
            },
            None => false,
        }
    }

    /// The store that a document lists.
    pub fn from_json(doc: &Json) -> (r: Option<ApiDB>)
        ensures
            match r {
                Some(db) => credentials_of(doc@) == Some(db@),
                None => credentials_of(doc@) is None,
            },
    {
        let members = match doc.as_object() {
            Some(members) => members,
            None => {
                return None;
            },
        };
        let ghost all = doc@->Object_0;
        let ghost listed = Seq::new(all.len(), |i: int| entry_of(all[i]));
        let mut db = ApiDB::new();
        let mut i: usize = 0;
        while i < members.len()
            invariant
                i <= members.len(),
                doc@ == JsonValue::Object(all),
                all == members_view(members@),
                listed == Seq::new(all.len(), |k: int| entry_of(all[k])),
                db@ == listed.take(i as int),
                distinct_names(db@),
                forall|k: int| 0 <= k < i ==> is_credential((#[trigger] all[k]).value),
            decreases members.len() - i,
        {
            let m = &members[i];
            assert(all[i as int].name == m.name@ && all[i as int].value == m.value@);
            let key = match m.value.element(0) {
                Some(k) => k.as_str(),
                None => None,
            };
            let url = match m.value.element(1) {
                Some(u) => u.as_str(),
                None => None,
            };
            let long = m.value.element(2).is_some();
            match (key, url) {
                (Some(k), Some(u)) => {
                    if long || db.position(m.name.as_str()).is_some() {
                        proof {
                            if !long {
                                let j = choose|j: int|
                                    0 <= j < db@.len() && (#[trigger] db@[j]).name == m.name@;
                                assert(listed[j].name == listed[i as int].name);
                            }
                        }
                        return None;
                    }
                    db.add_new_api(m.name.as_str(), k, u);
                    assert(db@ =~= listed.take(i + 1));
                },
                _ => {
                    return None;
                },
            }
            i += 1;
        }
        assert(listed.take(i as int) =~= listed);
        Some(db)
    }

    /// The document that stores the entries: an object in which each
    /// entry's name stands for the array of its key and its base URL.
    pub fn to_json(&self) -> (r: Json)
        ensures
            r@ == stored_document(self@),
    {
        let mut members: Vec<Member> = Vec::new();
        let mut i: usize = 0;
        while i < self.db.len()
            invariant
                i <= self.db.len(),
                members_view(members@) == Seq::new(i as nat, |k: int| member_of(self@[k])),
            decreases self.db.len() - i,
        {
            let e = &self.db[i];
            let mut pair: Vec<Json> = Vec::new();
            pair.push(Json::Text(e.key.clone()));
            pair.push(Json::Text(e.url.clone()));
            let value = Json::Array(pair);
            proof {
                lemma_array_view(value);
                assert(value@->Array_0 =~= seq![JsonValue::Text(e.key@), JsonValue::Text(e.url@)]);
                assert(self@[i as int] == e@);
            }
            let ghost before = members_view(members@);
            members.push(Member { name: e.name.clone(), value: value });
            assert(members_view(members@) =~= before.push(member_of(self@[i as int])));
            assert(members_view(members@) =~= Seq::new(
                (i + 1) as nat,
                |k: int| member_of(self@[k]),
            ));
            i += 1;
        }
        let r = Json::Object(members);
        proof {
            lemma_object_view(r);
            assert(r@->Object_0 =~= stored_document(self@)->Object_0);
        }
        r
    }

    /// The text that stores the entries: their document as an indented
    /// JSON text. `None` where the document has no such text.
    pub fn write(&self) -> (r: Option<String>)
        ensures
            match r {
                Some(t) => written_text(stored_document(self@)) == Some(t@),
                None => written_text(stored_document(self@)) is None,
            },
    {
        self.to_json().to_text()
    }

    /// Replaces the store by the one that a JSON text lists. A text that
    /// is no JSON document, or lists no store, is refused with
    /// `DecodeError` and leaves the store as it was.
    pub fn read(&mut self, json: &str) -> (r: Result<(), ParseError>)
        ensures
            match r {
                Ok(_) => json_document(json@) is Some && credentials_of(json_document(json@)->0)
                    == Some(final(self)@),
                Err(e) => e == ParseError::DecodeError && final(self)@ == old(self)@ && (
                json_document(json@) is None || credentials_of(json_document(json@)->0) is None),
            },
            distinct_names(final(self)@),
    {
        proof {
            use_type_invariant(&*self);
        }
        let doc = match Json::parse(json) {
            Ok(doc) => doc,
            Err(e) => {
                return Err(e);
            },
        };
        match ApiDB::from_json(&doc) {
            Some(db) => {
                proof {
                    use_type_invariant(&db);
                }
                *self = db;
                Ok(())
            },
            None => Err(ParseError::DecodeError),
        }
    }

    /// The entry named `name`, if there is one.
    pub fn get(&self, name: &str) -> (r: Option<&CredentialEntry>)
        ensures
            match r {
                Some(e) => e@.name == name@ && self@.contains(e@),
                None => !has_name(self@, name@),
            },
    {
        match self.position(name) {
            Some(i) => {
                assert(self@[i as int] == self.db@[i as int]@);
                Some(&self.db[i])
            },
            None => None,
        }
    }
}

} // verus!
