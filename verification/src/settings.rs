//! The settings of the local user: a store of named values kept on the root
//! document, and what a change of it tells the listeners.

use crate::data::{is_named, WideId};
use crate::doc::{same_key, Entry};
use crate::nearby::model::{Status, BIO};
use vstd::prelude::*;
use vstd::string::StringSliceAdditionalSpecFns;

verus! {

/// Key of the local user's status on the root document.
pub const CURRENT_STATUS_SETTING: &'static str = "current_status";

/// Name of the setting that remembers the active nearby document.
pub const CURRENT_NEARBY_DOC_ID: &'static str = "current_nearby_doc_id";

/// Key of the store of settings on the root document.
pub const SETTINGS_STORE_KEY: &'static str = "settings_store";

/// Name of the setting that says whether the public bio is shared nearby.
pub const SHARE_NEARBY_PUBLIC_BIO: &'static str = "share_nearby_public_bio";

/// The status of a user who has not set one.
pub const DEFAULT_STATUS: &'static str = "whats up?";

/// A value of the store.
#[derive(Debug)]
pub enum StoreValue {
    Bool(bool),
    String(String),
    Int(i32),
    WideId(WideId),
}

impl Clone for StoreValue {
    fn clone(&self) -> (copy: Self)
        ensures
            copy == *self,
    {
        match self {
            StoreValue::Bool(b) => StoreValue::Bool(*b),
            StoreValue::String(s) => StoreValue::String(s.clone()),
            StoreValue::Int(i) => StoreValue::Int(*i),
            StoreValue::WideId(w) => StoreValue::WideId(*w),
        }
    }
}

/// What the settings service tells its listeners.
#[derive(Debug)]
pub enum SettingsEvent {
    StatusSettingChanged(Status),
    OwnPublicBioUpdated(Entry),
    /// The name of a setting, the value it had, and the value it has now.
    SettingChanged(String, Option<StoreValue>, StoreValue),
}

/// A type of value that a setting can have.
pub trait OptionValue: Sized {
    /// The value of this type that a value of the store holds, if it is of
    /// this type.
    spec fn taken(v: StoreValue) -> Option<Self>;

    /// The value of the store that holds `v`.
    spec fn given(v: Self) -> StoreValue;

    /// What is put into the store comes out of it again.
    proof fn lemma_round_trip(v: Self)
        ensures
            Self::taken(Self::given(v)) == Some(v),
    ;

    fn from_store_value(v: StoreValue) -> (value: Option<Self>)
        ensures
            value == Self::taken(v),
    ;

    fn make_store_value(v: Self) -> (value: StoreValue)
        ensures
            value == Self::given(v),
    ;
}

impl OptionValue for bool {
    open spec fn taken(v: StoreValue) -> Option<Self> {
        match v {
            StoreValue::Bool(b) => Some(b),
            _ => None,
        }
    }

    open spec fn given(v: Self) -> StoreValue {
        StoreValue::Bool(v)
    }

    proof fn lemma_round_trip(v: Self) {
    }

    fn from_store_value(v: StoreValue) -> (value: Option<Self>) {
        match v {
            StoreValue::Bool(b) => Some(b),
            _ => None,
        }
    }

    fn make_store_value(v: Self) -> (value: StoreValue) {
        StoreValue::Bool(v)
    }
}

impl OptionValue for WideId {
    open spec fn taken(v: StoreValue) -> Option<Self> {
        match v {
            StoreValue::WideId(w) => Some(w),
            _ => None,
        }
    }

    open spec fn given(v: Self) -> StoreValue {
        StoreValue::WideId(v)
    }

    proof fn lemma_round_trip(v: Self) {
    }

    fn from_store_value(v: StoreValue) -> (value: Option<Self>) {
        match v {
            StoreValue::WideId(w) => Some(w),
            _ => None,
        }
    }

    fn make_store_value(v: Self) -> (value: StoreValue) {
        StoreValue::WideId(v)
    }
}

impl OptionValue for i32 {
    open spec fn taken(v: StoreValue) -> Option<Self> {
        match v {
            StoreValue::Int(i) => Some(i),
            _ => None,
        }
    }

    open spec fn given(v: Self) -> StoreValue {
        StoreValue::Int(v)
    }

    proof fn lemma_round_trip(v: Self) {
    }

    fn from_store_value(v: StoreValue) -> (value: Option<Self>) {
        match v {
            StoreValue::Int(i) => Some(i),
            _ => None,
        }
    }

    fn make_store_value(v: Self) -> (value: StoreValue) {
        StoreValue::Int(v)
    }
}

impl OptionValue for String {
    open spec fn taken(v: StoreValue) -> Option<Self> {
        match v {
            StoreValue::String(s) => Some(s),
            _ => None,
        }
    }

    open spec fn given(v: Self) -> StoreValue {
        StoreValue::String(v)
    }

    proof fn lemma_round_trip(v: Self) {
    }

    fn from_store_value(v: StoreValue) -> (value: Option<Self>) {
        match v {
            StoreValue::String(s) => Some(s),
            _ => None,
        }
    }

    fn make_store_value(v: Self) -> (value: StoreValue) {
        StoreValue::String(v)
    }
}

/// The store of settings: for each name at most one value.
///
/// The names are texts, and what a hash map keyed by texts holds is known
/// to Verus only under an assumption on how texts hash. So the entries stand
/// in a list, and `wf` says that no name stands twice.
pub struct SettingsStore {
    entries: Vec<(String, StoreValue)>,
}

impl View for SettingsStore {
    type V = Map<Seq<char>, StoreValue>;

    closed spec fn view(&self) -> Map<Seq<char>, StoreValue> {
        Map::new(
            |k: Seq<char>| exists|i: int| 0 <= i < self.entries.len() && self.entries[i].0@ == k,
            |k: Seq<char>|
                self.entries[choose|i: int| 0 <= i < self.entries.len() && self.entries[i].0@ == k].1,
        )
    }
}

impl SettingsStore {
    /// No name stands twice in the store.
    pub closed spec fn wf(&self) -> bool {
        forall|i: int, j: int|
            0 <= i < j < self.entries.len() ==> self.entries[i].0@ != self.entries[j].0@
    }

    proof fn lemma_entry(self, i: int)
        requires
            self.wf(),
            0 <= i < self.entries.len(),
        ensures
            self@.contains_key(self.entries[i].0@),
            self@[self.entries[i].0@] == self.entries[i].1,
    {
        let k = self.entries[i].0@;
        let c = choose|c: int| 0 <= c < self.entries.len() && self.entries[c].0@ == k;
        assert(c == i);
    }

    fn find(&self, key: &str) -> (at: Option<usize>)
        requires
            self.wf(),
        ensures
            match at {
                Some(i) => i < self.entries.len() && self.entries[i as int].0@ == key@
                    && self@.contains_key(key@) && self@[key@] == self.entries[i as int].1,
                None => !self@.contains_key(key@),
            },
    {
        let mut i: usize = 0;
        while i < self.entries.len()
            invariant
                self.wf(),
                i <= self.entries.len(),
                forall|j: int| 0 <= j < i ==> self.entries[j].0@ != key@,
            decreases self.entries.len() - i,
        {
            if is_named(&self.entries[i].0, key) {
                proof {
                    self.lemma_entry(i as int);
                }
                return Some(i);
            }
            i += 1;
        }
        None
    }

    /// An empty store.
    pub fn new() -> (store: SettingsStore)
        ensures
            store.wf(),
            store@ == Map::<Seq<char>, StoreValue>::empty(),
    {
        let store = SettingsStore { entries: Vec::new() };
        assert(store@ =~= Map::<Seq<char>, StoreValue>::empty());
        store
    }

    /// The value of the setting `key`.
    pub fn get(&self, key: &str) -> (value: Option<StoreValue>)
        requires
            self.wf(),
        ensures
            value == if self@.contains_key(key@) {
                Some(self@[key@])
            } else {
                None
            },
    {
        match self.find(key) {
            Some(i) => Some(self.entries[i].1.clone()),
            None => None,
        }
    }

    /// Gives the setting `key` the value `value`, and hands back the value it
    /// had.
    pub fn insert(&mut self, key: &str, value: StoreValue) -> (before: Option<StoreValue>)
        requires
            old(self).wf(),
        ensures
            final(self).wf(),
            final(self)@ == old(self)@.insert(key@, value),
            before == if old(self)@.contains_key(key@) {
                Some(old(self)@[key@])
            } else {
                None
            },
    {
        let ghost start = *self;
        let found = self.find(key);
        let ghost gap: int = match found {
            Some(i) => i as int,
            None => start.entries.len() as int,
        };
        let before = match found {
            Some(i) => {
                let removed = self.entries.remove(i);
                Some(removed.1)
            },
            None => None,
        };
        let ghost mid = self.entries@;
        assert forall|a: int| 0 <= a < mid.len() implies #[trigger] mid[a] == start.entries[if a
            < gap {
            a
        } else {
            a + 1
        }] by {}
        self.entries.push((key.to_owned(), value));
        proof {
            let end = *self;
            assert forall|a: int| 0 <= a < mid.len() implies (#[trigger] end.entries[a]).0@
                != key@ by {
                let j = if a < gap { a } else { a + 1 };
                assert(end.entries[a] == start.entries[j]);
                if found is None {
                    start.lemma_entry(j);
                }
            }
            assert(end.wf()) by {
                assert forall|a: int, b: int| 0 <= a < b < end.entries.len() implies end.entries[a].0@
                    != end.entries[b].0@ by {
                    let ja = if a < gap { a } else { a + 1 };
                    if b < mid.len() {
                        let jb = if b < gap { b } else { b + 1 };
                        assert(end.entries[a] == start.entries[ja]);
                        assert(end.entries[b] == start.entries[jb]);
                    } else {
                        assert(end.entries[a].0@ != key@);
                    }
                }
            }
            end.lemma_entry(mid.len() as int);
            assert forall|k: Seq<char>| end@.contains_key(k) <==> (k == key@
                || start@.contains_key(k)) by {
                if end@.contains_key(k) && k != key@ {
                    let a = choose|a: int| 0 <= a < end.entries.len() && end.entries[a].0@ == k;
                    let j = if a < gap { a } else { a + 1 };
                    assert(end.entries[a] == start.entries[j]);
                    start.lemma_entry(j);
                }
                if start@.contains_key(k) && k != key@ {
                    let j = choose|j: int|
                        0 <= j < start.entries.len() && start.entries[j].0@ == k;
                    let a = if j < gap { j } else { j - 1 };
                    assert(end.entries[a] == start.entries[j]);
                    end.lemma_entry(a);
                }
            }
            assert forall|k: Seq<char>| end@.contains_key(k) && k != key@ implies end@[k]
                == start@[k] by {
                let a = choose|a: int| 0 <= a < end.entries.len() && end.entries[a].0@ == k;
                end.lemma_entry(a);
                let j = if a < gap { a } else { a + 1 };
                assert(end.entries[a] == start.entries[j]);
                start.lemma_entry(j);
            }
            assert(end@ =~= start@.insert(key@, value));
        }
        before
    }
}

/// The setting `key` of the store, as a value of the type asked for.
/// There is none where the store has no such setting, or one of another
/// type.
pub fn read_setting_from_store<T: OptionValue>(key: &str, store: &SettingsStore) -> (value:
    Option<T>)
    requires
        store.wf(),
    ensures
        value == if store@.contains_key(key@) {
            T::taken(store@[key@])
        } else {
            None
        },
{
    match store.get(key) {
        None => None,
        Some(v) => T::from_store_value(v),
    }
}

/// The setting `key` of the store, or `default` where
/// `read_setting_from_store` finds none.
pub fn get_setting_defaulted<T: OptionValue>(
    key: &str,
    store: &SettingsStore,
    default: T,
) -> (value: T)
    requires
        store.wf(),
    ensures
        value == if store@.contains_key(key@) && T::taken(store@[key@]) is Some {
            T::taken(store@[key@])->0
        } else {
            default
        },
{
    match read_setting_from_store::<T>(key, store) {
        Some(v) => v,
        None => default,
    }
}

/// Gives the setting `key` the value `value`, and says what the listeners
/// are told: the name, the value that the setting had, and the new value.
pub fn set_setting<T: OptionValue>(
    store: &mut SettingsStore,
    key: &str,
    value: T,
) -> (event: SettingsEvent)
    requires
        old(store).wf(),
    ensures
        final(store).wf(),
        final(store)@ == old(store)@.insert(key@, T::given(value)),
        event matches SettingsEvent::SettingChanged(name, before, after) && {
            &&& name@ == key@
            &&& before == if old(store)@.contains_key(key@) {
                Some(old(store)@[key@])
            } else {
                None
            }
            &&& after == T::given(value)
        },
{
    let sv = T::make_store_value(value);
    let new_value = sv.clone();
    let old_value = store.insert(key, sv);
    SettingsEvent::SettingChanged(key.to_owned(), old_value, new_value)
}

/// The store of settings of the local user: the one read from the root
/// document, or a new one where none is there. The flag says that the store
/// is to be written now.
pub fn get_settings_store(stored: Option<SettingsStore>) -> (out: (SettingsStore, bool))
    requires
        stored matches Some(s) ==> s.wf(),
    ensures
        out.0.wf(),
        match stored {
            Some(s) => out.0 == s && !out.1,
            None => out.0@ == Map::<Seq<char>, StoreValue>::empty() && out.1,
        },
{
    match stored {
        Some(s) => (s, false),
        None => (SettingsStore::new(), true),
    }
}

/// What a row of the root document is to the settings service.
#[derive(Debug, Clone, Copy, PartialEq, Eq, Structural)]
pub enum SettingsRow {
    /// The status of the local user.
    Status,
    /// The pointer to the public bio of the local user.
    Bio,
    /// Any other row; the service passes it over.
    Other,
}

/// The kind of the row of the root document with the given key.
pub fn settings_row(key: &[u8]) -> (kind: SettingsRow)
    ensures
        kind == if key@ == CURRENT_STATUS_SETTING.spec_bytes() {
            SettingsRow::Status
        } else if key@ == BIO.spec_bytes() {
            SettingsRow::Bio
        } else {
            SettingsRow::Other
        },
{
    if same_key(key, CURRENT_STATUS_SETTING.as_bytes()) {
        SettingsRow::Status
    } else if same_key(key, BIO.as_bytes()) {
        SettingsRow::Bio
    } else {
        SettingsRow::Other
    }
}

/// The status of the local user: the one stored, or the default status
/// where none is stored. The flag says that the status is to be stored
/// now.
pub fn get_status(stored: Option<Status>) -> (out: (Status, bool))
    ensures
        match stored {
            Some(status) => out.0 == status && !out.1,
            None => out.0.text@ == DEFAULT_STATUS@ && out.1,
        },
{
    match stored {
        Some(status) => (status, false),
        None => (Status { text: DEFAULT_STATUS.to_owned() }, true),
    }
}

} // verus!
