use crate::error::{ConfigError, ErrorModel};
use crate::text::{parsed_i64, string_as_i64};
use vstd::prelude::*;

verus! {

/// A parsed configuration tree: a string, a number or a boolean at a leaf,
/// an array of values, or a hash from keys to values.
///
/// A hash holds its entries in document order. A tree that a parser made
/// has each key once in a hash; where a key stands twice, a lookup takes
/// the first entry with it.
#[derive(Debug, PartialEq)]
pub enum ConfigValue {
    /// A real number, held as the bit pattern of its double-precision form.
    Real(u64),
    Integer(i64),
    String(String),
    Boolean(bool),
    Array(Vec<ConfigValue>),
    Hash(Vec<(String, ConfigValue)>),
    /// A value that is absent or that the parser could not use.
    Null,
}

/// What a [`ConfigValue`] stands for in contracts.
pub enum ConfigModel {
    Real(u64),
    Integer(i64),
    String(Seq<char>),
    Boolean(bool),
    Array(Seq<ConfigModel>),
    Hash(Seq<(Seq<char>, ConfigModel)>),
    Null,
}

impl ConfigModel {
    /// Whether this is a string, a number or a boolean.
    pub open spec fn is_primitive(self) -> bool {
        self is String || self is Integer || self is Real || self is Boolean
    }
}

impl ConfigValue {
    /// The model of this value: the same tree over sequences.
    pub open spec fn model(self) -> ConfigModel
        decreases self,
    {
        match self {
            ConfigValue::Real(bits) => ConfigModel::Real(bits),
            ConfigValue::Integer(n) => ConfigModel::Integer(n),
            ConfigValue::String(s) => ConfigModel::String(s@),
            ConfigValue::Boolean(b) => ConfigModel::Boolean(b),
            ConfigValue::Array(items) => ConfigModel::Array(
                Seq::new(
                    items.len() as nat,
                    |i: int|
                        if 0 <= i < items.len() {
                            items[i].model()
                        } else {
                            ConfigModel::Null
                        },
                ),
            ),
            ConfigValue::Hash(entries) => ConfigModel::Hash(
                Seq::new(
                    entries.len() as nat,
                    |i: int|
                        if 0 <= i < entries.len() {
                            (entries[i].0@, entries[i].1.model())
                        } else {
                            (Seq::empty(), ConfigModel::Null)
                        },
                ),
            ),
            ConfigValue::Null => ConfigModel::Null,
        }
    }
}

impl View for ConfigValue {
    type V = ConfigModel;

    open spec fn view(&self) -> ConfigModel {
        self.model()
    }
}

/// The models of the values in `items`, in order.
pub open spec fn views(items: Seq<ConfigValue>) -> Seq<ConfigModel> {
    Seq::new(items.len(), |i: int| items[i]@)
}

/// The models of the entries in `entries`, in order.
pub open spec fn entry_views(entries: Seq<(String, ConfigValue)>) -> Seq<(Seq<char>, ConfigModel)> {
    Seq::new(entries.len(), |i: int| (entries[i].0@, entries[i].1@))
}

/// An array's model holds the models of its items.
pub proof fn lemma_array_view(items: Vec<ConfigValue>)
    ensures
        ConfigValue::Array(items)@ == ConfigModel::Array(views(items@)),
{
    assert(ConfigValue::Array(items)@->Array_0 =~= views(items@));
}

/// A hash's model holds the models of its entries.
pub proof fn lemma_hash_view(entries: Vec<(String, ConfigValue)>)
    ensures
        ConfigValue::Hash(entries)@ == ConfigModel::Hash(entry_views(entries@)),
{
    assert(ConfigValue::Hash(entries)@->Hash_0 =~= entry_views(entries@));
}

impl Clone for ConfigValue {
    #[verifier::loop_isolation(false)]
    fn clone(&self) -> (copy: Self)
        ensures
            copy@ == self@,
        decreases self,
    {
        match self {
            ConfigValue::Real(bits) => ConfigValue::Real(*bits),
            ConfigValue::Integer(n) => ConfigValue::Integer(*n),
            ConfigValue::String(s) => ConfigValue::String(s.clone()),
            ConfigValue::Boolean(b) => ConfigValue::Boolean(*b),
            ConfigValue::Array(items) => {
                let mut copies: Vec<ConfigValue> = Vec::new();
                let mut i: usize = 0;
                while i < items.len()
                    invariant
                        i <= items.len(),
                        copies.len() == i,
                        forall|j: int| 0 <= j < i ==> copies[j]@ == items[j]@,
                    decreases items.len() - i,
                {
                    copies.push(items[i].clone());
                    i += 1;
                }
                proof {
                    lemma_array_view(copies);
                    lemma_array_view(*items);
                    assert(views(copies@) =~= views(items@));
                }
                ConfigValue::Array(copies)
            },
            ConfigValue::Hash(entries) => {
                let mut copies: Vec<(String, ConfigValue)> = Vec::new();
                let mut i: usize = 0;
                while i < entries.len()
                    invariant
                        i <= entries.len(),
                        copies.len() == i,
                        forall|j: int|
                            0 <= j < i ==> copies[j].0@ == entries[j].0@ && copies[j].1@
                                == entries[j].1@,
                    decreases entries.len() - i,
                {
                    copies.push((entries[i].0.clone(), entries[i].1.clone()));
                    i += 1;
                }
                proof {
                    lemma_hash_view(copies);
                    lemma_hash_view(*entries);
                    assert(entry_views(copies@) =~= entry_views(entries@));
                }
                ConfigValue::Hash(copies)
            },
            ConfigValue::Null => ConfigValue::Null,
        }
    }
}

/// Whether `at` is the first place in `entries` whose key is `key`.
pub open spec fn first_at(entries: Seq<(Seq<char>, ConfigModel)>, key: Seq<char>, at: int) -> bool {
    &&& 0 <= at < entries.len()
    &&& entries[at].0 == key
    &&& forall|before: int| 0 <= before < at ==> entries[before].0 != key
}

/// The first place in `entries` whose key is `key`, if there is one.
pub open spec fn position(entries: Seq<(Seq<char>, ConfigModel)>, key: Seq<char>) -> Option<int> {
    if exists|at: int| first_at(entries, key, at) {
        Some(choose|at: int| first_at(entries, key, at))
    } else {
        None
    }
}

/// The value of the first entry of `entries` whose key is `key`.
pub open spec fn lookup(entries: Seq<(Seq<char>, ConfigModel)>, key: Seq<char>) -> Option<
    ConfigModel,
> {
    match position(entries, key) {
        Some(at) => Some(entries[at].1),
        None => None,
    }
}

/// The first place for `key` in `entries` is the one that [`position`]
/// gives.
pub proof fn lemma_first_at_unique(
    entries: Seq<(Seq<char>, ConfigModel)>,
    key: Seq<char>,
    at: int,
)
    requires
        first_at(entries, key, at),
    ensures
        position(entries, key) == Some(at),
{
    let chosen = choose|other: int| first_at(entries, key, other);
    assert(first_at(entries, key, chosen));
    if chosen < at {
        assert(entries[chosen].0 != key);
    } else if at < chosen {
        assert(entries[at].0 != key);
    }
}

/// A key that no entry of `entries` has is at no place.
pub proof fn lemma_position_none(entries: Seq<(Seq<char>, ConfigModel)>, key: Seq<char>)
    requires
        forall|at: int| 0 <= at < entries.len() ==> entries[at].0 != key,
    ensures
        position(entries, key) is None,
{
    assert forall|at: int| !first_at(entries, key, at) by {
        if 0 <= at < entries.len() {
            assert(entries[at].0 != key);
        }
    }
}

/// The integer that a value is read as: an integer is itself, a string is
/// what [`parsed_i64`] reads in it, and nothing else is an integer.
pub open spec fn as_i64(value: ConfigModel) -> Option<i64> {
    match value {
        ConfigModel::Integer(n) => Some(n),
        ConfigModel::String(s) => parsed_i64(s),
        _ => None,
    }
}

/// Finds the first entry of `entries` whose key is `key`.
pub fn find_key(entries: &Vec<(String, ConfigValue)>, key: &String) -> (found: Option<usize>)
    ensures
        match found {
            Some(at) => position(entry_views(entries@), key@) == Some(at as int),
            None => position(entry_views(entries@), key@) is None,
        },
{
    let mut at: usize = 0;
    while at < entries.len()
        invariant
            at <= entries.len(),
            forall|before: int| 0 <= before < at ==> entries[before].0@ != key@,
        decreases entries.len() - at,
    {
        if entries[at].0 == *key {
            proof {
                lemma_first_at_unique(entry_views(entries@), key@, at as int);
            }
            return Some(at);
        }
        at += 1;
    }
    proof {
        lemma_position_none(entry_views(entries@), key@);
    }
    None
}

impl ConfigValue {
    /// The entries of a hash; any other value is refused.
    pub fn as_hash(&self) -> (entries: Result<&Vec<(String, ConfigValue)>, ConfigError>)
        ensures
            match entries {
                Ok(found) => self@ == ConfigModel::Hash(entry_views(found@)),
                Err(error) => !(self@ is Hash) && error@ == (ErrorModel::NotAHash { value: self@ }),
            },
    {
        match self {
            ConfigValue::Hash(entries) => {
                proof {
                    lemma_hash_view(*entries);
                }
                Ok(entries)
            },
            _ => Err(ConfigError::NotAHash { value: self.clone() }),
        }
    }

    /// Reads this value as an integer.
    pub fn as_i64(&self) -> (number: Option<i64>)
        ensures
            number == as_i64(self@),
    {
        match self {
            ConfigValue::Integer(n) => Some(*n),
            ConfigValue::String(s) => string_as_i64(s.as_str()),
            _ => None,
        }
    }
}

} // verus!
