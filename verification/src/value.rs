use crate::config::{ConfigModel, ConfigValue};
use vstd::prelude::*;

verus! {

/// A plain value that an attribute can hold.
///
/// A real number is held as the bit pattern of its double-precision form;
/// this crate carries it along and never computes with it.
#[derive(Debug)]
pub enum PrimitiveValue {
    String(String),
    Integer(i64),
    Real(u64),
    Boolean(bool),
}

/// What a [`PrimitiveValue`] stands for in contracts.
pub enum PrimitiveModel {
    String(Seq<char>),
    Integer(i64),
    Real(u64),
    Boolean(bool),
}

impl View for PrimitiveValue {
    type V = PrimitiveModel;

    open spec fn view(&self) -> PrimitiveModel {
        match self {
            PrimitiveValue::String(s) => PrimitiveModel::String(s@),
            PrimitiveValue::Integer(n) => PrimitiveModel::Integer(*n),
            PrimitiveValue::Real(bits) => PrimitiveModel::Real(*bits),
            PrimitiveValue::Boolean(b) => PrimitiveModel::Boolean(*b),
        }
    }
}

impl Clone for PrimitiveValue {
    fn clone(&self) -> (copy: Self)
        ensures
            copy@ == self@,
    {
        match self {
            PrimitiveValue::String(s) => PrimitiveValue::String(s.clone()),
            PrimitiveValue::Integer(n) => PrimitiveValue::Integer(*n),
            PrimitiveValue::Real(bits) => PrimitiveValue::Real(*bits),
            PrimitiveValue::Boolean(b) => PrimitiveValue::Boolean(*b),
        }
    }
}

impl PartialEq for PrimitiveValue {
    fn eq(&self, other: &Self) -> (equal: bool) {
        match (self, other) {
            (PrimitiveValue::String(a), PrimitiveValue::String(b)) => *a == *b,
            (PrimitiveValue::Integer(a), PrimitiveValue::Integer(b)) => *a == *b,
            (PrimitiveValue::Real(a), PrimitiveValue::Real(b)) => *a == *b,
            (PrimitiveValue::Boolean(a), PrimitiveValue::Boolean(b)) => *a == *b,
            _ => false,
        }
    }
}

impl vstd::std_specs::cmp::PartialEqSpecImpl for PrimitiveValue {
    open spec fn obeys_eq_spec() -> bool {
        true
    }

    open spec fn eq_spec(&self, other: &Self) -> bool {
        self@ == other@
    }
}

/// The typed value of a widget attribute.
#[derive(Debug)]
pub enum AttrValue {
    Concrete(PrimitiveValue),
}

/// What an [`AttrValue`] stands for in contracts.
pub enum AttrModel {
    Concrete(PrimitiveModel),
}

impl View for AttrValue {
    type V = AttrModel;

    open spec fn view(&self) -> AttrModel {
        match self {
            AttrValue::Concrete(p) => AttrModel::Concrete(p@),
        }
    }
}

impl Clone for AttrValue {
    fn clone(&self) -> (copy: Self)
        ensures
            copy@ == self@,
    {
        match self {
            AttrValue::Concrete(p) => AttrValue::Concrete(p.clone()),
        }
    }
}

impl PartialEq for AttrValue {
    fn eq(&self, other: &Self) -> (equal: bool) {
        match (self, other) {
            (AttrValue::Concrete(a), AttrValue::Concrete(b)) => *a == *b,
        }
    }
}

impl vstd::std_specs::cmp::PartialEqSpecImpl for AttrValue {
    open spec fn obeys_eq_spec() -> bool {
        true
    }

    open spec fn eq_spec(&self, other: &Self) -> bool {
        self@ == other@
    }
}

/// The attribute value that a configuration value coerces to: a string, a
/// number or a boolean becomes the concrete value it holds, and nothing
/// else coerces.
pub open spec fn coerce(value: ConfigModel) -> Option<AttrModel> {
    match value {
        ConfigModel::String(s) => Some(AttrModel::Concrete(PrimitiveModel::String(s))),
        ConfigModel::Integer(n) => Some(AttrModel::Concrete(PrimitiveModel::Integer(n))),
        ConfigModel::Real(bits) => Some(AttrModel::Concrete(PrimitiveModel::Real(bits))),
        ConfigModel::Boolean(b) => Some(AttrModel::Concrete(PrimitiveModel::Boolean(b))),
        _ => None,
    }
}

impl AttrValue {
    /// Coerces a configuration value to an attribute value.
    pub fn try_from_config(value: &ConfigValue) -> (coerced: Option<AttrValue>)
        ensures
            match coerced {
                Some(attr) => coerce(value@) == Some(attr@),
                None => coerce(value@) is None,
            },
    {
        match value {
            ConfigValue::String(s) => Some(AttrValue::Concrete(PrimitiveValue::String(s.clone()))),
            ConfigValue::Integer(n) => Some(AttrValue::Concrete(PrimitiveValue::Integer(*n))),
            ConfigValue::Real(bits) => Some(AttrValue::Concrete(PrimitiveValue::Real(*bits))),
            ConfigValue::Boolean(b) => Some(AttrValue::Concrete(PrimitiveValue::Boolean(*b))),
            _ => None,
        }
    }
}

} // verus!
