use crate::config::{ConfigModel, ConfigValue};
use vstd::prelude::*;

verus! {

/// Why a configuration value could not be turned into a widget tree, or why
/// an attribute could not be read.
#[derive(Debug, PartialEq)]
pub enum ConfigError {
    /// A hash was required where `value` stands.
    NotAHash { value: ConfigValue },
    /// A hash that should name a widget has no entry.
    EmptyWidgetUse,
    /// The definition `definition` lacks the key `field`.
    MissingField { field: String, definition: String },
    /// A hash stands where a list of children or a single value is required.
    InvalidChildrenShape { value: ConfigValue },
    /// `value` holds nothing that an attribute can take.
    AttrValueCoercionFailed { value: ConfigValue },
    /// The widget `widget` has no attribute `key`.
    MissingAttribute { key: String, widget: String },
}

/// What a [`ConfigError`] stands for in contracts.
pub enum ErrorModel {
    NotAHash { value: ConfigModel },
    EmptyWidgetUse,
    MissingField { field: Seq<char>, definition: Seq<char> },
    InvalidChildrenShape { value: ConfigModel },
    AttrValueCoercionFailed { value: ConfigModel },
    MissingAttribute { key: Seq<char>, widget: Seq<char> },
}

impl View for ConfigError {
    type V = ErrorModel;

    open spec fn view(&self) -> ErrorModel {
        match self {
            ConfigError::NotAHash { value } => ErrorModel::NotAHash { value: value@ },
            ConfigError::EmptyWidgetUse => ErrorModel::EmptyWidgetUse,
            ConfigError::MissingField { field, definition } => ErrorModel::MissingField {
                field: field@,
                definition: definition@,
            },
            ConfigError::InvalidChildrenShape { value } => ErrorModel::InvalidChildrenShape {
                value: value@,
            },
            ConfigError::AttrValueCoercionFailed { value } => ErrorModel::AttrValueCoercionFailed {
                value: value@,
            },
            ConfigError::MissingAttribute { key, widget } => ErrorModel::MissingAttribute {
                key: key@,
                widget: widget@,
            },
        }
    }
}

impl Clone for ConfigError {
    fn clone(&self) -> (copy: Self)
        ensures
            copy@ == self@,
    {
        match self {
            ConfigError::NotAHash { value } => ConfigError::NotAHash { value: value.clone() },
            ConfigError::EmptyWidgetUse => ConfigError::EmptyWidgetUse,
            ConfigError::MissingField { field, definition } => ConfigError::MissingField {
                field: field.clone(),
                definition: definition.clone(),
            },
            ConfigError::InvalidChildrenShape { value } => ConfigError::InvalidChildrenShape {
                value: value.clone(),
            },
            ConfigError::AttrValueCoercionFailed { value } => ConfigError::AttrValueCoercionFailed {
                value: value.clone(),
            },
            ConfigError::MissingAttribute { key, widget } => ConfigError::MissingAttribute {
                key: key.clone(),
                widget: widget.clone(),
            },
        }
    }
}

} // verus!
