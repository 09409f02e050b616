pub mod attrs;
pub mod config;
pub mod element;
pub mod error;
pub mod laws;
pub mod text;
pub mod value;

pub use attrs::AttrMap;
pub use config::ConfigValue;
pub use element::{parse_widget_use_children, WidgetDefinition, WidgetUse};
pub use error::ConfigError;
pub use value::{AttrValue, PrimitiveValue};
