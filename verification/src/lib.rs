//! Build-time configuration: a tree of options with defaults, conditions and
//! value checks is resolved against the overrides of a project and the
//! active features into the effective configuration, from which flags and
//! declarations are generated. An editor works on the same tree through a
//! repository.

pub mod editor;
pub mod emit;
pub mod enums;
pub mod evaluate;
pub mod flatten;
pub mod fuse;
pub mod laws;
pub mod laws_flatten;
pub mod laws_fuse;
pub mod model;
pub mod paths;
pub mod predicate;
pub mod prune;
pub mod repository;
pub mod text;
pub mod validate;
pub mod value;

pub use editor::{Action, Editor, InputMode, Key};
pub use emit::{cfg_flags, generate_config};
pub use enums::{extract_all_enum_definitions, to_variant_name, EnumDefinition};
pub use evaluate::{current_config_values, evaluate_config_str, evaluate_config_str_to_cfg};
pub use model::{ConfigOption, Error, OptionMap, ValueItem, ValueType};
pub use paths::find_root_path;
pub use repository::{Namespace, Repository};
pub use value::Value;
