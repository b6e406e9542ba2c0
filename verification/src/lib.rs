use vstd::prelude::*;

pub mod text;
pub mod rename;
pub mod tokens;
pub mod serde_attr;
pub mod rust_type;
pub mod diagnostics;
pub mod type_tree;
pub mod component_schema;
pub mod component_plan;
pub mod alias;
pub mod core_type_tree;
pub mod core_fn_arg;
pub mod component_type;
pub mod pattern;
pub mod ext;
pub mod rocket;
pub mod xml;
pub mod rocket_args;
pub mod body;
pub mod into_params;
pub mod auto_types;
pub mod argument;
pub mod enums;
pub mod named_struct;
pub mod unnamed_struct;
pub mod schema;
pub mod fn_arg;
pub mod config;
pub mod features;
pub mod feature_tokens;
pub mod doc_comment;
pub mod attrs;
