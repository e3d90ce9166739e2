//! Credential resolution, named path templates, strict datetime parsing and
//! query construction over a lazy tabular engine.
//!
//! The library's logic is verified against its contracts. Calls into the
//! tabular engine and into home-directory expansion go through small
//! trusted wrappers in `engine` and `home`, each documented with what it
//! relies on. The file system, the environment and the terminal stay with
//! the caller, who hands their contents in as plain values.

pub mod configure;
pub mod credentials;
pub mod datetime;
pub mod engine;
pub mod home;
pub mod pattern;
pub mod properties;
pub mod query;
pub mod template;
pub mod text;

pub use configure::{configure_input, initialize};
pub use credentials::{
    get_credentials, Aws, AwsCredentials, CredentialSources, CredentialsError, EnvCredentials,
    ParseCredentials,
};
pub use datetime::{extract_date_parts, parse_i32, DateField, DateParts, DateTimeError};
pub use pattern::{
    add_pattern_to_config, does_pattern_match_pattern_format, get_available_patterns,
    parse_config_file_for_pattern, remove_pattern_from_config, PatternError,
};
pub use properties::PropertyMap;
pub use query::{
    build_index_filter, build_query, execute, filter_columns, get_index_expr_if_needed, is_cloud_path,
    resolve_source, scan, select_projection, to_datetime_expression, CloudObject, IndexFilter,
    ParqProcessor, Processor, Processors, Projection, QueryError, QueryPlan, Source,
};
pub use template::{
    acquire_file_name, collect_user_input_from_string, handle_pattern, placeholders_to_ask,
    replace_string_variables_with_value,
};
pub use text::split_lines;
