//! Control library for a locally supervised Verdaccio registry server:
//! process lifecycle bookkeeping, a bounded log buffer with ANSI
//! sanitizing, and the pure logic behind the package, user and settings
//! views.

mod errors;
mod json;
mod launch;
mod packages;
mod logbuf;
mod sanitize;
mod settings;
mod text;
mod users;
mod verdaccio;

pub use errors::VerdaccioError;
pub use json::JsonValue;
pub use packages::EntryKind;
pub use packages::PackageInfo;
pub use packages::PackageType;
pub use packages::PaginatedResult;
pub use packages::classify_entry;
pub use packages::package_names_from_api;
pub use packages::parse_author;
pub use packages::parse_repository;
pub use packages::read_package_info;
pub use packages::sort_package_dirs;
pub use packages::sort_versions_desc;
pub use packages::summarize_deletions;
pub use packages::version_from_manifest;
pub use packages::contains_name;
pub use packages::filter_package_names_by_type;
pub use packages::full_scoped_name;
pub use packages::get_package_path;
pub use packages::is_valid_package_dir;
pub use packages::paginate;
pub use packages::version_compare;
pub use launch::DEFAULT_CONFIG_TEXT;
pub use launch::LaunchPlan;
pub use launch::RESET_CONFIG_TEXT;
pub use launch::default_config_text;
pub use launch::reset_config_text;
pub use launch::get_config_path;
pub use launch::get_htpasswd_path;
pub use launch::get_storage_path;
pub use launch::get_verdaccio_dir;
pub use launch::listen_address;
pub use launch::resolve_existing;
pub use launch::resolve_home;
pub use launch::resource_candidates;
pub use logbuf::LogEntry;
pub use logbuf::MAX_LOG_ENTRIES;
pub use sanitize::clean_message;
pub use sanitize::strip_ansi_codes;
pub use sanitize::trim_text;
pub use settings::AppSettings;
pub use settings::default_port;
pub use settings::get_settings_path;
pub use text::i32_to_string;
pub use text::str_eq;
pub use text::str_to_chars;
pub use text::u64_to_string;
pub use users::UserInfo;
pub use users::UsersError;
pub use users::add_user_content;
pub use users::add_user_with_hash;
pub use users::change_user_password_content;
pub use users::delete_user_content;
pub use users::generate_htpasswd;
pub use users::parse_htpasswd;
pub use users::split_lines;
pub use users::users_from_htpasswd;
pub use verdaccio::ProcessEvent;
pub use verdaccio::VerdaccioProcess;
pub use verdaccio::VerdaccioStatus;
pub use verdaccio::apply_event;
pub use verdaccio::begin_start;
pub use verdaccio::begin_stop;
pub use verdaccio::check_verdaccio_installed;
pub use verdaccio::clear_verdaccio_logs;
pub use verdaccio::finish_stop;
pub use verdaccio::get_verdaccio_logs;
pub use verdaccio::get_verdaccio_status;
pub use verdaccio::on_spawned;
