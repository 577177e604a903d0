//! A PostgreSQL schema migration engine: file names are parsed into an
//! ordered, typed stream of migrations; scripts are normalized, checksummed
//! and expanded against a placeholder map; the filesystem is reconciled
//! against the `_schema_history` bookkeeping table; and the driver applies
//! each remaining forward migration transactionally, one history row per
//! attempt. The driver is a state machine: the caller performs each database
//! action it asks for and feeds the outcome back in.
pub mod checksum;
pub mod driver;
pub mod error;
pub mod files;
pub mod history;
pub mod placeholders;
pub mod reconcile;
pub mod schema;
pub mod strutil;
pub mod template;
pub mod version;

pub use crate::driver::MigrationAction;
pub use crate::driver::MigrationEvent;
pub use crate::driver::MigrationRun;
pub use crate::driver::RunPhase;
pub use crate::driver::prepare_sql_files;
pub use crate::driver::start_run;
pub use crate::error::ChecksumMismatchError;
pub use crate::error::Error;
pub use crate::error::MissingVariableTemplateError;
pub use crate::files::SqlFile;
pub use crate::files::SqlFileKind;
pub use crate::files::SqlInnerFile;
pub use crate::files::classify;
pub use crate::files::sort_sql_files;
pub use crate::history::HistoryStoreModel;
pub use crate::history::NewHistoryRow;
pub use crate::history::SchemaHistoryRow;
pub use crate::placeholders::Placeholders;
pub use crate::reconcile::filter_out_and_verify_previous_migrations;
pub use crate::schema::TableColumn;
pub use crate::schema::new_schema_history_columns;
pub use crate::template::fill_template;
pub use crate::version::Version;
pub use crate::version::parse_version;
