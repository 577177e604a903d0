//! The documented schema of the `_schema_history` table: its columns in
//! name order, with their types, nullability, defaults and comments. The
//! comments are part of the interface; external tooling reads them.
use vstd::prelude::*;
use vstd::string::StringExecFns;

verus! {

/// One column of a table, as the information schema describes it.
#[derive(Debug, Clone, PartialEq)]
pub struct TableColumn {
    pub column_name: String,
    pub data_type: String,
    pub is_nullable: bool,
    pub column_default: Option<String>,
    pub comment: Option<String>,
}

/// The mathematical value of a column description.
pub struct TableColumnView {
    pub column_name: Seq<char>,
    pub data_type: Seq<char>,
    pub is_nullable: bool,
    pub column_default: Option<Seq<char>>,
    pub comment: Option<Seq<char>>,
}

impl View for TableColumn {
    type V = TableColumnView;

    open spec fn view(&self) -> TableColumnView {
        TableColumnView {
            column_name: self.column_name@,
            data_type: self.data_type@,
            is_nullable: self.is_nullable,
            column_default: match self.column_default {
                Some(d) => Some(d@),
                None => None,
            },
            comment: match self.comment {
                Some(c) => Some(c@),
                None => None,
            },
        }
    }
}

fn column(
    column_name: &str,
    data_type: &str,
    is_nullable: bool,
    column_default: Option<&str>,
    comment: &str,
) -> (r: TableColumn)
    ensures
        r@.column_name == column_name@,
        r@.data_type == data_type@,
        r@.is_nullable == is_nullable,
        r@.column_default == (match column_default {
            Some(d) => Some::<Seq<char>>(d@),
            None => None::<Seq<char>>,
        }),
        r@.comment == Some(comment@),
{
    TableColumn {
        column_name: String::from_str(column_name),
        data_type: String::from_str(data_type),
        is_nullable,
        column_default: match column_default {
            Some(d) => Some(String::from_str(d)),
            None => None,
        },
        comment: Some(String::from_str(comment)),
    }
}

/// The columns of the `_schema_history` table in column-name order, each
/// with its type, nullability, default and documented comment.
pub fn new_schema_history_columns() -> (r: Vec<TableColumn>)
    ensures
        r@.len() == 10,
        r@[0]@.column_name == "checksum"@ && r@[0]@.data_type == "integer"@ && r@[0]@.is_nullable
            && r@[0]@.column_default is None && r@[0]@.comment == Some(
            "Checksum of the migration script content to detect changes. Null for repeatable if not validated"@,
        ),
        r@[1]@.column_name == "description"@ && r@[1]@.data_type == "character varying"@
            && !r@[1]@.is_nullable && r@[1]@.column_default is None && r@[1]@.comment == Some(
            "Human-readable description of the migration (e.g., Create users table)"@,
        ),
        r@[2]@.column_name == "execution_time"@ && r@[2]@.data_type == "integer"@
            && !r@[2]@.is_nullable && r@[2]@.column_default is None && r@[2]@.comment == Some(
            "Execution time of the migration in milliseconds"@,
        ),
        r@[3]@.column_name == "installed_by"@ && r@[3]@.data_type == "character varying"@
            && !r@[3]@.is_nullable && r@[3]@.column_default is None && r@[3]@.comment == Some(
            "Database user who applied the migration"@,
        ),
        r@[4]@.column_name == "installed_on"@ && r@[4]@.data_type == "timestamp with time zone"@
            && !r@[4]@.is_nullable && r@[4]@.column_default == Some("now()"@) && r@[4]@.comment
            == Some("Timestamp when the migration was applied. Defaults to current time"@),
        r@[5]@.column_name == "installed_rank"@ && r@[5]@.data_type == "integer"@
            && !r@[5]@.is_nullable && r@[5]@.column_default == Some(
            "nextval('_schema_history_installed_rank_seq'::regclass)"@,
        ) && r@[5]@.comment == Some(
            "Execution order rank (primary key); increments with each migration"@,
        ),
        r@[6]@.column_name == "script"@ && r@[6]@.data_type == "character varying"@
            && !r@[6]@.is_nullable && r@[6]@.column_default is None && r@[6]@.comment == Some(
            "Name of the migration script file"@,
        ),
        r@[7]@.column_name == "success"@ && r@[7]@.data_type == "boolean"@ && !r@[7]@.is_nullable
            && r@[7]@.column_default is None && r@[7]@.comment == Some(
            "Whether the migration was successful (true) or failed (false)"@,
        ),
        r@[8]@.column_name == "type"@ && r@[8]@.data_type == "character varying"@
            && !r@[8]@.is_nullable && r@[8]@.column_default is None && r@[8]@.comment == Some(
            "Type of migration (e.g., SQL, JDBC, REPEATABLE, UNDO)"@,
        ),
        r@[9]@.column_name == "version"@ && r@[9]@.data_type == "character varying"@
            && r@[9]@.is_nullable && r@[9]@.column_default is None && r@[9]@.comment == Some(
            "Version of the migration (e.g., 1.0, 2.1.3). Null for repeatable migrations"@,
        ),
{
    let mut r: Vec<TableColumn> = Vec::new();
    r.push(
        column(
            "checksum",
            "integer",
            true,
            None,
            "Checksum of the migration script content to detect changes. Null for repeatable if not validated",
        ),
    );
    r.push(
        column(
            "description",
            "character varying",
            false,
            None,
            "Human-readable description of the migration (e.g., Create users table)",
        ),
    );
    r.push(
        column(
            "execution_time",
            "integer",
            false,
            None,
            "Execution time of the migration in milliseconds",
        ),
    );
    r.push(
        column(
            "installed_by",
            "character varying",
            false,
            None,
            "Database user who applied the migration",
        ),
    );
    r.push(
        column(
            "installed_on",
            "timestamp with time zone",
            false,
            Some("now()"),
            "Timestamp when the migration was applied. Defaults to current time",
        ),
    );
    r.push(
        column(
            "installed_rank",
            "integer",
            false,
            Some("nextval('_schema_history_installed_rank_seq'::regclass)"),
            "Execution order rank (primary key); increments with each migration",
        ),
    );
    r.push(
        column(
            "script",
            "character varying",
            false,
            None,
            "Name of the migration script file",
        ),
    );
    r.push(
        column(
            "success",
            "boolean",
            false,
            None,
            "Whether the migration was successful (true) or failed (false)",
        ),
    );
    r.push(
        column(
            "type",
            "character varying",
            false,
            None,
            "Type of migration (e.g., SQL, JDBC, REPEATABLE, UNDO)",
        ),
    );
    r.push(
        column(
            "version",
            "character varying",
            true,
            None,
            "Version of the migration (e.g., 1.0, 2.1.3). Null for repeatable migrations",
        ),
    );
    r
}

} // verus!
