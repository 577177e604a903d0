use pgmt::new_schema_history_columns;
use pgmt::HistoryStoreModel;
use pgmt::NewHistoryRow;
use pgmt::TableColumn;

fn payload(script: &str) -> NewHistoryRow {
    NewHistoryRow {
        version: Some("1.0.0".to_string()),
        description: "m".to_string(),
        kind: "V".to_string(),
        script: script.to_string(),
        checksum: 7,
        installed_by: "installed_by".to_string(),
        installed_on_micros: 0,
        execution_time: 0,
        success: true,
    }
}

#[test]
fn ranks_increase_with_each_commit() {
    let mut store = HistoryStoreModel::new();
    store.begin();
    store.append(payload("V1.0.0__a.sql"));
    store.commit();
    store.begin();
    store.append(payload("V1.1.0__b.sql"));
    store.commit();
    let rows = store.read_all();
    assert_eq!(rows.len(), 2);
    assert_eq!(rows[0].installed_rank, 1);
    assert_eq!(rows[1].installed_rank, 2);
    assert!(rows[0].installed_rank < rows[1].installed_rank);
}

#[test]
fn rollback_discards_the_pending_row() {
    let mut store = HistoryStoreModel::new();
    store.begin();
    store.append(payload("V1.0.0__a.sql"));
    store.rollback();
    assert_eq!(store.read_all().len(), 0);
    // The rank consumed by the rolled-back transaction is not reused,
    // like the serial column the model stands for.
    store.begin();
    store.append(payload("V1.0.0__a.sql"));
    store.commit();
    assert_eq!(store.read_all()[0].installed_rank, 2);
}

#[test]
fn schema_history_columns_are_documented() {
    let cols = new_schema_history_columns();
    assert_eq!(cols.len(), 10);
    assert_eq!(
        cols[0],
        TableColumn {
            column_name: "checksum".to_string(),
            data_type: "integer".to_string(),
            is_nullable: true,
            column_default: None,
            comment: Some(
                "Checksum of the migration script content to detect changes. Null for repeatable if not validated"
                    .to_string()
            ),
        }
    );
    assert_eq!(
        cols[5],
        TableColumn {
            column_name: "installed_rank".to_string(),
            data_type: "integer".to_string(),
            is_nullable: false,
            column_default: Some(
                "nextval('_schema_history_installed_rank_seq'::regclass)".to_string()
            ),
            comment: Some(
                "Execution order rank (primary key); increments with each migration".to_string()
            ),
        }
    );
    let names: Vec<&str> = cols.iter().map(|c| c.column_name.as_str()).collect();
    assert_eq!(
        names,
        vec![
            "checksum",
            "description",
            "execution_time",
            "installed_by",
            "installed_on",
            "installed_rank",
            "script",
            "success",
            "type",
            "version",
        ]
    );
    assert!(cols[9].is_nullable);
    assert_eq!(cols[4].column_default.as_deref(), Some("now()"));
}
