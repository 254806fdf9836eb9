use sql_diagram::diagram::DiagramElement;
use sql_diagram::diagram::SeqId;
use sql_diagram::metadata::column_label;
use sql_diagram::metadata::columns_from_rows;
use sql_diagram::metadata::filter_user_tables;
use sql_diagram::metadata::list_tables;
use sql_diagram::metadata::metadata_from_db;
use sql_diagram::metadata::ColumnMetadata;
use sql_diagram::metadata::SchemaError;
use sql_diagram::metadata::TableMetadata;
use sql_diagram::lite_type::LiteType;
use sql_diagram::page::assemble_page;
use sql_diagram::page::build_page;
use sql_diagram::page::Page;

fn table(name: &str, columns: Vec<ColumnMetadata>) -> TableMetadata {
    TableMetadata { name: name.to_string(), columns }
}

fn column(name: &str, ty: LiteType, notnull: bool) -> ColumnMetadata {
    ColumnMetadata { name: name.to_string(), ty, notnull }
}

#[test]
fn field_labels_are_exact() {
    let id = column("id", LiteType::Integer, true);
    let name = column("name", LiteType::Varchar(Some(20)), false);
    assert_eq!(column_label(&id), "id: INTEGER NOT NULL");
    assert_eq!(column_label(&name), "name: VARCHAR(20) ");
}

#[test]
fn identifiers_are_unique_and_sequential() {
    let mut ids = SeqId::new();
    assert_eq!(ids.next_id(), "0");
    assert_eq!(ids.next_id(), "1");
    assert_eq!(ids.next_id(), "2");
    let mut seen = Vec::new();
    for _ in 0..50 {
        let id = ids.next_id();
        assert!(!seen.contains(&id));
        seen.push(id);
    }
}

#[test]
fn finalize_stacks_field_rows() {
    let mut ids = SeqId::new();
    let mut el = DiagramElement::new("person".to_string(), 150, &mut ids);
    el.add_field("id: INTEGER NOT NULL".to_string(), &mut ids);
    el.add_field("name: VARCHAR(20) ".to_string(), &mut ids);
    el.set_position(10, 30);
    let cells = el.finalize();
    assert_eq!(cells.len(), 3);
    let container = &cells[0];
    assert!(container.is_container);
    assert_eq!(container.label, "person");
    assert_eq!(container.parent, "1");
    assert_eq!((container.x, container.y), (10, 30));
    assert_eq!(container.width, 150);
    assert_eq!(container.height, 30 + 2 * 26);
    assert_eq!(cells[1].label, "id: INTEGER NOT NULL");
    assert_eq!(cells[2].label, "name: VARCHAR(20) ");
    for (i, fc) in cells.iter().enumerate().skip(1) {
        assert!(!fc.is_container);
        assert_eq!(fc.parent, container.id);
        assert_eq!(fc.x, 0);
        assert_eq!(fc.y, 30 + (i as u64 - 1) * 26);
        assert_eq!(fc.width, 150);
        assert_eq!(fc.height, 26);
    }
}

#[test]
fn tables_are_laid_out_on_the_grid() {
    let tables = vec![
        table("a", vec![column("x", LiteType::Integer, true)]),
        table("b", vec![column("y", LiteType::Text, false), column("z", LiteType::Date, true)]),
        table("c", vec![]),
    ];
    let mut ids = SeqId::new();
    let page = assemble_page(&tables, 150, "Model".to_string(), &mut ids).unwrap();
    assert_eq!(page.name, "Model");
    // groups: [container a, field x], [container b, field y, field z], [container c]
    assert_eq!(page.cells.len(), 6);
    let offsets = vec![0usize, 2, 5];
    let expected_x = vec![10u64, 10 + 170, 10 + 2 * 170];
    let names = vec!["a", "b", "c"];
    for t in 0..3 {
        let container = &page.cells[offsets[t]];
        assert!(container.is_container);
        assert_eq!(container.label, names[t]);
        assert_eq!(container.x, expected_x[t]);
        assert_eq!(container.y, 30);
        assert_eq!(container.width, 150);
    }
}

#[test]
fn field_cells_reference_their_container() {
    let tables = vec![
        table("a", vec![column("x", LiteType::Integer, true)]),
        table("b", vec![column("y", LiteType::Text, false), column("z", LiteType::Date, true)]),
    ];
    let mut ids = SeqId::new();
    let page = assemble_page(&tables, 120, "p".to_string(), &mut ids).unwrap();
    assert_eq!(page.cells.len(), 5);
    let a = &page.cells[0];
    let b = &page.cells[2];
    assert!(a.is_container && b.is_container);
    assert_ne!(a.id, b.id);
    assert_eq!(page.cells[1].parent, a.id);
    assert_eq!(page.cells[3].parent, b.id);
    assert_eq!(page.cells[4].parent, b.id);
}

#[test]
fn oversized_grid_is_refused() {
    let tables = vec![table("a", vec![])];
    let mut ids = SeqId::new();
    let r = assemble_page(&tables, u64::MAX - 5, "p".to_string(), &mut ids);
    assert!(matches!(r, Err(SchemaError::RangeExceeded)));
}

#[test]
fn internal_prefix_is_filtered() {
    let names = vec![
        "orders".to_string(),
        "sqlite_sequence".to_string(),
        "customers".to_string(),
        "sqlite_stat1".to_string(),
        "sqlite".to_string(),
    ];
    let kept = filter_user_tables(names);
    assert_eq!(kept, vec!["orders".to_string(), "customers".to_string(), "sqlite".to_string()]);
}

#[test]
fn columns_from_rows_maps_types() {
    let rows = vec![
        ("id".to_string(), "INTEGER".to_string(), true),
        ("name".to_string(), "VARCHAR(20)".to_string(), false),
    ];
    let cols = columns_from_rows(rows).unwrap();
    assert_eq!(cols.len(), 2);
    assert_eq!(cols[0].name, "id");
    assert_eq!(cols[0].ty, LiteType::Integer);
    assert!(cols[0].notnull);
    assert_eq!(cols[1].name, "name");
    assert_eq!(cols[1].ty, LiteType::Varchar(Some(20)));
    assert!(!cols[1].notnull);
}

#[test]
fn columns_from_rows_rejects_unknown_type() {
    let rows = vec![
        ("id".to_string(), "INTEGER".to_string(), true),
        ("score".to_string(), "FLOAT".to_string(), false),
    ];
    let r = columns_from_rows(rows);
    match r {
        Err(SchemaError::UnrecognizedType(raw)) => assert_eq!(raw, "FLOAT"),
        _ => panic!("expected the unrecognized-type error"),
    }
}

#[test]
fn list_tables_reads_user_tables_in_order() {
    let conn = rusqlite::Connection::open_in_memory().unwrap();
    conn.execute("CREATE TABLE person (id INTEGER NOT NULL, name VARCHAR(20))", ()).unwrap();
    conn.execute("CREATE TABLE orders (total BIGINT)", ()).unwrap();
    let tables = list_tables(&conn).unwrap();
    assert_eq!(tables, vec!["person".to_string(), "orders".to_string()]);
}

#[test]
fn list_tables_excludes_engine_internal_tables() {
    let conn = rusqlite::Connection::open_in_memory().unwrap();
    conn.execute(
        "CREATE TABLE person (id INTEGER PRIMARY KEY AUTOINCREMENT, name TEXT)",
        (),
    )
    .unwrap();
    conn.execute("INSERT INTO person (name) VALUES ('a')", ()).unwrap();
    // the AUTOINCREMENT bookkeeping table really exists in the file
    let all: i64 = conn
        .query_row(
            "SELECT COUNT(*) FROM sqlite_schema WHERE type = 'table' AND name = 'sqlite_sequence'",
            (),
            |row| row.get(0),
        )
        .unwrap();
    assert_eq!(all, 1);
    let tables = list_tables(&conn).unwrap();
    assert_eq!(tables, vec!["person".to_string()]);
}

#[test]
fn metadata_reads_columns_in_order() {
    let conn = rusqlite::Connection::open_in_memory().unwrap();
    conn.execute(
        "CREATE TABLE person (id INTEGER NOT NULL, name VARCHAR(20), born DATE)",
        (),
    )
    .unwrap();
    let meta = metadata_from_db("person", &conn).unwrap();
    assert_eq!(meta.name, "person");
    assert_eq!(meta.columns.len(), 3);
    assert_eq!(meta.columns[0].name, "id");
    assert_eq!(meta.columns[0].ty, LiteType::Integer);
    assert!(meta.columns[0].notnull);
    assert_eq!(meta.columns[1].name, "name");
    assert_eq!(meta.columns[1].ty, LiteType::Varchar(Some(20)));
    assert!(!meta.columns[1].notnull);
    assert_eq!(meta.columns[2].name, "born");
    assert_eq!(meta.columns[2].ty, LiteType::Date);
}

#[test]
fn metadata_rejects_unknown_column_type() {
    let conn = rusqlite::Connection::open_in_memory().unwrap();
    conn.execute("CREATE TABLE t (score FLOAT)", ()).unwrap();
    let r = metadata_from_db("t", &conn);
    match r {
        Err(SchemaError::UnrecognizedType(raw)) => assert_eq!(raw, "FLOAT"),
        _ => panic!("expected the unrecognized-type error"),
    }
}

#[test]
fn metadata_surfaces_database_errors() {
    let conn = rusqlite::Connection::open_in_memory().unwrap();
    let r = metadata_from_db("a\"b", &conn);
    assert!(matches!(r, Err(SchemaError::Database(_))));
}

#[test]
fn empty_database_gives_valid_empty_page() {
    let conn = rusqlite::Connection::open_in_memory().unwrap();
    let page: Page = build_page(&conn, 150, "Model".to_string()).unwrap();
    assert_eq!(page.name, "Model");
    assert!(page.cells.is_empty());
}

#[test]
fn whole_run_builds_the_page() {
    let conn = rusqlite::Connection::open_in_memory().unwrap();
    conn.execute("CREATE TABLE person (id INTEGER NOT NULL, name VARCHAR(20))", ()).unwrap();
    conn.execute("CREATE TABLE orders (total BIGINT NOT NULL)", ()).unwrap();
    let page = build_page(&conn, 150, "Model".to_string()).unwrap();
    // groups: [person, id, name], [orders, total]
    assert_eq!(page.cells.len(), 5);
    assert!(page.cells[0].is_container);
    assert_eq!(page.cells[0].label, "person");
    assert_eq!(page.cells[0].x, 10);
    assert_eq!(page.cells[1].label, "id: INTEGER NOT NULL");
    assert_eq!(page.cells[1].parent, page.cells[0].id);
    assert_eq!(page.cells[2].label, "name: VARCHAR(20) ");
    assert!(page.cells[3].is_container);
    assert_eq!(page.cells[3].label, "orders");
    assert_eq!(page.cells[3].x, 180);
    assert_eq!(page.cells[4].label, "total: BIGINT NOT NULL");
    assert_eq!(page.cells[4].parent, page.cells[3].id);
}
