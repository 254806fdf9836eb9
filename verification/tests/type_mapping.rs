use sql_diagram::lite_type::LiteType;

#[test]
fn keywords_round_trip() {
    let keywords = vec![
        "TEXT",
        "BLOB",
        "INTEGER",
        "REAL",
        "BOOLEAN",
        "TIMESTAMP",
        "DATE",
        "BIGINT",
        "DOUBLE",
        "VARCHAR",
    ];
    for kw in keywords {
        let ty = LiteType::map(kw).expect("keyword must map");
        assert_eq!(ty.format(), kw);
    }
}

#[test]
fn keyword_mapping_is_exact() {
    assert_eq!(LiteType::map("TEXT").unwrap(), LiteType::Text);
    assert_eq!(LiteType::map("BLOB").unwrap(), LiteType::Blob);
    assert_eq!(LiteType::map("INTEGER").unwrap(), LiteType::Integer);
    assert_eq!(LiteType::map("REAL").unwrap(), LiteType::Real);
    assert_eq!(LiteType::map("BOOLEAN").unwrap(), LiteType::Boolean);
    assert_eq!(LiteType::map("TIMESTAMP").unwrap(), LiteType::Timestamp);
    assert_eq!(LiteType::map("DATE").unwrap(), LiteType::Date);
    assert_eq!(LiteType::map("BIGINT").unwrap(), LiteType::BigInt);
    assert_eq!(LiteType::map("DOUBLE").unwrap(), LiteType::Double);
    assert_eq!(LiteType::map("VARCHAR").unwrap(), LiteType::Varchar(None));
}

#[test]
fn parameterized_varchar_round_trip() {
    assert_eq!(LiteType::map("VARCHAR(1)").unwrap(), LiteType::Varchar(Some(1)));
    assert_eq!(LiteType::map("VARCHAR(20)").unwrap(), LiteType::Varchar(Some(20)));
    assert_eq!(LiteType::map("VARCHAR(12345)").unwrap(), LiteType::Varchar(Some(12345)));
    for n in [1usize, 2, 9, 10, 20, 99, 100, 255, 4096, 12345] {
        let s = format!("VARCHAR({})", n);
        let ty = LiteType::map(&s).expect("parameterized form must map");
        assert_eq!(ty, LiteType::Varchar(Some(n)));
        assert_eq!(ty.format(), s);
    }
}

#[test]
fn unrecognized_types_fail() {
    let bad = vec![
        "",
        "text",
        "Text",
        "FLOAT",
        "INT",
        "VARCHAR()",
        "VARCHAR(",
        "VARCHAR)",
        "VARCHAR(x)",
        "VARCHAR(2x)",
        "VARCHAR(20",
        "VARCHAR 20",
        "VARCHAR(20) ",
        " VARCHAR(20)",
        "VARCHAR(0)",
        "VARCHAR(01)",
        "VARCHAR(-1)",
    ];
    for raw in bad {
        let r = LiteType::map(raw);
        assert!(r.is_err(), "{:?} must not map", raw);
        assert_eq!(r.unwrap_err().raw, raw);
    }
}

#[test]
fn varchar_value_too_large_fails() {
    let s = "VARCHAR(99999999999999999999999999)";
    assert!(LiteType::map(s).is_err());
}

#[test]
fn format_without_length() {
    assert_eq!(LiteType::Varchar(None).format(), "VARCHAR");
    assert_eq!(LiteType::Varchar(Some(7)).format(), "VARCHAR(7)");
}
