use chain_builder::{ChainBuilder, Client, CompileError, Operator, Select, Value};

/// Bind/placeholder parity on a statement exercising every placeholder form.
#[test]
fn test_bind_placeholder_parity() {
    let mut builder = ChainBuilder::new(Client::Mysql);
    builder
        .db("shop")
        .table("orders")
        .select(Select::Columns(vec!["*".into()]));
    {
        let qb = builder.query();
        qb.where_eq("state", Value::Str("open".to_string()));
        qb.where_in("kind", vec![Value::Int(1), Value::Int(2), Value::Int(3)]);
        qb.where_between("total", (Value::Int(5), Value::Int(50)));
        qb.where_null("deleted_at");
        qb.where_raw("note LIKE ?", Some(vec![Value::Str("%x%".to_string())]));
        qb.join("users").on_val("users.role", "=", Value::Str("admin".to_string()));
        qb.having_in("kind", vec![Value::Int(1)]);
        qb.limit(7).offset(3);
    }
    let (sql, binds) = builder.to_sql().unwrap();
    let marks = sql.chars().filter(|c| *c == '?').count();
    assert_eq!(marks, binds.len());
}

/// Sorted-column determinism: the same payload mapping, inserted in two
/// different orders, compiles byte-identically.
#[test]
fn test_sorted_column_determinism() {
    let mut b1 = ChainBuilder::new(Client::Mysql);
    b1.table("users").insert(Value::Object(vec![
        ("b".to_string(), Value::Int(2)),
        ("a".to_string(), Value::Int(1)),
        ("c".to_string(), Value::Int(3)),
    ]));
    let mut b2 = ChainBuilder::new(Client::Mysql);
    b2.table("users").insert(Value::Object(vec![
        ("c".to_string(), Value::Int(3)),
        ("a".to_string(), Value::Int(1)),
        ("b".to_string(), Value::Int(2)),
    ]));
    let r1 = b1.to_sql().unwrap();
    let r2 = b2.to_sql().unwrap();
    assert_eq!(r1.0, r2.0);
    assert_eq!(r1.1, r2.1);
    assert_eq!(r1.0, "INSERT INTO users (a, b, c) VALUES (?, ?, ?)");
    assert_eq!(r1.1, vec![Value::Int(1), Value::Int(2), Value::Int(3)]);
}

/// The AND/OR tie-break from a leaf followed by an OR group of one leaf.
#[test]
fn test_and_or_tiebreak() {
    let mut builder = ChainBuilder::new(Client::Mysql);
    builder.table("users").select(Select::Columns(vec!["*".into()]));
    {
        let qb = builder.query();
        qb.where_eq("status", Value::Str("active".to_string()));
        qb.or().where_eq("status", Value::Str("pending".to_string()));
    }
    let (sql, binds) = builder.to_sql().unwrap();
    assert_eq!(sql, "SELECT * FROM users WHERE status = ? OR status = ?");
    assert_eq!(
        binds,
        vec![
            Value::Str("active".to_string()),
            Value::Str("pending".to_string())
        ]
    );
}

/// Between arity: two bounds compile; any other array length is rejected.
#[test]
fn test_between_arity() {
    let mut ok = ChainBuilder::new(Client::Mysql);
    ok.table("users").select(Select::Columns(vec!["*".into()]));
    ok.query()
        .where_between("age", (Value::Int(18), Value::Int(65)));
    let (sql, binds) = ok.to_sql().unwrap();
    assert_eq!(sql, "SELECT * FROM users WHERE age BETWEEN ? AND ?");
    assert_eq!(binds, vec![Value::Int(18), Value::Int(65)]);

    let mut bad = ChainBuilder::new(Client::Mysql);
    bad.table("users").select(Select::Columns(vec!["*".into()]));
    bad.query().where_clause(
        "age",
        Operator::Between,
        Value::Array(vec![Value::Int(18), Value::Int(40), Value::Int(65)]),
    );
    assert_eq!(bad.to_sql().unwrap_err(), CompileError::BetweenArity);

    let mut scalar = ChainBuilder::new(Client::Mysql);
    scalar.table("users").select(Select::Columns(vec!["*".into()]));
    scalar
        .query()
        .where_clause("age", Operator::NotBetween, Value::Int(18));
    assert_eq!(scalar.to_sql().unwrap_err(), CompileError::BetweenArity);
}

/// Dialect LIMIT/OFFSET divergence on the same statement content.
#[test]
fn test_dialect_limit_offset_divergence() {
    let mut mysql = ChainBuilder::new(Client::Mysql);
    mysql.table("users").select(Select::Columns(vec!["*".into()]));
    {
        let qb = mysql.query();
        qb.limit(10);
        qb.offset(20);
    }
    let (m_sql, m_binds) = mysql.to_sql().unwrap();
    assert_eq!(m_sql, "SELECT * FROM users LIMIT ? OFFSET ?");
    assert_eq!(m_binds, vec![Value::UInt(10), Value::UInt(20)]);

    let mut sqlite = ChainBuilder::new(Client::Sqlite);
    sqlite.table("users").select(Select::Columns(vec!["*".into()]));
    {
        let qb = sqlite.query();
        qb.limit(10);
        qb.offset(20);
    }
    let (s_sql, s_binds) = sqlite.to_sql().unwrap();
    assert_eq!(s_sql, "SELECT * FROM users LIMIT 20, 10");
    assert_eq!(s_binds, Vec::<Value>::new());
}

/// Multi-row insert column consistency under differing key insertion order.
#[test]
fn test_multi_row_column_consistency() {
    let mut builder = ChainBuilder::new(Client::Mysql);
    builder.table("users").insert_many(vec![
        Value::Object(vec![
            ("name".to_string(), Value::Str("John".to_string())),
            ("age".to_string(), Value::Int(30)),
        ]),
        Value::Object(vec![
            ("age".to_string(), Value::Int(25)),
            ("name".to_string(), Value::Str("Jane".to_string())),
        ]),
    ]);
    let (sql, binds) = builder.to_sql().unwrap();
    assert_eq!(sql, "INSERT INTO users (age, name) VALUES (?, ?), (?, ?)");
    assert_eq!(
        binds,
        vec![
            Value::Int(30),
            Value::Str("John".to_string()),
            Value::Int(25),
            Value::Str("Jane".to_string())
        ]
    );
}

/// Round-trip idempotence: compiling the same unmodified statement twice
/// yields identical results.
#[test]
fn test_round_trip_idempotence() {
    let mut builder = ChainBuilder::new(Client::Mysql);
    builder
        .db("mydb")
        .table("users")
        .select(Select::Columns(vec!["id".into()]));
    {
        let qb = builder.query();
        qb.where_eq("name", Value::Str("John".to_string()));
        qb.limit(3);
    }
    let first = builder.to_sql().unwrap();
    let second = builder.to_sql().unwrap();
    assert_eq!(first.0, second.0);
    assert_eq!(first.1, second.1);
}

/// Every compile error is reachable from an input that provokes it.
#[test]
fn test_error_variants() {
    let postgres = ChainBuilder::new(Client::Postgres);
    assert_eq!(
        postgres.to_sql().unwrap_err(),
        CompileError::UnsupportedClient
    );

    let mut not_object = ChainBuilder::new(Client::Mysql);
    not_object
        .table("users")
        .insert(Value::Str("oops".to_string()));
    assert_eq!(
        not_object.to_sql().unwrap_err(),
        CompileError::PayloadNotObject
    );

    let mut not_array = ChainBuilder::new(Client::Mysql);
    not_array.table("users").insert_many(vec![]);
    not_array.insert_update = Value::Str("oops".to_string());
    assert_eq!(
        not_array.to_sql().unwrap_err(),
        CompileError::PayloadNotArray
    );

    let mut no_rows = ChainBuilder::new(Client::Mysql);
    no_rows.table("users").insert_many(vec![]);
    assert_eq!(no_rows.to_sql().unwrap_err(), CompileError::NoRows);

    let mut row_not_object = ChainBuilder::new(Client::Mysql);
    row_not_object.table("users").insert_many(vec![Value::Int(1)]);
    assert_eq!(
        row_not_object.to_sql().unwrap_err(),
        CompileError::RowNotObject
    );

    let mut mismatch = ChainBuilder::new(Client::Mysql);
    mismatch.table("users").insert_many(vec![
        Value::Object(vec![("a".to_string(), Value::Int(1))]),
        Value::Object(vec![("b".to_string(), Value::Int(2))]),
    ]);
    assert_eq!(
        mismatch.to_sql().unwrap_err(),
        CompileError::RowKeyMismatch
    );

    let mut duplicate = ChainBuilder::new(Client::Mysql);
    duplicate.table("users").insert(Value::Object(vec![
        ("a".to_string(), Value::Int(1)),
        ("a".to_string(), Value::Int(2)),
    ]));
    assert_eq!(
        duplicate.to_sql().unwrap_err(),
        CompileError::DuplicateColumn
    );
}

/// Increment and decrement render as raw arithmetic, without a bind value.
#[test]
fn test_increment_decrement() {
    let mut inc = ChainBuilder::new(Client::Mysql);
    inc.table("users").increment("points", 5);
    inc.query().where_eq("id", Value::Int(7));
    let (sql, binds) = inc.to_sql().unwrap();
    assert_eq!(sql, "UPDATE users SET points = points + 5 WHERE id = ?");
    assert_eq!(binds, vec![Value::Int(7)]);

    let mut dec = ChainBuilder::new(Client::Sqlite);
    dec.table("users").decrement("points", 12);
    let (sql2, binds2) = dec.to_sql().unwrap();
    assert_eq!(sql2, "UPDATE users SET points = points - 12");
    assert_eq!(binds2, Vec::<Value>::new());
}

/// A string payload value holding ` + ` is spliced verbatim; other strings
/// are bound.
#[test]
fn test_update_expression_heuristic() {
    let mut builder = ChainBuilder::new(Client::Mysql);
    builder.table("users").update(Value::Object(vec![
        ("count".to_string(), Value::Str("count + 1".to_string())),
        ("name".to_string(), Value::Str("Ada".to_string())),
    ]));
    let (sql, binds) = builder.to_sql().unwrap();
    assert_eq!(sql, "UPDATE users SET count = count + 1, name = ?");
    assert_eq!(binds, vec![Value::Str("Ada".to_string())]);
}

/// NOT EXISTS splices the compiled nested statement and keeps its bind
/// values at the right position.
#[test]
fn test_where_not_exists() {
    let mut sub = ChainBuilder::new(Client::Mysql);
    sub.table("bans").select(Select::Columns(vec!["id".into()]));
    sub.query().where_eq("kind", Value::Str("hard".to_string()));

    let mut builder = ChainBuilder::new(Client::Mysql);
    builder.table("users").select(Select::Columns(vec!["*".into()]));
    {
        let qb = builder.query();
        qb.where_not_exists(&sub).unwrap();
        qb.where_eq("active", Value::Bool(true));
    }
    let (sql, binds) = builder.to_sql().unwrap();
    assert_eq!(
        sql,
        "SELECT * FROM users WHERE NOT EXISTS (SELECT id FROM bans WHERE kind = ?) AND active = ?"
    );
    assert_eq!(
        binds,
        vec![Value::Str("hard".to_string()), Value::Bool(true)]
    );
}

/// The remaining comparison operators map to their SQL tokens.
#[test]
fn test_operator_tokens() {
    let mut builder = ChainBuilder::new(Client::Mysql);
    builder.table("t").select(Select::Columns(vec!["*".into()]));
    {
        let qb = builder.query();
        qb.where_gt("a", Value::Int(1));
        qb.where_gte("b", Value::Int(2));
        qb.where_lt("c", Value::Int(3));
        qb.where_lte("d", Value::Int(4));
        qb.where_gtlt("e", Value::Int(5));
        qb.where_ne("f", Value::Int(6));
        qb.where_not_null("g");
        qb.where_not_in("h", vec![Value::Int(7)]);
        qb.where_not_like("i", Value::Str("%x".to_string()));
        qb.where_not_between("j", (Value::Int(8), Value::Int(9)));
    }
    let (sql, binds) = builder.to_sql().unwrap();
    assert_eq!(
        sql,
        "SELECT * FROM t WHERE a > ? AND b >= ? AND c < ? AND d <= ? AND e <> ? AND f != ? AND g IS NOT NULL AND h NOT IN (?) AND i NOT LIKE ? AND j NOT BETWEEN ? AND ?"
    );
    assert_eq!(binds.len(), 10);
}

/// The operator table itself.
#[test]
fn test_operator_to_sql() {
    assert_eq!(chain_builder::operator_to_sql(&Operator::Equal), ("=", true));
    assert_eq!(
        chain_builder::operator_to_sql(&Operator::IsNull),
        ("IS NULL", false)
    );
    assert_eq!(
        chain_builder::operator_to_sql(&Operator::NotBetween),
        ("NOT BETWEEN", true)
    );
    assert_eq!(
        chain_builder::operator_to_sql(&Operator::Exists),
        ("EXISTS", false)
    );
}

/// A SQLite limit without an offset, and an offset without a limit.
#[test]
fn test_sqlite_limit_forms() {
    let mut only_limit = ChainBuilder::new(Client::Sqlite);
    only_limit.table("t").select(Select::Columns(vec!["*".into()]));
    only_limit.query().limit(4);
    assert_eq!(only_limit.to_sql().unwrap().0, "SELECT * FROM t LIMIT 4");

    let mut only_offset = ChainBuilder::new(Client::Sqlite);
    only_offset.table("t").select(Select::Columns(vec!["*".into()]));
    only_offset.query().offset(6);
    assert_eq!(
        only_offset.to_sql().unwrap().0,
        "SELECT * FROM t LIMIT 6, -1"
    );
}

/// The join tie-break matches the condition tree's: a condition following
/// an OR group carries no connective.
#[test]
fn test_join_tiebreak_after_or_group() {
    let mut builder = ChainBuilder::new(Client::Mysql);
    builder.table("users").select(Select::Columns(vec!["*".into()]));
    {
        let join = builder.query().join("details");
        join.on("details.id", "=", "users.d_id");
        join.or().on("details.a", "=", "users.a");
        join.on("details.b", "=", "users.b");
    }
    let (sql, binds) = builder.to_sql().unwrap();
    assert_eq!(
        sql,
        "SELECT * FROM users JOIN details ON details.id = users.d_id OR (details.a = users.a)details.b = users.b"
    );
    assert_eq!(binds, Vec::<Value>::new());
}

/// A SQLite WITH clause embeds the full compilation of the nested
/// statement, its WHERE and clauses included, with the nested binds first.
#[test]
fn test_sqlite_nested_full_compile() {
    let mut nested = ChainBuilder::new(Client::Sqlite);
    nested.table("users").select(Select::Columns(vec!["*".into()]));
    {
        let qb = nested.query();
        qb.where_eq("status", Value::Str("active".to_string()));
        qb.limit(5);
    }

    let mut builder = ChainBuilder::new(Client::Sqlite);
    builder
        .with("recent", nested)
        .table("recent")
        .select(Select::Columns(vec!["*".into()]));
    let (sql, binds) = builder.to_sql().unwrap();
    assert_eq!(
        sql,
        "WITH recent AS (SELECT * FROM users WHERE status = ? LIMIT 5) SELECT * FROM recent"
    );
    assert_eq!(binds, vec![Value::Str("active".to_string())]);
}
