use chain_builder::{ChainBuilder, Client, Select, Value};

#[test]
fn test_sqlite_basic_select() {
    let mut builder = ChainBuilder::new(Client::Sqlite);
    builder
        .select(Select::Columns(vec!["*".into()]))
        .table("users");
    builder
        .query()
        .where_eq("status", Value::Str("active".to_string()));

    let (sql, binds) = builder.to_sql().unwrap();
    println!("SQLite SELECT SQL: {}", sql);
    println!("Binds: {:?}", binds);

    assert!(sql.contains("SELECT * FROM users"));
    assert!(sql.contains("WHERE status = ?"));
    assert_eq!(binds.len(), 1);
}

#[test]
fn test_sqlite_chain_builder() {
    let mut builder = ChainBuilder::new(Client::Sqlite);
    builder
        .db("mydb") // For dynamic db
        .select(Select::Columns(vec!["*".into()]))
        .table("users");
    {
        let qb = builder.query();
        qb.where_eq("name", Value::Str("John".to_string()));
        qb.where_eq("city", Value::Str("New York".to_string()));
        qb.where_in(
            "department",
            vec![Value::Str("IT".to_string()), Value::Str("HR".to_string())],
        );

        let sub = qb.where_subquery();
        sub.where_eq("status", Value::Str("active".to_string()));
        let or_sub = sub.or();
        or_sub.where_eq("status", Value::Str("pending".to_string()));
        or_sub.where_between(
            "registered_at",
            (
                Value::Str("2024-01-01".to_string()),
                Value::Str("2024-01-31".to_string()),
            ),
        );

        qb.where_raw(
            "(latitude BETWEEN ? AND ?) AND (longitude BETWEEN ? AND ?)",
            Some(vec![
                Value::Float(40.0f64.to_bits()),
                Value::Float(41.0f64.to_bits()),
                Value::Float(70.0f64.to_bits()),
                Value::Float(71.0f64.to_bits()),
            ]),
        );
    }

    builder.add_raw("LIMIT ?", Some(vec![Value::Int(10)]));

    let sql = builder.to_sql().unwrap();
    assert_eq!(
        sql.0,
        "SELECT * FROM mydb.users WHERE name = ? AND city = ? AND department IN (?,?) AND (status = ? OR (status = ? AND registered_at BETWEEN ? AND ?)) AND (latitude BETWEEN ? AND ?) AND (longitude BETWEEN ? AND ?) LIMIT ?"
    );
    assert_eq!(
        sql.1,
        vec![
            Value::Str("John".to_string()),
            Value::Str("New York".to_string()),
            Value::Str("IT".to_string()),
            Value::Str("HR".to_string()),
            Value::Str("active".to_string()),
            Value::Str("pending".to_string()),
            Value::Str("2024-01-01".to_string()),
            Value::Str("2024-01-31".to_string()),
            Value::Float(40.0f64.to_bits()),
            Value::Float(41.0f64.to_bits()),
            Value::Float(70.0f64.to_bits()),
            Value::Float(71.0f64.to_bits()),
            Value::Int(10),
        ]
    );
}

#[test]
fn test_sqlite_join() {
    let mut builder = ChainBuilder::new(Client::Sqlite);
    builder
        .db("mydb") // For dynamic db
        .select(Select::Columns(vec!["*".into()]))
        .table("users");
    {
        let qb = builder.query();
        {
            let join = qb.join("details");
            join.on("details.id", "=", "users.d_id");
            join.on("details.id_w", "=", "users.d_id_w");
            join.or().on("details.id_s", "=", "users.d_id_s").on(
                "details.id_w",
                "=",
                "users.d_id_w",
            );
        }
        qb.where_eq("name", Value::Str("John".to_string()));
    }
    builder.select(Select::Raw(
        "(SELECT COUNT(*) FROM `mydb`.`users` WHERE users.id = ?) AS count".into(),
        Some(vec![Value::Int(1)]),
    ));
    let sql = builder.to_sql().unwrap();
    let true_sql = "SELECT *, (SELECT COUNT(*) FROM `mydb`.`users` WHERE users.id = ?) AS count FROM mydb.users JOIN mydb.details ON details.id = users.d_id AND details.id_w = users.d_id_w OR (details.id_s = users.d_id_s AND details.id_w = users.d_id_w) WHERE name = ?";
    assert_eq!(sql.0, true_sql);
    assert_eq!(sql.1, vec![Value::Int(1), Value::Str("John".to_string())]);
}

#[test]
fn test_sqlite_tow_join() {
    let mut builder = ChainBuilder::new(Client::Sqlite);
    builder
        .db("mydb") // For dynamic db
        .select(Select::Columns(vec!["*".into()]))
        .table("users");
    {
        let qb = builder.query();
        qb.join("details").on("details.id", "=", "users.d_id");
        qb.join("profiles").on("profiles.id", "=", "users.p_id");
        qb.where_eq("name", Value::Str("John".to_string()));
    }
    let sql = builder.to_sql().unwrap();
    let true_sql = "SELECT * FROM mydb.users JOIN mydb.details ON details.id = users.d_id JOIN mydb.profiles ON profiles.id = users.p_id WHERE name = ?";
    assert_eq!(sql.0, true_sql);
    assert_eq!(sql.1, vec![Value::Str("John".to_string())]);
}

#[test]
fn test_sqlite_join_raw() {
    let mut builder = ChainBuilder::new(Client::Sqlite);
    builder
        .db("mydb") // For dynamic db
        .select(Select::Columns(vec!["*".into()]))
        .table("users");
    {
        let qb = builder.query();
        qb.raw_join(
            "JOIN details ON details.id = users.d_id AND details.status = ?",
            Some(vec![Value::Str("active".to_string())]),
        );
        qb.where_eq("name", Value::Str("John".to_string()));
    }
    let sql = builder.to_sql().unwrap();
    let true_sql = "SELECT * FROM mydb.users JOIN details ON details.id = users.d_id AND details.status = ? WHERE name = ?";
    assert_eq!(sql.0, true_sql);
    assert_eq!(
        sql.1,
        vec![
            Value::Str("active".to_string()),
            Value::Str("John".to_string()),
        ]
    );
}

#[test]
fn test_sqlite_insert() {
    let mut builder = ChainBuilder::new(Client::Sqlite);
    builder.table("users").insert(Value::Object(vec![
        ("name".to_string(), Value::Str("John Doe".to_string())),
        (
            "email".to_string(),
            Value::Str("john@example.com".to_string()),
        ),
        ("age".to_string(), Value::Int(30)),
    ]));

    let (sql, binds) = builder.to_sql().unwrap();
    println!("SQLite INSERT SQL: {}", sql);
    println!("Binds: {:?}", binds);

    assert!(sql.contains("INSERT INTO users"));
    assert!(sql.contains("VALUES (?, ?, ?)"));
    assert_eq!(binds.len(), 3);
}

#[test]
fn test_sqlite_insert_many() {
    let mut builder = ChainBuilder::new(Client::Sqlite);
    builder.table("users").insert_many(vec![
        Value::Object(vec![
            ("name".to_string(), Value::Str("John Doe".to_string())),
            (
                "email".to_string(),
                Value::Str("john@example.com".to_string()),
            ),
            ("age".to_string(), Value::Int(30)),
        ]),
        Value::Object(vec![
            ("name".to_string(), Value::Str("Jane Smith".to_string())),
            (
                "email".to_string(),
                Value::Str("jane@example.com".to_string()),
            ),
            ("age".to_string(), Value::Int(25)),
        ]),
    ]);

    let (sql, binds) = builder.to_sql().unwrap();
    println!("SQLite INSERT MANY SQL: {}", sql);
    println!("Binds: {:?}", binds);

    assert!(sql.contains("INSERT INTO users"));
    assert!(sql.contains("VALUES (?, ?, ?), (?, ?, ?)"));
    assert_eq!(binds.len(), 6);
}

#[test]
fn test_sqlite_update() {
    let mut builder = ChainBuilder::new(Client::Sqlite);
    builder.table("users").update(Value::Object(vec![
        ("status".to_string(), Value::Str("inactive".to_string())),
        (
            "updated_at".to_string(),
            Value::Str("2024-01-15".to_string()),
        ),
    ]));
    builder.query().where_eq("id", Value::Int(1));

    let (sql, binds) = builder.to_sql().unwrap();
    println!("SQLite UPDATE SQL: {}", sql);
    println!("Binds: {:?}", binds);

    assert!(sql.contains("UPDATE users SET"));
    assert!(sql.contains("status = ?"));
    assert!(sql.contains("updated_at = ?"));
    assert!(sql.contains("WHERE id = ?"));
    assert_eq!(binds.len(), 3);
}

#[test]
fn test_sqlite_delete() {
    let mut builder = ChainBuilder::new(Client::Sqlite);
    builder.table("users").delete();
    builder
        .query()
        .where_eq("status", Value::Str("deleted".to_string()));

    let (sql, binds) = builder.to_sql().unwrap();
    println!("SQLite DELETE SQL: {}", sql);
    println!("Binds: {:?}", binds);

    assert!(sql.contains("DELETE FROM users"));
    assert!(sql.contains("WHERE status = ?"));
    assert_eq!(binds.len(), 1);
}

#[test]
fn test_sqlite_with() {
    let mut slct = ChainBuilder::new(Client::Sqlite);
    slct.db("mydb") // For dynamic db
        .table("address")
        .select(Select::Columns(vec!["*".into()]));
    slct.query().where_eq("city", Value::Str("New York".to_string()));

    let mut active_users = ChainBuilder::new(Client::Sqlite);
    active_users
        .db("mydb") // For dynamic db
        .table("users")
        .select(Select::Columns(vec!["*".into()]))
        .select(Select::Builder("address".to_string(), slct));
    active_users
        .query()
        .where_eq("status", Value::Str("active".to_string()));

    let mut builder = ChainBuilder::new(Client::Sqlite);
    builder
        .with("active_users", active_users)
        .select(Select::Columns(vec!["*".into()]))
        .table("active_users");
    builder.query().where_eq("name", Value::Str("John".to_string()));
    let sql = builder.to_sql().unwrap();
    let true_sql = "WITH active_users AS (SELECT *, (SELECT * FROM mydb.address WHERE city = ?) AS address FROM mydb.users WHERE status = ?) SELECT * FROM active_users WHERE name = ?";
    assert_eq!(sql.0, true_sql);
    assert_eq!(
        sql.1,
        vec![
            Value::Str("New York".to_string()),
            Value::Str("active".to_string()),
            Value::Str("John".to_string())
        ]
    );
}

#[test]
fn test_sqlite_with_recursive() {
    let mut slct = ChainBuilder::new(Client::Sqlite);
    slct.db("mydb") // For dynamic db
        .table("address")
        .select(Select::Columns(vec!["*".into()]));
    slct.query().where_eq("city", Value::Str("New York".to_string()));

    let mut active_users = ChainBuilder::new(Client::Sqlite);
    active_users
        .db("mydb") // For dynamic db
        .table("users")
        .select(Select::Columns(vec!["*".into()]))
        .select(Select::Builder("address".to_string(), slct));
    active_users
        .query()
        .where_eq("status", Value::Str("active".to_string()));

    let mut builder = ChainBuilder::new(Client::Sqlite);
    builder
        .with_recursive("active_users", active_users)
        .select(Select::Columns(vec!["*".into()]))
        .table("active_users");
    builder.query().where_eq("name", Value::Str("John".to_string()));
    let sql = builder.to_sql().unwrap();
    let true_sql = "WITH RECURSIVE active_users AS (SELECT *, (SELECT * FROM mydb.address WHERE city = ?) AS address FROM mydb.users WHERE status = ?) SELECT * FROM active_users WHERE name = ?";
    assert_eq!(sql.0, true_sql);
    assert_eq!(
        sql.1,
        vec![
            Value::Str("New York".to_string()),
            Value::Str("active".to_string()),
            Value::Str("John".to_string())
        ]
    );
}

#[test]
fn test_sqlite_union() {
    let mut pending_users = ChainBuilder::new(Client::Sqlite);
    pending_users
        .db("mydb") // For dynamic db
        .table("users")
        .select(Select::Columns(vec!["*".into()]));
    pending_users
        .query()
        .where_eq("status", Value::Str("pending".to_string()));

    let mut builder = ChainBuilder::new(Client::Sqlite);
    builder
        .union(pending_users)
        .db("mydb") // For dynamic db
        .select(Select::Columns(vec!["*".into()]))
        .table("users");
    builder.query().where_eq("name", Value::Str("John".to_string()));
    let sql = builder.to_sql().unwrap();
    let true_sql =
        "SELECT * FROM mydb.users WHERE name = ? UNION SELECT * FROM mydb.users WHERE status = ?";
    assert_eq!(sql.0, true_sql);
    assert_eq!(
        sql.1,
        vec![
            Value::Str("John".to_string()),
            Value::Str("pending".to_string())
        ]
    );
}

#[test]
fn test_sqlite_union_all() {
    let mut pending_users = ChainBuilder::new(Client::Sqlite);
    pending_users
        .db("mydb") // For dynamic db
        .table("users")
        .select(Select::Columns(vec!["*".into()]));
    pending_users
        .query()
        .where_eq("status", Value::Str("pending".to_string()));

    let mut builder = ChainBuilder::new(Client::Sqlite);
    builder
        .union_all(pending_users)
        .db("mydb") // For dynamic db
        .select(Select::Columns(vec!["*".into()]))
        .table("users");
    builder.query().where_eq("name", Value::Str("John".to_string()));
    let sql = builder.to_sql().unwrap();
    let true_sql =
        "SELECT * FROM mydb.users WHERE name = ? UNION ALL SELECT * FROM mydb.users WHERE status = ?";
    assert_eq!(sql.0, true_sql);
    assert_eq!(
        sql.1,
        vec![
            Value::Str("John".to_string()),
            Value::Str("pending".to_string())
        ]
    );
}

#[test]
fn test_sqlite_limit_offset() {
    let mut builder = ChainBuilder::new(Client::Sqlite);
    builder
        .db("mydb") // For dynamic db
        .select(Select::Columns(vec!["*".into()]))
        .table("users");
    {
        let qb = builder.query();
        qb.limit(10);
        qb.offset(20);
    }
    let sql = builder.to_sql().unwrap();
    let true_sql = "SELECT * FROM mydb.users LIMIT 20, 10";
    assert_eq!(sql.0, true_sql);
    assert_eq!(sql.1, Vec::<Value>::new());
}

#[test]
fn test_sqlite_group_by() {
    let mut builder = ChainBuilder::new(Client::Sqlite);
    builder
        .db("mydb") // For dynamic db
        .select(Select::Columns(vec!["*".into()]))
        .table("users");
    builder
        .query()
        .group_by(vec!["department".to_string(), "status".to_string()]);
    let sql = builder.to_sql().unwrap();
    let true_sql = "SELECT * FROM mydb.users GROUP BY department, status";
    assert_eq!(sql.0, true_sql);
    assert_eq!(sql.1, Vec::<Value>::new());
}

#[test]
fn test_sqlite_group_by_raw() {
    let mut builder = ChainBuilder::new(Client::Sqlite);
    builder
        .db("mydb") // For dynamic db
        .select(Select::Columns(vec!["*".into()]))
        .table("users");
    builder.query().group_by_raw("department, status", None);
    let sql = builder.to_sql().unwrap();
    let true_sql = "SELECT * FROM mydb.users GROUP BY department, status";
    assert_eq!(sql.0, true_sql);
    assert_eq!(sql.1, Vec::<Value>::new());
}

#[test]
fn test_sqlite_order_by() {
    let mut builder = ChainBuilder::new(Client::Sqlite);
    builder
        .db("mydb") // For dynamic db
        .select(Select::Columns(vec!["*".into()]))
        .table("users");
    {
        let qb = builder.query();
        qb.order_by("name", "ASC");
        qb.order_by("age", "DESC");
    }
    let sql = builder.to_sql().unwrap();
    let true_sql = "SELECT * FROM mydb.users ORDER BY name ASC, age DESC";
    assert_eq!(sql.0, true_sql);
    assert_eq!(sql.1, Vec::<Value>::new());
}

#[test]
fn test_sqlite_order_by_raw() {
    let mut builder = ChainBuilder::new(Client::Sqlite);
    builder
        .db("mydb") // For dynamic db
        .select(Select::Columns(vec!["*".into()]))
        .table("users");
    builder.query().order_by_raw("name ASC, age DESC", None);
    let sql = builder.to_sql().unwrap();
    let true_sql = "SELECT * FROM mydb.users ORDER BY name ASC, age DESC";
    assert_eq!(sql.0, true_sql);
    assert_eq!(sql.1, Vec::<Value>::new());
}

#[test]
fn test_sqlite_table_raw() {
    let mut builder = ChainBuilder::new(Client::Sqlite);
    builder
        .db("mydb") // For dynamic db
        .select(Select::Columns(vec!["*".into()]))
        .table_raw(
            "(SELECT * FROM users WHERE status = ?) as active_users",
            Some(vec![Value::Str("active".to_string())]),
        );
    builder.query().where_eq("name", Value::Str("John".to_string()));
    let sql = builder.to_sql().unwrap();
    let true_sql =
        "SELECT * FROM (SELECT * FROM users WHERE status = ?) as active_users WHERE name = ?";
    assert_eq!(sql.0, true_sql);
    assert_eq!(
        sql.1,
        vec![
            Value::Str("active".to_string()),
            Value::Str("John".to_string()),
        ]
    );
}

#[test]
fn test_sqlite_joins() {
    let mut builder = ChainBuilder::new(Client::Sqlite);
    builder
        .select(Select::Columns(vec![
            "users.name".into(),
            "profiles.bio".into(),
        ]))
        .table("users");
    {
        let qb = builder.query();
        qb.left_join("profiles")
            .on("users.id", "=", "profiles.user_id");
        qb.where_eq("users.status", Value::Str("active".to_string()));
    }

    let (sql, binds) = builder.to_sql().unwrap();
    println!("SQLite JOIN SQL: {}", sql);
    println!("Binds: {:?}", binds);

    assert!(sql.contains("SELECT users.name, profiles.bio FROM users"));
    assert!(sql.contains("LEFT JOIN profiles ON users.id = profiles.user_id"));
    assert!(sql.contains("WHERE users.status = ?"));
}

#[test]
fn test_sqlite_aggregate_functions() {
    let mut builder = ChainBuilder::new(Client::Sqlite);
    builder.table("orders");
    {
        let qb = builder.query();
        qb.group_by(vec!["user_id".to_string()]);
        qb.having("COUNT(*)", ">", Value::Int(5));
    }

    builder
        .select_count("id")
        .select_sum("amount")
        .select_avg("amount");

    let (sql, binds) = builder.to_sql().unwrap();
    println!("SQLite Aggregate SQL: {}", sql);
    println!("Binds: {:?}", binds);

    assert!(sql.contains("SELECT COUNT(id), SUM(amount), AVG(amount) FROM orders"));
    assert!(sql.contains("GROUP BY user_id"));
    assert!(sql.contains("HAVING COUNT(*) > ?"));
}

#[test]
fn test_sqlite_limit_offset_old() {
    let mut builder = ChainBuilder::new(Client::Sqlite);
    builder
        .select(Select::Columns(vec!["*".into()]))
        .table("users");
    {
        let qb = builder.query();
        qb.limit(10);
        qb.offset(20);
    }

    let (sql, binds) = builder.to_sql().unwrap();
    println!("SQLite LIMIT/OFFSET SQL: {}", sql);
    println!("Binds: {:?}", binds);

    // SQLite uses LIMIT offset, count syntax
    assert!(sql.contains("LIMIT 20, 10"));
}

#[test]
fn test_sqlite_with_cte() {
    let mut active_users = ChainBuilder::new(Client::Sqlite);
    active_users
        .table("users")
        .select(Select::Columns(vec!["*".into()]));
    active_users
        .query()
        .where_eq("status", Value::Str("active".to_string()));

    let mut builder = ChainBuilder::new(Client::Sqlite);
    builder
        .with("active_users", active_users)
        .select(Select::Columns(vec!["*".into()]))
        .table("active_users");
    builder.query().where_gt("age", Value::Int(25));

    let (sql, binds) = builder.to_sql().unwrap();
    println!("SQLite CTE SQL: {}", sql);
    println!("Binds: {:?}", binds);

    assert!(sql.contains("WITH active_users AS ("));
    assert!(sql.contains("SELECT * FROM active_users"));
}

#[test]
fn test_sqlite_union_old() {
    let mut pending_users = ChainBuilder::new(Client::Sqlite);
    pending_users
        .table("users")
        .select(Select::Columns(vec!["*".into()]));
    pending_users
        .query()
        .where_eq("status", Value::Str("pending".to_string()));

    let mut builder = ChainBuilder::new(Client::Sqlite);
    builder
        .union(pending_users)
        .table("users")
        .select(Select::Columns(vec!["*".into()]));
    builder
        .query()
        .where_eq("status", Value::Str("active".to_string()));

    let (sql, binds) = builder.to_sql().unwrap();
    println!("SQLite UNION SQL: {}", sql);
    println!("Binds: {:?}", binds);

    assert!(sql.contains("UNION"));
    assert!(sql.contains("SELECT * FROM users"));
}
