use chain_builder::{ChainBuilder, Client, Select, Value};

#[test]
fn test_chain_builder() {
    let mut builder = ChainBuilder::new(Client::Mysql);
    builder
        .db("mydb") // For dynamic db
        .select(Select::Columns(vec!["*".into()]))
        .table("users");
    {
        let qb = builder.query();
        qb.where_eq("name", Value::Str("John".to_string()));
        qb.where_eq("city", Value::Str("New York".to_string()));
        qb.where_in(
            "department",
            vec![Value::Str("IT".to_string()), Value::Str("HR".to_string())],
        );

        let sub = qb.where_subquery();
        sub.where_eq("status", Value::Str("active".to_string()));
        sub.or()
            .where_eq("status", Value::Str("pending".to_string()))
            .where_between(
                "registered_at",
                (
                    Value::Str("2024-01-01".to_string()),
                    Value::Str("2024-01-31".to_string()),
                ),
            );

        qb.where_raw(
            "(latitude BETWEEN ? AND ?) AND (longitude BETWEEN ? AND ?)",
            Some(vec![
                Value::Float(40.0f64.to_bits()),
                Value::Float(41.0f64.to_bits()),
                Value::Float(70.0f64.to_bits()),
                Value::Float(71.0f64.to_bits()),
            ]),
        );
    }

    builder.add_raw("LIMIT ?", Some(vec![Value::Int(10)]));

    let sql = builder.to_sql().unwrap();
    assert_eq!(
            sql.0,
            "SELECT * FROM mydb.users WHERE name = ? AND city = ? AND department IN (?,?) AND (status = ? OR (status = ? AND registered_at BETWEEN ? AND ?)) AND (latitude BETWEEN ? AND ?) AND (longitude BETWEEN ? AND ?) LIMIT ?"
        );
    assert_eq!(
        sql.1,
        vec![
            Value::Str("John".to_string()),
            Value::Str("New York".to_string()),
            Value::Str("IT".to_string()),
            Value::Str("HR".to_string()),
            Value::Str("active".to_string()),
            Value::Str("pending".to_string()),
            Value::Str("2024-01-01".to_string()),
            Value::Str("2024-01-31".to_string()),
            Value::Float(40.0f64.to_bits()),
            Value::Float(41.0f64.to_bits()),
            Value::Float(70.0f64.to_bits()),
            Value::Float(71.0f64.to_bits()),
            Value::Int(10),
        ]
    );
}

#[test]
fn test_join() {
    let mut builder = ChainBuilder::new(Client::Mysql);
    builder
        .db("mydb") // For dynamic db
        .select(Select::Columns(vec!["*".into()]))
        .table("users");
    {
        let qb = builder.query();
        {
            let join = qb.join("details");
            join.on("details.id", "=", "users.d_id");
            join.on("details.id_w", "=", "users.d_id_w");
            join.or().on("details.id_s", "=", "users.d_id_s").on(
                "details.id_w",
                "=",
                "users.d_id_w",
            );
        }
        qb.where_eq("name", Value::Str("John".to_string()));
    }
    builder.select(Select::Raw(
        "(SELECT COUNT(*) FROM `mydb`.`users` WHERE users.id = ?) AS count".into(),
        Some(vec![Value::Int(1)]),
    ));
    let sql = builder.to_sql().unwrap();
    let true_sql = "SELECT *, (SELECT COUNT(*) FROM `mydb`.`users` WHERE users.id = ?) AS count FROM mydb.users JOIN mydb.details ON details.id = users.d_id AND details.id_w = users.d_id_w OR (details.id_s = users.d_id_s AND details.id_w = users.d_id_w) WHERE name = ?";
    assert_eq!(sql.0, true_sql);
    assert_eq!(sql.1, vec![Value::Int(1), Value::Str("John".to_string())]);
}

#[test]
fn test_insert() {
    let mut builder = ChainBuilder::new(Client::Mysql);
    builder
        .db("mydb") // For dynamic db
        .table("users")
        .insert(Value::Object(vec![
            ("name".to_string(), Value::Str("John".to_string())),
            ("`city`".to_string(), Value::Str("New York".to_string())),
            ("department".to_string(), Value::Str("IT".to_string())),
        ]));
    let sql = builder.to_sql().unwrap();
    let true_sql = "INSERT INTO mydb.users (`city`, department, name) VALUES (?, ?, ?)";
    assert_eq!(sql.0, true_sql);
    assert_eq!(
        sql.1,
        vec![
            Value::Str("New York".to_string()),
            Value::Str("IT".to_string()),
            Value::Str("John".to_string())
        ]
    );
}

#[test]
fn test_insert_many() {
    let mut builder = ChainBuilder::new(Client::Mysql);
    builder
        .db("mydb") // For dynamic db
        .table("users")
        .insert_many(vec![
            Value::Object(vec![
                ("name".to_string(), Value::Str("John".to_string())),
                ("`city`".to_string(), Value::Str("New York".to_string())),
                ("department".to_string(), Value::Str("IT".to_string())),
            ]),
            Value::Object(vec![
                ("name".to_string(), Value::Str("Jane".to_string())),
                ("`city`".to_string(), Value::Str("New York".to_string())),
                ("department".to_string(), Value::Str("HR".to_string())),
            ]),
        ]);
    let sql = builder.to_sql().unwrap();
    let true_sql = "INSERT INTO mydb.users (`city`, department, name) VALUES (?, ?, ?), (?, ?, ?)";
    assert_eq!(sql.0, true_sql);
    assert_eq!(
        sql.1,
        vec![
            Value::Str("New York".to_string()),
            Value::Str("IT".to_string()),
            Value::Str("John".to_string()),
            Value::Str("New York".to_string()),
            Value::Str("HR".to_string()),
            Value::Str("Jane".to_string())
        ]
    );
}

#[test]
fn test_update() {
    let mut builder = ChainBuilder::new(Client::Mysql);
    builder
        .db("mydb") // For dynamic db
        .table("users")
        .update(Value::Object(vec![
            ("name".to_string(), Value::Str("John".to_string())),
            ("`city`".to_string(), Value::Str("New York".to_string())),
            ("department".to_string(), Value::Str("IT".to_string())),
        ]));
    builder.query().where_eq("id", Value::Int(1));
    let sql = builder.to_sql().unwrap();
    let true_sql = "UPDATE mydb.users SET `city` = ?, department = ?, name = ? WHERE id = ?";
    assert_eq!(sql.0, true_sql);
    assert_eq!(
        sql.1,
        vec![
            Value::Str("New York".to_string()),
            Value::Str("IT".to_string()),
            Value::Str("John".to_string()),
            Value::Int(1)
        ]
    );
}

#[test]
fn test_delete() {
    let mut builder = ChainBuilder::new(Client::Mysql);
    builder
        .db("mydb") // For dynamic db
        .table("users")
        .delete();
    builder.query().where_eq("id", Value::Int(1));
    let sql = builder.to_sql().unwrap();
    let true_sql = "DELETE FROM mydb.users WHERE id = ?";
    assert_eq!(sql.0, true_sql);
    assert_eq!(sql.1, vec![Value::Int(1)]);
}

#[test]
fn test_with() {
    let mut slct = ChainBuilder::new(Client::Mysql);
    slct.db("mydb") // For dynamic db
        .table("address")
        .select(Select::Columns(vec!["*".into()]));
    slct.query().where_eq("city", Value::Str("New York".to_string()));

    let mut active_users = ChainBuilder::new(Client::Mysql);
    active_users
        .db("mydb") // For dynamic db
        .table("users")
        .select(Select::Columns(vec!["*".into()]))
        .select(Select::Builder("address".to_string(), slct));
    active_users
        .query()
        .where_eq("status", Value::Str("active".to_string()));

    let mut builder = ChainBuilder::new(Client::Mysql);
    builder
        .with("active_users", active_users)
        .select(Select::Columns(vec!["*".into()]))
        .table("active_users");
    builder.query().where_eq("name", Value::Str("John".to_string()));
    let sql = builder.to_sql().unwrap();
    let true_sql = "WITH active_users AS (SELECT *, (SELECT * FROM mydb.address WHERE city = ?) AS address FROM mydb.users WHERE status = ?) SELECT * FROM active_users WHERE name = ?";
    assert_eq!(sql.0, true_sql);
    assert_eq!(
        sql.1,
        vec![
            Value::Str("New York".to_string()),
            Value::Str("active".to_string()),
            Value::Str("John".to_string())
        ]
    );
}

#[test]
fn test_with_recursive() {
    let mut slct = ChainBuilder::new(Client::Mysql);
    slct.db("mydb") // For dynamic db
        .table("address")
        .select(Select::Columns(vec!["*".into()]));
    slct.query().where_eq("city", Value::Str("New York".to_string()));

    let mut active_users = ChainBuilder::new(Client::Mysql);
    active_users
        .db("mydb") // For dynamic db
        .table("users")
        .select(Select::Columns(vec!["*".into()]))
        .select(Select::Builder("address".to_string(), slct));
    active_users
        .query()
        .where_eq("status", Value::Str("active".to_string()));

    let mut builder = ChainBuilder::new(Client::Mysql);
    builder
        .with_recursive("active_users", active_users)
        .select(Select::Columns(vec!["*".into()]))
        .table("active_users");
    builder.query().where_eq("name", Value::Str("John".to_string()));
    let sql = builder.to_sql().unwrap();
    let true_sql = "WITH RECURSIVE active_users AS (SELECT *, (SELECT * FROM mydb.address WHERE city = ?) AS address FROM mydb.users WHERE status = ?) SELECT * FROM active_users WHERE name = ?";
    assert_eq!(sql.0, true_sql);
    assert_eq!(
        sql.1,
        vec![
            Value::Str("New York".to_string()),
            Value::Str("active".to_string()),
            Value::Str("John".to_string())
        ]
    );
}

#[test]
fn test_union() {
    let mut pending_users = ChainBuilder::new(Client::Mysql);
    pending_users
        .db("mydb") // For dynamic db
        .table("users")
        .select(Select::Columns(vec!["*".into()]));
    pending_users
        .query()
        .where_eq("status", Value::Str("pending".to_string()));

    let mut builder = ChainBuilder::new(Client::Mysql);
    builder
        .union(pending_users)
        .db("mydb") // For dynamic db
        .select(Select::Columns(vec!["*".into()]))
        .table("users");
    builder.query().where_eq("name", Value::Str("John".to_string()));
    let sql = builder.to_sql().unwrap();
    let true_sql =
        "SELECT * FROM mydb.users WHERE name = ? UNION SELECT * FROM mydb.users WHERE status = ?";
    assert_eq!(sql.0, true_sql);
    assert_eq!(
        sql.1,
        vec![
            Value::Str("John".to_string()),
            Value::Str("pending".to_string())
        ]
    );
}

#[test]
fn test_union_all() {
    let mut pending_users = ChainBuilder::new(Client::Mysql);
    pending_users
        .db("mydb") // For dynamic db
        .table("users")
        .select(Select::Columns(vec!["*".into()]));
    pending_users
        .query()
        .where_eq("status", Value::Str("pending".to_string()));

    let mut builder = ChainBuilder::new(Client::Mysql);
    builder
        .union_all(pending_users.clone())
        .union_all(pending_users)
        .db("mydb") // For dynamic db
        .select(Select::Columns(vec!["*".into()]))
        .table("users");
    builder.query().where_eq("name", Value::Str("John".to_string()));
    let sql = builder.to_sql().unwrap();
    let true_sql =
        "SELECT * FROM mydb.users WHERE name = ? UNION ALL SELECT * FROM mydb.users WHERE status = ? UNION ALL SELECT * FROM mydb.users WHERE status = ?";
    assert_eq!(sql.0, true_sql);
    assert_eq!(
        sql.1,
        vec![
            Value::Str("John".to_string()),
            Value::Str("pending".to_string()),
            Value::Str("pending".to_string())
        ]
    );
}

#[test]
fn test_limit_offset() {
    let mut builder = ChainBuilder::new(Client::Mysql);
    builder
        .db("mydb") // For dynamic db
        .select(Select::Columns(vec!["*".into()]))
        .table("users");
    {
        let qb = builder.query();
        qb.where_eq("name", Value::Str("John".to_string()));
        qb.limit(10).offset(5);
    }
    let sql = builder.to_sql().unwrap();
    let true_sql = "SELECT * FROM mydb.users WHERE name = ? LIMIT ? OFFSET ?";
    assert_eq!(sql.0, true_sql);
    assert_eq!(
        sql.1,
        vec![
            Value::Str("John".to_string()),
            Value::UInt(10),
            Value::UInt(5)
        ]
    );
}

#[test]
fn test_group_by() {
    let mut builder = ChainBuilder::new(Client::Mysql);
    builder
        .db("mydb") // For dynamic db
        .select(Select::Columns(vec!["*".into()]))
        .table("users");
    {
        let qb = builder.query();
        qb.where_eq("name", Value::Str("John".to_string()));
        qb.limit(10).offset(5);
        qb.group_by(vec!["name".to_string(), "city".to_string()]);
    }
    let sql = builder.to_sql().unwrap();
    let true_sql = "SELECT * FROM mydb.users WHERE name = ? GROUP BY name, city LIMIT ? OFFSET ?";
    assert_eq!(sql.0, true_sql);
    assert_eq!(
        sql.1,
        vec![
            Value::Str("John".to_string()),
            Value::UInt(10),
            Value::UInt(5)
        ]
    );
}

#[test]
fn test_group_by_raw() {
    let mut builder = ChainBuilder::new(Client::Mysql);
    builder
        .db("mydb") // For dynamic db
        .select(Select::Columns(vec!["*".into()]))
        .table("users");
    {
        let qb = builder.query();
        qb.where_eq("name", Value::Str("John".to_string()));
        qb.limit(10).offset(5);
        qb.group_by_raw("name, city", None);
    }
    let sql = builder.to_sql().unwrap();
    let true_sql = "SELECT * FROM mydb.users WHERE name = ? GROUP BY name, city LIMIT ? OFFSET ?";
    assert_eq!(sql.0, true_sql);
    assert_eq!(
        sql.1,
        vec![
            Value::Str("John".to_string()),
            Value::UInt(10),
            Value::UInt(5)
        ]
    );
}

#[test]
fn test_order_by() {
    let mut builder = ChainBuilder::new(Client::Mysql);
    builder
        .db("mydb") // For dynamic db
        .select(Select::Columns(vec!["*".into()]))
        .table("users");
    {
        let qb = builder.query();
        qb.where_eq("name", Value::Str("John".to_string()));
        qb.limit(10).offset(5);
        qb.order_by("name", "ASC");
        qb.order_by("city", "DESC");
    }
    let sql = builder.to_sql().unwrap();
    let true_sql =
        "SELECT * FROM mydb.users WHERE name = ? ORDER BY name ASC, city DESC LIMIT ? OFFSET ?";
    assert_eq!(sql.0, true_sql);
    assert_eq!(
        sql.1,
        vec![
            Value::Str("John".to_string()),
            Value::UInt(10),
            Value::UInt(5)
        ]
    );
}

#[test]
fn test_order_by_raw() {
    let mut builder = ChainBuilder::new(Client::Mysql);
    builder
        .db("mydb") // For dynamic db
        .select(Select::Columns(vec!["*".into()]))
        .table("users");
    {
        let qb = builder.query();
        qb.where_eq("name", Value::Str("John".to_string()));
        qb.limit(10).offset(5);
        qb.order_by_raw("`count`, `name` order by (`name` is not null) desc", None);
    }
    let sql = builder.to_sql().unwrap();
    let true_sql = "SELECT * FROM mydb.users WHERE name = ? ORDER BY `count`, `name` order by (`name` is not null) desc LIMIT ? OFFSET ?";
    assert_eq!(sql.0, true_sql);
    assert_eq!(
        sql.1,
        vec![
            Value::Str("John".to_string()),
            Value::UInt(10),
            Value::UInt(5)
        ]
    );
}
