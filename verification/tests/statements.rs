use rusql_alchemy::condition::{kwarg, kwarg_column, And, CompareOp};
use rusql_alchemy::dialect::Dialect;
use rusql_alchemy::model::{
    all_statement, count_statement, delete_all_statement, delete_by_pk_statement,
    filter_statement, first_row, insert_statement, join_table_statement, require_first_row,
    update_statement, FetchError,
};
use rusql_alchemy::statement::{JoinType, SelectBuilder};
use rusql_alchemy::value::{TypeTag, Value};

fn text(s: &str) -> Value {
    Value::Text(s.to_string())
}

#[test]
fn builder_renders_select_with_where() {
    let b = SelectBuilder::new("*".to_string(), Some("User".to_string()))
        .where_clause(kwarg("name".to_string(), CompareOp::Eq, text("Jane")));
    let (sql, args) = b.build_query(Dialect::Sqlite);
    assert_eq!(sql, "SELECT * FROM User WHERE name=?1;");
    assert_eq!(args.len(), 1);
    assert_eq!(args[0].value, "Jane");
}

#[test]
fn builder_omits_empty_where_entirely() {
    let b = SelectBuilder::new("*".to_string(), Some("User".to_string()))
        .where_clause(Vec::new());
    let (sql, args) = b.build_query(Dialect::Sqlite);
    assert_eq!(sql, "SELECT * FROM User;");
    assert!(args.is_empty());
}

#[test]
fn builder_without_where_or_joins() {
    let b = SelectBuilder::new("*".to_string(), Some("Product".to_string()));
    let (sql, args) = b.build_query(Dialect::Postgres);
    assert_eq!(sql, "SELECT * FROM Product;");
    assert!(args.is_empty());
}

#[test]
fn inner_join_on_column_condition_contributes_zero_args() {
    let b = SelectBuilder::new("User.*, Profile.*".to_string(), None).inner_join(
        "User".to_string(),
        "Profile".to_string(),
        kwarg_column("User.id".to_string(), CompareOp::Eq, "Profile.user_id".to_string()),
    );
    let (sql, args) = b.build_query(Dialect::Sqlite);
    assert_eq!(
        sql,
        "SELECT User.*, Profile.* FROM User INNER JOIN Profile ON User.id=Profile.user_id;"
    );
    assert_eq!(args.len(), 0);
}

#[test]
fn join_keeps_an_explicit_base_table() {
    let b = SelectBuilder::new("*".to_string(), Some("Account".to_string())).left_join(
        "User".to_string(),
        "Profile".to_string(),
        kwarg_column("Account.id".to_string(), CompareOp::Eq, "Profile.user_id".to_string()),
    );
    let (sql, _) = b.build_query(Dialect::Sqlite);
    assert_eq!(
        sql,
        "SELECT * FROM Account LEFT JOIN Profile ON Account.id=Profile.user_id;"
    );
}

#[test]
fn join_and_where_args_concatenate_in_clause_order() {
    let b = SelectBuilder::new("User.*".to_string(), None)
        .inner_join(
            "User".to_string(),
            "Profile".to_string(),
            kwarg("Profile.active".to_string(), CompareOp::Eq, Value::Bool(true)),
        )
        .where_clause(kwarg("User.name".to_string(), CompareOp::Eq, text("Jane")));
    let (sql, args) = b.build_query(Dialect::Sqlite);
    assert_eq!(
        sql,
        "SELECT User.* FROM User INNER JOIN Profile ON Profile.active=?1 WHERE User.name=?1;"
    );
    let got: Vec<(&str, TypeTag)> = args.iter().map(|a| (a.value.as_str(), a.ty)).collect();
    assert_eq!(got, vec![("1", TypeTag::Integer), ("Jane", TypeTag::Text)]);
}

#[test]
fn right_join_renders_its_keyword() {
    let b = SelectBuilder::new("*".to_string(), None).right_join(
        "A".to_string(),
        "B".to_string(),
        kwarg_column("A.x".to_string(), CompareOp::Eq, "B.y".to_string()),
    );
    let (sql, _) = b.build_query(Dialect::Sqlite);
    assert_eq!(sql, "SELECT * FROM A RIGHT JOIN B ON A.x=B.y;");
}

#[test]
fn join_type_keywords() {
    assert_eq!(JoinType::Inner.keyword(), "INNER");
    assert_eq!(JoinType::Left.keyword(), "LEFT");
    assert_eq!(JoinType::Right.keyword(), "RIGHT");
    assert_eq!(JoinType::Full.keyword(), "FULL");
}

#[test]
fn insert_statement_shape() {
    let mut kw = kwarg("name".to_string(), CompareOp::Eq, text("John"));
    kw.append(&mut kwarg("role".to_string(), CompareOp::Eq, text("user")));
    let (sql, args) = insert_statement("User", kw, Dialect::Sqlite);
    assert_eq!(sql, "insert into User (name, role) values (?1, ?2);");
    assert_eq!(args.len(), 2);
}

#[test]
fn update_statement_appends_id_after_set_args() {
    let kw = kwarg("role".to_string(), CompareOp::Eq, text("admin"));
    let (sql, args) = update_statement("users", "id", Value::Int(42), kw, Dialect::Sqlite);
    assert_eq!(sql, "update users set role=?1 where id=?2;");
    let got: Vec<(&str, TypeTag)> = args.iter().map(|a| (a.value.as_str(), a.ty)).collect();
    assert_eq!(got, vec![("admin", TypeTag::Text), ("42", TypeTag::Integer)]);
}

#[test]
fn update_statement_with_two_set_pairs_uses_third_index_for_id() {
    let kw = kwarg("a".to_string(), CompareOp::Eq, Value::Int(1))
        .and(kwarg("b".to_string(), CompareOp::Eq, Value::Int(2)));
    let (sql, args) = update_statement("t", "pk", Value::Int(9), kw, Dialect::Postgres);
    assert_eq!(sql, "update t set a=$1, b=$2 where pk=$3;");
    assert_eq!(args.len(), 3);
    assert_eq!(args[2].value, "9");
}

#[test]
fn filter_statement_with_conditions() {
    let kw = kwarg("role".to_string(), CompareOp::Eq, text("user"));
    let (sql, args) = filter_statement("User", kw, Dialect::Sqlite);
    assert_eq!(sql, "SELECT * FROM User WHERE role=?1;");
    assert_eq!(args.len(), 1);
}

#[test]
fn filter_statement_omits_where_for_empty_conditions() {
    let (sql, args) = filter_statement("User", Vec::new(), Dialect::Sqlite);
    assert_eq!(sql, "SELECT * FROM User;");
    assert!(args.is_empty());
}

#[test]
fn fixed_statements() {
    assert_eq!(all_statement("User"), "select * from User");
    assert_eq!(count_statement("User"), "select count(*) from User");
    assert_eq!(delete_all_statement("User"), "delete from User;");
    assert_eq!(
        delete_by_pk_statement("User", "id", Dialect::Sqlite),
        "delete from User where id=?1;"
    );
    assert_eq!(
        delete_by_pk_statement("User", "id", Dialect::Postgres),
        "delete from User where id=$1;"
    );
}

#[test]
fn join_table_statement_shape() {
    let (sql, args) = join_table_statement(
        "INNER",
        "User",
        "Profile",
        "id",
        "user_id",
        None,
        Dialect::Sqlite,
    );
    assert_eq!(
        sql,
        "SELECT User.*, Profile.* FROM User INNER JOIN Profile ON User.id = Profile.user_id"
    );
    assert!(args.is_empty());

    let kw = kwarg("role".to_string(), CompareOp::Eq, text("admin"));
    let (sql, args) =
        join_table_statement("LEFT", "User", "Profile", "id", "user_id", Some(kw), Dialect::Sqlite);
    assert_eq!(
        sql,
        "SELECT User.*, Profile.* FROM User LEFT JOIN Profile ON User.id = Profile.user_id WHERE role=?1"
    );
    assert_eq!(args.len(), 1);
}

#[test]
fn first_row_rules() {
    assert_eq!(first_row::<i32>(vec![]), None);
    assert_eq!(first_row(vec![7, 8, 9]), Some(7));
    assert_eq!(require_first_row::<i32>(vec![]), Err(FetchError::ZeroRows));
    assert_eq!(require_first_row(vec![5, 6]), Ok(5));
}
