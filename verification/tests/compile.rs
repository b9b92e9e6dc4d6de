use rusql_alchemy::builder::{to_insert_query, to_select_query, to_update_query};
use rusql_alchemy::condition::{kwarg, kwarg_column, And, CompareOp, Or};
use rusql_alchemy::dialect::{get_placeholder, Dialect};
use rusql_alchemy::value::{TypeTag, Value};

fn text(s: &str) -> Value {
    Value::Text(s.to_string())
}

#[test]
fn dialect_from_url_schemes() {
    assert_eq!(Dialect::from_database_url("sqlite:file:cache?mode=memory"), Some(Dialect::Sqlite));
    assert_eq!(Dialect::from_database_url("mysql://localhost/db"), Some(Dialect::Mysql));
    assert_eq!(Dialect::from_database_url("postgres://localhost/db"), Some(Dialect::Postgres));
    assert_eq!(
        Dialect::from_database_url("postgresql://localhost/db"),
        Some(Dialect::Postgres)
    );
    assert_eq!(Dialect::from_database_url("oracle://x"), None);
    assert_eq!(Dialect::from_database_url(""), None);
}

#[test]
fn placeholder_prefix_per_dialect() {
    assert_eq!(Dialect::Sqlite.placeholder_prefix(), "?");
    assert_eq!(Dialect::Mysql.placeholder_prefix(), "?");
    assert_eq!(Dialect::Postgres.placeholder_prefix(), "$");
    assert_eq!(get_placeholder("sqlite://x"), Some("?"));
    assert_eq!(get_placeholder("postgres://x"), Some("$"));
    assert_eq!(get_placeholder("redis://x"), None);
}

#[test]
fn single_condition_selects_one_placeholder() {
    let q = to_select_query(kwarg("field".to_string(), CompareOp::Eq, text("value")), Dialect::Sqlite);
    assert_eq!(q.placeholders, "field=?1");
    assert_eq!(q.args.len(), 1);
    assert_eq!((q.args[0].value.as_str(), q.args[0].ty), ("value", TypeTag::Text));

    let q = to_select_query(kwarg("field".to_string(), CompareOp::Eq, text("value")), Dialect::Postgres);
    assert_eq!(q.placeholders, "field=$1");
    assert_eq!(q.args.len(), 1);
}

#[test]
fn empty_condition_list_compiles_to_empty_fragment() {
    let q = to_select_query(Vec::new(), Dialect::Sqlite);
    assert_eq!(q.placeholders, "");
    assert_eq!(q.fields, "");
    assert!(q.args.is_empty());
}

#[test]
fn and_chain_renders_in_order_with_increasing_indices() {
    let kw = kwarg("name".to_string(), CompareOp::Eq, text("Jane"))
        .and(kwarg("role".to_string(), CompareOp::Eq, text("admin")));
    let q = to_select_query(kw, Dialect::Sqlite);
    assert_eq!(q.placeholders, "name=?1 and role=?2");
    let got: Vec<(&str, TypeTag)> =
        q.args.iter().map(|a| (a.value.as_str(), a.ty)).collect();
    assert_eq!(got, vec![("Jane", TypeTag::Text), ("admin", TypeTag::Text)]);
}

#[test]
fn or_chain_renders_keyword() {
    let kw = kwarg("a".to_string(), CompareOp::Gt, Value::Int(5))
        .or(kwarg("b".to_string(), CompareOp::Le, Value::Int(9)));
    let q = to_select_query(kw, Dialect::Sqlite);
    assert_eq!(q.placeholders, "a>?1 or b<=?2");
    let got: Vec<(&str, TypeTag)> =
        q.args.iter().map(|a| (a.value.as_str(), a.ty)).collect();
    assert_eq!(got, vec![("5", TypeTag::Integer), ("9", TypeTag::Integer)]);
}

#[test]
fn mixed_and_or_keeps_flat_left_to_right_text() {
    let kw = kwarg("a".to_string(), CompareOp::Eq, Value::Int(1))
        .and(kwarg("b".to_string(), CompareOp::Eq, Value::Int(2)))
        .or(kwarg("c".to_string(), CompareOp::Eq, Value::Int(3)));
    let q = to_select_query(kw, Dialect::Sqlite);
    assert_eq!(q.placeholders, "a=?1 and b=?2 or c=?3");
}

#[test]
fn comparison_operators_render_their_symbols() {
    for (op, sym) in [
        (CompareOp::Eq, "="),
        (CompareOp::Ne, "!="),
        (CompareOp::Lt, "<"),
        (CompareOp::Le, "<="),
        (CompareOp::Gt, ">"),
        (CompareOp::Ge, ">="),
    ] {
        let q = to_select_query(kwarg("age".to_string(), op, Value::Int(18)), Dialect::Sqlite);
        assert_eq!(q.placeholders, format!("age{sym}?1"));
    }
}

#[test]
fn column_condition_renders_verbatim_and_binds_nothing() {
    let kw = kwarg_column("User.id".to_string(), CompareOp::Eq, "Profile.user_id".to_string());
    let q = to_select_query(kw, Dialect::Sqlite);
    assert_eq!(q.placeholders, "User.id=Profile.user_id");
    assert_eq!(q.args.len(), 0);
}

#[test]
fn column_condition_between_bindable_ones_skips_an_index() {
    let kw = kwarg("a".to_string(), CompareOp::Eq, Value::Int(1))
        .and(kwarg_column("User.id".to_string(), CompareOp::Eq, "Profile.user_id".to_string()))
        .and(kwarg("b".to_string(), CompareOp::Eq, Value::Int(2)));
    let q = to_select_query(kw, Dialect::Sqlite);
    assert_eq!(q.placeholders, "a=?1 and User.id=Profile.user_id and b=?2");
    assert_eq!(q.args.len(), 2);
}

#[test]
fn insert_compiles_fields_placeholders_and_args_in_step() {
    let mut kw = kwarg("name".to_string(), CompareOp::Eq, text("John"));
    kw.append(&mut kwarg("role".to_string(), CompareOp::Eq, text("user")));
    kw.append(&mut kwarg("age".to_string(), CompareOp::Eq, Value::Int(19)));
    let q = to_insert_query(kw, Dialect::Sqlite);
    assert_eq!(q.fields, "name, role, age");
    assert_eq!(q.placeholders, "?1, ?2, ?3");
    let got: Vec<(&str, TypeTag)> =
        q.args.iter().map(|a| (a.value.as_str(), a.ty)).collect();
    assert_eq!(
        got,
        vec![("John", TypeTag::Text), ("user", TypeTag::Text), ("19", TypeTag::Integer)]
    );
    assert_eq!(q.fields.split(", ").count(), q.args.len());
    assert_eq!(q.placeholders.split(", ").count(), q.args.len());
}

#[test]
fn insert_of_one_condition_has_no_separator() {
    let q = to_insert_query(kwarg("name".to_string(), CompareOp::Eq, text("x")), Dialect::Postgres);
    assert_eq!(q.fields, "name");
    assert_eq!(q.placeholders, "$1");
    assert_eq!(q.args.len(), 1);
}

#[test]
fn update_compiles_set_pairs() {
    let q = to_update_query(kwarg("role".to_string(), CompareOp::Eq, text("admin")), Dialect::Sqlite);
    assert_eq!(q.placeholders, "role=?1");
    let got: Vec<(&str, TypeTag)> =
        q.args.iter().map(|a| (a.value.as_str(), a.ty)).collect();
    assert_eq!(got, vec![("admin", TypeTag::Text)]);
}

#[test]
fn update_ignores_logical_connectives() {
    let kw = kwarg("a".to_string(), CompareOp::Eq, Value::Int(1))
        .and(kwarg("b".to_string(), CompareOp::Eq, Value::Int(2)));
    let q = to_update_query(kw, Dialect::Sqlite);
    assert_eq!(q.placeholders, "a=?1, b=?2");
    assert_eq!(q.args.len(), 2);
}

#[test]
fn update_uses_equals_regardless_of_operator() {
    let q = to_update_query(kwarg("age".to_string(), CompareOp::Ge, Value::Int(3)), Dialect::Sqlite);
    assert_eq!(q.placeholders, "age=?1");
}
