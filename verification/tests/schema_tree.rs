use pgpeek::schema::{
    attach_columns, build_tree, column_query, encode_schemas, planned_tables, tables_query,
    Column, TablePair,
};

fn pair(schema: &str, table: &str) -> TablePair {
    TablePair { schema: schema.to_string(), table: table.to_string() }
}

fn col(name: &str, data_type: &str) -> Column {
    Column { name: name.to_string(), data_type: data_type.to_string() }
}

#[test]
fn empty_listing_yields_an_empty_tree() {
    let tree = build_tree(Vec::new());
    assert_eq!(tree.len(), 0);
    assert_eq!(encode_schemas(&tree), "[]");
}

#[test]
fn schemas_keep_first_occurrence_order_and_tables_keep_listing_order() {
    let tree = build_tree(vec![
        pair("public", "users"),
        pair("audit", "log"),
        pair("public", "orders"),
    ]);
    assert_eq!(tree.len(), 2);
    assert_eq!(tree[0].name, "public");
    assert_eq!(tree[0].tables.len(), 2);
    assert_eq!(tree[0].tables[0].name, "users");
    assert_eq!(tree[0].tables[1].name, "orders");
    assert_eq!(tree[1].name, "audit");
    assert_eq!(tree[1].tables.len(), 1);
    assert_eq!(tree[1].tables[0].name, "log");
    for s in &tree {
        for t in &s.tables {
            assert!(t.columns.is_empty());
        }
    }
}

#[test]
fn planned_tables_lists_names_schema_major() {
    let tree = build_tree(vec![
        pair("public", "users"),
        pair("audit", "log"),
        pair("public", "orders"),
    ]);
    let plan = planned_tables(&tree);
    assert_eq!(plan.len(), 2);
    assert_eq!(plan[0], vec!["users".to_string(), "orders".to_string()]);
    assert_eq!(plan[1], vec!["log".to_string()]);
}

#[test]
fn catalog_query_texts_are_exact() {
    assert_eq!(
        tables_query(),
        "SELECT table_schema, table_name FROM information_schema.tables"
    );
    assert_eq!(
        column_query("users"),
        "SELECT \"column_name\", \"data_type\" FROM \"information_schema\".\"columns\" WHERE \"table_name\" = 'users'"
    );
}

#[test]
fn attached_columns_land_on_their_tables() {
    let tree = build_tree(vec![pair("public", "users")]);
    let lists = vec![vec![vec![col("id", "integer"), col("name", "text")]]];
    let tree = attach_columns(tree, lists);
    assert_eq!(
        encode_schemas(&tree),
        "[{\"name\":\"public\",\"tables\":[{\"name\":\"users\",\"columns\":[{\"name\":\"id\",\"data_type\":\"integer\"},{\"name\":\"name\",\"data_type\":\"text\"}]}]}]"
    );
}

#[test]
fn like_named_tables_in_two_schemas_get_identical_columns() {
    let tree = build_tree(vec![pair("public", "users"), pair("audit", "users")]);
    let plan = planned_tables(&tree);
    assert_eq!(plan[0], plan[1]);
    // the follow-up lookup is filtered by table name only, so both nodes
    // receive the same (possibly merged) column set
    let shared = vec![col("id", "integer"), col("actor", "text")];
    let lists = vec![vec![shared.clone()], vec![shared]];
    let tree = attach_columns(tree, lists);
    assert_eq!(tree[0].tables[0].columns.len(), 2);
    assert_eq!(tree[1].tables[0].columns.len(), 2);
    for (a, b) in tree[0].tables[0].columns.iter().zip(tree[1].tables[0].columns.iter()) {
        assert_eq!(a.name, b.name);
        assert_eq!(a.data_type, b.data_type);
    }
    assert_eq!(
        encode_schemas(&tree),
        "[{\"name\":\"public\",\"tables\":[{\"name\":\"users\",\"columns\":[{\"name\":\"id\",\"data_type\":\"integer\"},{\"name\":\"actor\",\"data_type\":\"text\"}]}]},{\"name\":\"audit\",\"tables\":[{\"name\":\"users\",\"columns\":[{\"name\":\"id\",\"data_type\":\"integer\"},{\"name\":\"actor\",\"data_type\":\"text\"}]}]}]"
    );
}

#[test]
fn schema_names_in_output_are_escaped() {
    let tree = build_tree(vec![pair("we\"ird", "t\\1")]);
    let tree = attach_columns(tree, vec![vec![Vec::new()]]);
    assert_eq!(
        encode_schemas(&tree),
        "[{\"name\":\"we\\\"ird\",\"tables\":[{\"name\":\"t\\\\1\",\"columns\":[]}]}]"
    );
}
