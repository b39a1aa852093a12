use wundergraph::filter::remove_unsafe_foreign_keys_for_codegen;
use wundergraph::mapper::{map_column, map_sql_type, ScalarKind};
use wundergraph::print_schema::{print, Diagnostic};
use wundergraph::schema::{
    ColumnDescriptor, ForeignKeyDescriptor, SchemaSnapshot, SqlTypeTag, TableDescriptor,
};

fn col(name: &str, sql_type: SqlTypeTag, nullable: bool, ordinal: usize) -> ColumnDescriptor {
    ColumnDescriptor { name: String::from(name), sql_type, nullable, ordinal }
}

fn fk(child: &str, child_col: &str, parent: &str, parent_col: &str) -> ForeignKeyDescriptor {
    ForeignKeyDescriptor {
        child_table: String::from(child),
        child_column: String::from(child_col),
        parent_table: String::from(parent),
        parent_column: String::from(parent_col),
    }
}

fn users_posts_snapshot() -> SchemaSnapshot {
    let users = TableDescriptor {
        name: String::from("users"),
        columns: vec![
            col("id", SqlTypeTag::Integer, false, 0),
            col("name", SqlTypeTag::Text, false, 1),
        ],
        primary_key: vec![String::from("id")],
    };
    let posts = TableDescriptor {
        name: String::from("posts"),
        columns: vec![
            col("id", SqlTypeTag::Integer, false, 0),
            col("author", SqlTypeTag::Integer, false, 1),
            col("title", SqlTypeTag::Text, false, 2),
            col("content", SqlTypeTag::Text, true, 3),
        ],
        primary_key: vec![String::from("id")],
    };
    SchemaSnapshot::new(vec![users, posts], vec![fk("posts", "author", "users", "id")]).unwrap()
}

#[test]
fn end_to_end_users_posts() {
    let snapshot = users_posts_snapshot();
    let (text, diags) = print(&snapshot);
    let expected = "use wundergraph::query_builder::types::{HasMany, HasOne};\n\
use wundergraph::scalar::WundergraphScalarValue;\n\
use wundergraph::WundergraphEntity;\n\
\n\
entity users (id) {\n    id: Int,\n    name: String,\n}\n\n\
entity posts (id) {\n    id: Int,\n    author: Int,\n    title: String,\n    content: Option<String>,\n}\n\n\
type users {\n    id: Int,\n    name: String,\n    posts: HasMany<posts>,\n}\n\n\
type posts {\n    id: Int,\n    title: String,\n    content: Option<String>,\n    author: HasOne<users>,\n}\n\n\
mutation create_users {\n    name: String,\n}\n\
mutation update_users {\n    id: Int,\n    name: Option<String>,\n}\n\
mutation delete_users {\n    id: Int,\n}\n\n\
mutation create_posts {\n    author: Int,\n    title: String,\n    content: Option<String>,\n}\n\
mutation update_posts {\n    id: Int,\n    author: Option<Int>,\n    title: Option<String>,\n    content: Option<String>,\n}\n\
mutation delete_posts {\n    id: Int,\n}\n\n";
    assert_eq!(text, expected);
    assert_eq!(diags.len(), 0);
}

#[test]
fn three_tables_with_nullable_foreign_keys() {
    let users = TableDescriptor {
        name: String::from("users"),
        columns: vec![
            col("id", SqlTypeTag::Integer, false, 0),
            col("name", SqlTypeTag::Text, false, 1),
        ],
        primary_key: vec![String::from("id")],
    };
    let posts = TableDescriptor {
        name: String::from("posts"),
        columns: vec![
            col("id", SqlTypeTag::Integer, false, 0),
            col("author", SqlTypeTag::Integer, true, 1),
            col("title", SqlTypeTag::Text, false, 2),
            col("content", SqlTypeTag::Text, true, 3),
        ],
        primary_key: vec![String::from("id")],
    };
    let comments = TableDescriptor {
        name: String::from("comments"),
        columns: vec![
            col("id", SqlTypeTag::Integer, false, 0),
            col("post", SqlTypeTag::Integer, true, 1),
            col("commenter", SqlTypeTag::Integer, true, 2),
            col("content", SqlTypeTag::Text, false, 3),
        ],
        primary_key: vec![String::from("id")],
    };
    let snapshot = SchemaSnapshot::new(
        vec![users, posts, comments],
        vec![
            fk("posts", "author", "users", "id"),
            fk("comments", "post", "posts", "id"),
            fk("comments", "commenter", "users", "id"),
        ],
    )
    .unwrap();
    let (text, diags) = print(&snapshot);
    assert_eq!(diags.len(), 0);
    assert!(text.contains(
        "type users {\n    id: Int,\n    name: String,\n    posts: HasMany<posts>,\n    comments: HasMany<comments>,\n}\n"
    ));
    assert!(text.contains(
        "type posts {\n    id: Int,\n    title: String,\n    content: Option<String>,\n    author: Option<HasOne<users>>,\n    comments: HasMany<comments>,\n}\n"
    ));
    assert!(text.contains(
        "type comments {\n    id: Int,\n    content: String,\n    post: Option<HasOne<posts>>,\n    commenter: Option<HasOne<users>>,\n}\n"
    ));
}

#[test]
fn emission_is_deterministic() {
    let snapshot = users_posts_snapshot();
    let (first, _) = print(&snapshot);
    let (second, _) = print(&snapshot);
    assert_eq!(first, second);
}

#[test]
fn self_referential_foreign_key_is_excluded() {
    let employees = TableDescriptor {
        name: String::from("employees"),
        columns: vec![
            col("id", SqlTypeTag::Integer, false, 0),
            col("manager_id", SqlTypeTag::Integer, true, 1),
        ],
        primary_key: vec![String::from("id")],
    };
    let snapshot = SchemaSnapshot::new(
        vec![employees],
        vec![fk("employees", "manager_id", "employees", "id")],
    )
    .unwrap();
    let (text, diags) = print(&snapshot);
    assert!(!text.contains("HasOne<"));
    assert!(!text.contains("HasMany<"));
    assert!(text.contains("type employees {\n    id: Int,\n    manager_id: Option<Int>,\n}\n"));
    assert_eq!(diags.len(), 1);
    assert!(matches!(&diags[0], Diagnostic::UnsafeForeignKey(e) if e.child_column == "manager_id"));
}

#[test]
fn foreign_key_to_excluded_table_is_dropped() {
    let posts = TableDescriptor {
        name: String::from("posts"),
        columns: vec![
            col("id", SqlTypeTag::Integer, false, 0),
            col("author", SqlTypeTag::Integer, false, 1),
        ],
        primary_key: vec![String::from("id")],
    };
    let snapshot =
        SchemaSnapshot::new(vec![posts], vec![fk("posts", "author", "accounts", "id")]).unwrap();
    let (text, diags) = print(&snapshot);
    assert!(!text.contains("accounts"));
    assert!(!text.contains("HasOne<"));
    assert!(!text.contains("HasMany<"));
    assert!(text.contains("    author: Int,\n"));
    assert_eq!(diags.len(), 1);
    assert!(matches!(&diags[0], Diagnostic::UnsafeForeignKey(e) if e.parent_table == "accounts"));
}

#[test]
fn duplicate_edges_keep_only_the_first() {
    let names = vec![String::from("posts"), String::from("users")];
    let edges = vec![
        fk("posts", "author", "users", "id"),
        fk("posts", "editor", "users", "id"),
    ];
    let (kept, dropped) = remove_unsafe_foreign_keys_for_codegen(&edges, &names);
    assert_eq!(kept.len(), 1);
    assert_eq!(kept[0].child_column, "author");
    assert_eq!(dropped.len(), 1);
    assert_eq!(dropped[0].child_column, "editor");
}

#[test]
fn filter_drops_unknown_parent_and_self_reference() {
    let names = vec![String::from("a"), String::from("b")];
    let edges = vec![
        fk("a", "x", "b", "id"),
        fk("a", "y", "c", "id"),
        fk("b", "z", "b", "id"),
    ];
    let (kept, dropped) = remove_unsafe_foreign_keys_for_codegen(&edges, &names);
    assert_eq!(kept.len(), 1);
    assert_eq!(kept[0].child_column, "x");
    assert_eq!(dropped.len(), 2);
}

#[test]
fn mapping_table_is_fixed() {
    assert_eq!(map_sql_type(&SqlTypeTag::SmallInt), Some(ScalarKind::SmallInt));
    assert_eq!(map_sql_type(&SqlTypeTag::Integer), Some(ScalarKind::Int));
    assert_eq!(map_sql_type(&SqlTypeTag::BigInt), Some(ScalarKind::BigInt));
    assert_eq!(map_sql_type(&SqlTypeTag::Float), Some(ScalarKind::Float));
    assert_eq!(map_sql_type(&SqlTypeTag::Double), Some(ScalarKind::Double));
    assert_eq!(map_sql_type(&SqlTypeTag::Text), Some(ScalarKind::String));
    assert_eq!(map_sql_type(&SqlTypeTag::Bool), Some(ScalarKind::Boolean));
    assert_eq!(map_sql_type(&SqlTypeTag::Other(String::from("point"))), None);
}

#[test]
fn unmapped_column_is_reported_and_excluded() {
    let shapes = TableDescriptor {
        name: String::from("shapes"),
        columns: vec![
            col("id", SqlTypeTag::Integer, false, 0),
            col("outline", SqlTypeTag::Other(String::from("polygon")), false, 1),
        ],
        primary_key: vec![String::from("id")],
    };
    let snapshot = SchemaSnapshot::new(vec![shapes], vec![]).unwrap();
    let (text, diags) = print(&snapshot);
    assert!(!text.contains("outline"));
    assert_eq!(diags.len(), 1);
    assert!(matches!(
        &diags[0],
        Diagnostic::UnmappedColumn { table, column } if table == "shapes" && column == "outline"
    ));
}

#[test]
fn nullability_becomes_optionality() {
    let c = col("content", SqlTypeTag::Text, true, 0);
    let m = map_column(&c).unwrap();
    assert_eq!(m.kind, ScalarKind::String);
    assert!(m.is_optional);
    assert_eq!(m.name, "content");
}

#[test]
fn snapshot_rejects_duplicate_table_names() {
    let a = TableDescriptor {
        name: String::from("users"),
        columns: vec![col("id", SqlTypeTag::Integer, false, 0)],
        primary_key: vec![String::from("id")],
    };
    let b = TableDescriptor {
        name: String::from("users"),
        columns: vec![col("id", SqlTypeTag::Integer, false, 0)],
        primary_key: vec![String::from("id")],
    };
    assert!(SchemaSnapshot::new(vec![a, b], vec![]).is_none());
}
