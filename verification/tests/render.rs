use taotie::render::render_table;
use taotie::table::Cell;
use taotie::table::Field;
use taotie::table::Table;
use taotie::text::i64_to_string;
use taotie::text::u64_to_string;

#[test]
fn decimal_rendering_is_exact() {
    assert_eq!(u64_to_string(0), "0");
    assert_eq!(u64_to_string(7), "7");
    assert_eq!(u64_to_string(12345), "12345");
    assert_eq!(u64_to_string(18446744073709551615), "18446744073709551615");
    assert_eq!(i64_to_string(-1), "-1");
    assert_eq!(i64_to_string(-9223372036854775808), "-9223372036854775808");
    assert_eq!(i64_to_string(42), "42");
}

#[test]
fn render_aligns_columns() {
    let t = Table::new(
        vec![Field::new("name", false), Field::new("age", true)],
        vec![
            vec![Cell::Text("ada".to_string()), Cell::Num(31)],
            vec![Cell::Text("brian".to_string()), Cell::Null],
        ],
    )
    .unwrap();
    let s = render_table(&t);
    assert_eq!(s, "name  age\nada   31 \nbrian    \n");
}

#[test]
fn render_header_only_for_empty_table() {
    let t = Table::new(vec![Field::new("x", true)], vec![]).unwrap();
    assert_eq!(render_table(&t), "x\n");
}

#[test]
fn render_zero_field_table_is_blank_lines() {
    let t = Table::new(vec![], vec![vec![], vec![]]).unwrap();
    assert_eq!(render_table(&t), "\n\n\n");
}
