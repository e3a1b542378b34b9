use rayexec_execution::arrays::array::Array;
use rayexec_execution::arrays::batch::Batch;
use rayexec_execution::arrays::physical_type::PhysicalI32;
use rayexec_execution::arrays::scalar::ScalarValue;
use rayexec_execution::markdown_table::{join, markdown_table};

fn cell_text(value: ScalarValue) -> String {
    match value {
        ScalarValue::Null => String::new(),
        ScalarValue::Int32(v) => v.to_string(),
        ScalarValue::Utf8(v) => v,
        other => panic!("unexpected value {other:?}"),
    }
}

#[test]
fn simple() {
    let batch = Batch::try_new(vec![
        Array::from_values::<PhysicalI32>(vec![1, 2, 3]),
        Array::from_strs(&vec!["cat", "dog", "mouse"]).unwrap(),
    ])
    .unwrap();

    let names = vec!["Numbers".to_string(), "Strings".to_string()];

    let mut rows = Vec::new();
    for row in 0..batch.num_rows() {
        let mut cells = Vec::new();
        for column in batch.columns() {
            cells.push(cell_text(column.logical_value(row).unwrap()));
        }
        rows.push(cells);
    }

    let buf = markdown_table(&names, &rows);

    let expected = "| Numbers | Strings |\n| --- | --- |\n| 1 | cat |\n| 2 | dog |\n| 3 | mouse |\n";

    assert_eq!(expected, buf);
}

#[test]
fn table_edges() {
    assert_eq!(markdown_table(&[], &[]), "|  |\n|  |\n");
    assert_eq!(
        markdown_table(&["a".to_string()], &[vec![], vec!["".to_string()], vec!["x".to_string()]]),
        "| a |\n| --- |\n\n|  |\n| x |\n"
    );
    assert_eq!(join(&[], ", "), "");
    assert_eq!(join(&["a".to_string()], ", "), "a");
    assert_eq!(join(&["a".to_string(), "b".to_string(), "c".to_string()], ", "), "a, b, c");
}
