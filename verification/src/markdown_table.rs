//! A table in Markdown.

use vstd::prelude::*;
use vstd::string::StringExecFns;

verus! {

/// The texts of `parts`, in order.
pub open spec fn text_views(parts: Seq<String>) -> Seq<Seq<char>> {
    Seq::new(parts.len(), |i: int| parts[i]@)
}

/// The texts of the cells of `rows`, row by row.
pub open spec fn row_views(rows: Seq<Vec<String>>) -> Seq<Seq<Seq<char>>> {
    Seq::new(rows.len(), |i: int| text_views(rows[i]@))
}

/// The parts with `sep` between each two of them.
pub open spec fn spec_join(parts: Seq<Seq<char>>, sep: Seq<char>) -> Seq<char>
    decreases parts.len(),
{
    if parts.len() == 0 {
        Seq::empty()
    } else if parts.len() == 1 {
        parts[0]
    } else {
        spec_join(parts.drop_last(), sep) + sep + parts.last()
    }
}

/// A line of the head of the table: the parts between bars.
pub open spec fn spec_head_line(parts: Seq<Seq<char>>) -> Seq<char> {
    "| "@ + spec_join(parts, " | "@) + " |\n"@
}

/// The cells of a row, each followed by a bar.
pub open spec fn spec_cells(cells: Seq<Seq<char>>) -> Seq<char>
    decreases cells.len(),
{
    if cells.len() == 0 {
        Seq::empty()
    } else {
        spec_cells(cells.drop_last()) + " "@ + cells.last() + " |"@
    }
}

/// One row of the table: a bar, the cells, and the end of the line. A row
/// without cells is an empty line.
pub open spec fn spec_row(cells: Seq<Seq<char>>) -> Seq<char> {
    if cells.len() == 0 {
        "\n"@
    } else {
        "|"@ + spec_cells(cells) + "\n"@
    }
}

/// The rows of the table, one after the other.
pub open spec fn spec_rows(rows: Seq<Seq<Seq<char>>>) -> Seq<char>
    decreases rows.len(),
{
    if rows.len() == 0 {
        Seq::empty()
    } else {
        spec_rows(rows.drop_last()) + spec_row(rows.last())
    }
}

/// The table: a line with the names of the fields, a line with a rule for
/// each field, and the rows.
pub open spec fn spec_markdown_table(names: Seq<Seq<char>>, rows: Seq<Seq<Seq<char>>>) -> Seq<
    char,
> {
    spec_head_line(names) + spec_head_line(Seq::new(names.len(), |i: int| "---"@)) + spec_rows(
        rows,
    )
}

/// The parts with `sep` between each two of them.
pub fn join(parts: &[String], sep: &str) -> (r: String)
    ensures
        r@ == spec_join(text_views(parts@), sep@),
{
    let mut out = String::from_str("");
    proof {
        reveal_strlit("");
    }
    let mut i: usize = 0;
    assert(text_views(parts@).take(0) =~= Seq::<Seq<char>>::empty());
    while i < parts.len()
        invariant
            i <= parts.len(),
            out@ == spec_join(text_views(parts@).take(i as int), sep@),
        decreases parts.len() - i,
    {
        let ghost done = text_views(parts@).take(i as int);
        let ghost next = text_views(parts@).take(i + 1);
        assert(next.drop_last() =~= done);
        assert(next.last() == parts@[i as int]@);
        if i > 0 {
            out.append(sep);
        }
        out.append(parts[i].as_str());
        assert(out@ =~= spec_join(next, sep@));
        i += 1;
    }
    assert(text_views(parts@).take(parts.len() as int) =~= text_views(parts@));
    out
}

/// Renders a table in Markdown: the names of the fields, a rule under each
/// name, and one line for each row of cells.
pub fn markdown_table(field_names: &[String], rows: &[Vec<String>]) -> (r: String)
    ensures
        r@ == spec_markdown_table(text_views(field_names@), row_views(rows@)),
{
    // 'field1 | field2 | field3'
    let header = join(field_names, " | ");
    let mut out = String::from_str("| ");
    out.append(header.as_str());
    out.append(" |\n");

    // ' --- | --- | ---'
    let mut rules: Vec<String> = Vec::new();
    let mut k: usize = 0;
    while k < field_names.len()
        invariant
            k <= field_names.len(),
            rules.len() == k,
            forall|j: int| 0 <= j < k ==> rules@[j]@ == "---"@,
        decreases field_names.len() - k,
    {
        rules.push(String::from_str("---"));
        k += 1;
    }
    assert(text_views(rules@) =~= Seq::new(text_views(field_names@).len(), |i: int| "---"@));
    let sep = join(rules.as_slice(), " | ");
    out.append("| ");
    out.append(sep.as_str());
    out.append(" |\n");

    let ghost head = out@;
    assert(head =~= spec_head_line(text_views(field_names@)) + spec_head_line(
        Seq::new(text_views(field_names@).len(), |i: int| "---"@),
    ));
    let mut row: usize = 0;
    assert(row_views(rows@).take(0) =~= Seq::<Seq<Seq<char>>>::empty());
    while row < rows.len()
        invariant
            row <= rows.len(),
            out@ == head + spec_rows(row_views(rows@).take(row as int)),
        decreases rows.len() - row,
    {
        let ghost before = out@;
        let cells = &rows[row];
        let ghost texts = text_views(cells@);
        let mut idx: usize = 0;
        assert(texts.take(0) =~= Seq::<Seq<char>>::empty());
        while idx < cells.len()
            invariant
                idx <= cells.len(),
                texts == text_views(cells@),
                out@ == before + if idx == 0 {
                    Seq::<char>::empty()
                } else {
                    "|"@ + spec_cells(texts.take(idx as int))
                },
            decreases cells.len() - idx,
        {
            let ghost done = texts.take(idx as int);
            let ghost next = texts.take(idx + 1);
            assert(next.drop_last() =~= done);
            assert(next.last() == cells@[idx as int]@);
            if idx == 0 {
                out.append("|");
            }
            out.append(" ");
            out.append(cells[idx].as_str());
            out.append(" |");
            assert(out@ =~= before + ("|"@ + spec_cells(next)));
            idx += 1;
        }
        out.append("\n");
        proof {
            assert(texts.take(cells.len() as int) =~= texts);
            let views = row_views(rows@);
            assert(views.take(row + 1).drop_last() =~= views.take(row as int));
            assert(views.take(row + 1).last() == texts);
            assert(out@ =~= head + spec_rows(views.take(row + 1)));
        }
        row += 1;
    }
    assert(row_views(rows@).take(rows.len() as int) =~= row_views(rows@));
    out
}

} // verus!
