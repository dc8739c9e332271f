//! CSV rendering of the report tables. A field that contains a comma, a
//! quote character or a line break is wrapped in quotes with its internal
//! quotes doubled; any other field is emitted bare. A row renders as its
//! three escaped fields joined by commas and ended by a newline.

use vstd::prelude::*;
use vstd::string::StrSliceExecFns;

use crate::report::{Row, RowModel};

verus! {

/// Whether a field must be quoted on output: it contains a comma, a quote
/// character or a line break.
pub open spec fn spec_needs_quoting(s: Seq<char>) -> bool {
    s.contains(',') || s.contains('"') || s.contains('\n')
}

/// The field's characters with every quote character doubled.
pub open spec fn spec_double_quotes(s: Seq<char>) -> Seq<char>
    decreases s.len(),
{
    if s.len() == 0 {
        Seq::empty()
    } else if s.first() == '"' {
        seq!['"', '"'] + spec_double_quotes(s.drop_first())
    } else {
        seq![s.first()] + spec_double_quotes(s.drop_first())
    }
}

/// The CSV escaping of a field: wrapped in quotes with internal quotes
/// doubled where quoting is needed, and unchanged otherwise.
pub open spec fn spec_escape_csv(s: Seq<char>) -> Seq<char> {
    if spec_needs_quoting(s) {
        seq!['"'] + spec_double_quotes(s) + seq!['"']
    } else {
        s
    }
}

/// The standard CSV reading of one raw field: a field wrapped in quotes has
/// them stripped and its doubled internal quotes undoubled; any other field
/// is read as it stands.
pub open spec fn spec_csv_parse_field(s: Seq<char>) -> Seq<char> {
    if s.len() >= 2 && s.first() == '"' && s.last() == '"' {
        spec_undouble_quotes(s.subrange(1, s.len() - 1))
    } else {
        s
    }
}

/// The quoted field body with each doubled quote read back as one quote.
pub open spec fn spec_undouble_quotes(s: Seq<char>) -> Seq<char>
    decreases s.len(),
{
    if s.len() == 0 {
        Seq::empty()
    } else if s.first() == '"' && s.len() >= 2 {
        seq!['"'] + spec_undouble_quotes(s.skip(2))
    } else {
        seq![s.first()] + spec_undouble_quotes(s.drop_first())
    }
}

/// Undoubling inverts doubling.
proof fn lemma_undouble_double(s: Seq<char>)
    ensures
        spec_undouble_quotes(spec_double_quotes(s)) == s,
    decreases s.len(),
{
    if s.len() == 0 {
        assert(spec_undouble_quotes(spec_double_quotes(s)) =~= s);
    } else {
        lemma_undouble_double(s.drop_first());
        let d = spec_double_quotes(s);
        if s.first() == '"' {
            assert(d.skip(2) =~= spec_double_quotes(s.drop_first()));
            assert(spec_undouble_quotes(d) =~= s);
        } else {
            assert(d.drop_first() =~= spec_double_quotes(s.drop_first()));
            assert(spec_undouble_quotes(d) =~= s);
        }
    }
}

/// Law: CSV escaping round-trips. Escaping any field and reading the result
/// back under the standard CSV quoting rules — strip the wrapping quotes,
/// undouble internal quotes — recovers the field exactly.
pub proof fn lemma_csv_round_trip(s: Seq<char>)
    ensures
        spec_csv_parse_field(spec_escape_csv(s)) == s,
{
    if spec_needs_quoting(s) {
        let e = spec_escape_csv(s);
        assert(e.len() >= 2 && e.first() == '"' && e.last() == '"');
        assert(e.subrange(1, e.len() - 1) =~= spec_double_quotes(s));
        lemma_undouble_double(s);
    } else {
        let e = spec_escape_csv(s);
        if e.len() >= 2 && e.first() == '"' && e.last() == '"' {
            assert(s.contains('"'));
        }
    }
}

/// Doubling distributes over appending one character.
proof fn lemma_double_quotes_push(s: Seq<char>, c: char)
    ensures
        spec_double_quotes(s.push(c)) == spec_double_quotes(s) + (if c == '"' {
            seq!['"', '"']
        } else {
            seq![c]
        }),
    decreases s.len(),
{
    if s.len() == 0 {
        assert(s.push(c).drop_first() =~= s);
        assert(spec_double_quotes(s.push(c)) =~= spec_double_quotes(s) + (if c == '"' {
            seq!['"', '"']
        } else {
            seq![c]
        }));
    } else {
        lemma_double_quotes_push(s.drop_first(), c);
        assert(s.push(c).drop_first() =~= s.drop_first().push(c));
        assert(s.push(c).first() == s.first());
        assert(spec_double_quotes(s.push(c)) == (if s.first() == '"' {
            seq!['"', '"']
        } else {
            seq![s.first()]
        }) + spec_double_quotes(s.drop_first().push(c)));
        assert(spec_double_quotes(s.push(c)) =~= spec_double_quotes(s) + (if c == '"' {
            seq!['"', '"']
        } else {
            seq![c]
        }));
    }
}

/// Reports whether the field contains a comma, a quote character or a line
/// break, and so must be quoted on output.
fn needs_quoting(field: &str) -> (b: bool)
    ensures
        b == spec_needs_quoting(field@),
{
    let n = field.unicode_len();
    let mut i: usize = 0;
    while i < n
        invariant
            n == field@.len(),
            i <= n,
            forall|j: int|
                0 <= j < i ==> field@[j] != ',' && field@[j] != '"' && field@[j] != '\n',
        decreases n - i,
    {
        let c = field.get_char(i);
        if c == ',' || c == '"' || c == '\n' {
            return true;
        }
        i = i + 1;
    }
    false
}

/// Escapes one field for CSV output: a field containing a comma, a quote
/// character or a line break is wrapped in quote characters with internal
/// quote characters doubled; any other field is returned unchanged.
pub fn escape_csv_field(field: &str) -> (r: String)
    ensures
        r@ == spec_escape_csv(field@),
{
    if !needs_quoting(field) {
        return field.to_owned();
    }
    proof {
        reveal_strlit("\"");
    }
    let mut r = String::from_str("\"");
    let n = field.unicode_len();
    for i in 0..n
        invariant
            n == field@.len(),
            spec_needs_quoting(field@),
            r@ == seq!['"'] + spec_double_quotes(field@.take(i as int)),
    {
        proof {
            reveal_strlit("\"\"");
        }
        let c = field.get_char(i);
        if c == '"' {
            r.append("\"\"");
            proof {
                assert("\"\""@ =~= seq!['"', '"']);
            }
        } else {
            r.append(field.substring_char(i, i + 1));
            proof {
                assert(field@.subrange(i as int, i + 1) =~= seq![field@[i as int]]);
            }
        }
        proof {
            lemma_double_quotes_push(field@.take(i as int), field@[i as int]);
            assert(field@.take(i + 1) =~= field@.take(i as int).push(field@[i as int]));
            assert(r@ =~= seq!['"'] + spec_double_quotes(field@.take(i + 1)));
        }
    }
    r.append("\"");
    proof {
        assert(field@.take(n as int) =~= field@);
        assert(r@ =~= spec_escape_csv(field@));
    }
    r
}

/// The CSV rendering of one row: its three escaped fields joined by commas,
/// ended by a newline.
pub open spec fn spec_csv_line(r: RowModel) -> Seq<char> {
    spec_escape_csv(r.col0) + ","@ + spec_escape_csv(r.col1) + ","@ + spec_escape_csv(r.col2)
        + "\n"@
}

/// Renders one report row as a CSV line.
pub fn csv_line(row: &Row) -> (r: String)
    ensures
        r@ == spec_csv_line(row.deep_view()),
{
    let mut r = escape_csv_field(row.col0.as_str());
    r.append(",");
    let f1 = escape_csv_field(row.col1.as_str());
    r.append(f1.as_str());
    r.append(",");
    let f2 = escape_csv_field(row.col2.as_str());
    r.append(f2.as_str());
    r.append("\n");
    proof {
        assert(r@ =~= spec_csv_line(row.deep_view()));
    }
    r
}

/// The CSV rendering of a whole table: the rendering of each row, in order.
pub open spec fn spec_csv_text(rows: Seq<RowModel>) -> Seq<char>
    decreases rows.len(),
{
    if rows.len() == 0 {
        Seq::empty()
    } else {
        spec_csv_text(rows.drop_last()) + spec_csv_line(rows.last())
    }
}

/// Renders a whole report table as CSV text, one line per row, in order.
pub fn render_table(rows: &Vec<Row>) -> (r: String)
    ensures
        r@ == spec_csv_text(rows.deep_view()),
{
    let ghost models: Seq<RowModel> = rows.deep_view();
    let mut r = String::new();
    let n = rows.len();
    for i in 0..n
        invariant
            n == rows.len(),
            models == rows.deep_view(),
            r@ == spec_csv_text(models.take(i as int)),
    {
        let line = csv_line(&rows[i]);
        r.append(line.as_str());
        proof {
            assert(models.take(i + 1).drop_last() =~= models.take(i as int));
            assert(models.take(i + 1).last() == models[i as int]);
        }
    }
    proof {
        assert(models.take(n as int) =~= models);
    }
    r
}

} // verus!
