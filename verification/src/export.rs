//! CSV, JSON and plain-text exports of sheet and table data. Each export is
//! built as the exact text to be written out.

use vstd::prelude::*;
use crate::cell::{all_digits, display_text, has_leading_zero, parse_i64_text, raw_text, CellValue};
use crate::number::{is_finite, spec_is_finite};
use crate::sheet::{texts_view, SheetData, TableData};
use crate::text::{chars_of, contains, contains_text, decimal, has_char, is_ascii_digit, push_char, push_decimal, push_str, signed_decimal, string_of};

verus! {

// ===== Joining =====

/// `items` joined with `sep` between consecutive items.
pub open spec fn join(items: Seq<Seq<char>>, sep: Seq<char>) -> Seq<char>
    decreases items.len(),
{
    if items.len() == 0 {
        Seq::<char>::empty()
    } else if items.len() == 1 {
        items[0]
    } else {
        join(items.drop_last(), sep) + sep + items.last()
    }
}

/// Lines, each followed by a newline.
pub open spec fn lines_text(lines: Seq<Seq<char>>) -> Seq<char>
    decreases lines.len(),
{
    if lines.len() == 0 {
        Seq::<char>::empty()
    } else {
        lines_text(lines.drop_last()) + lines.last() + seq!['\n']
    }
}

/// Appends `items` joined with `sep`.
pub fn push_joined(s: &mut String, items: &Vec<String>, sep: &str)
    ensures
        final(s)@ == old(s)@ + join(texts_view(items@), sep@),
{
    let ghost start = s@;
    let mut i: usize = 0;
    while i < items.len()
        invariant
            i <= items@.len(),
            s@ == start + join(texts_view(items@.subrange(0, i as int)), sep@),
        decreases items.len() - i,
    {
        proof {
            let p = texts_view(items@.subrange(0, i + 1));
            assert(p.drop_last() =~= texts_view(items@.subrange(0, i as int)));
            assert(p.last() == items@[i as int]@);
        }
        if i > 0 {
            push_str(s, sep);
        }
        push_str(s, items[i].as_str());
        i = i + 1;
        proof {
            if i == 1 {
                assert(texts_view(items@.subrange(0, 0)) =~= Seq::<Seq<char>>::empty());
            }
            assert(s@ =~= start + join(texts_view(items@.subrange(0, i as int)), sep@));
        }
    }
    proof {
        assert(items@.subrange(0, items@.len() as int) =~= items@);
    }
}

/// A row's cells, each CSV-quoted for `delimiter` by its raw text, joined
/// with `delimiter` (one line of a delimited export, without the newline).
pub fn quoted_row(row: &Vec<CellValue>, delimiter: &str) -> (s: String)
    ensures
        s@ == join(csv_cells(row@, delimiter@), delimiter@),
{
    let t = row_texts(row, Some(delimiter));
    let mut s = string_of("");
    proof {
        reveal_strlit("");
    }
    push_joined(&mut s, &t, delimiter);
    s
}

// ===== CSV =====

/// `s` with every `c` replaced by `r`.
pub open spec fn replace_char(s: Seq<char>, c: char, r: Seq<char>) -> Seq<char>
    decreases s.len(),
{
    if s.len() == 0 {
        Seq::<char>::empty()
    } else {
        replace_char(s.drop_last(), c, r) + (if s.last() == c { r } else { seq![s.last()] })
    }
}

/// A CSV field, quoted (with quotes doubled) when it holds the delimiter, a
/// quote or a newline.
pub open spec fn csv_quoted(value: Seq<char>, delimiter: Seq<char>) -> Seq<char> {
    if contains_text(value, delimiter) || value.contains('"') || value.contains('\n') {
        seq!['"'] + replace_char(value, '"', seq!['"', '"']) + seq!['"']
    } else {
        value
    }
}

/// The text inside a quoted CSV field, with each doubled quote read as one.
pub open spec fn undoubled_quotes(s: Seq<char>) -> Seq<char>
    decreases s.len(),
{
    if s.len() == 0 {
        Seq::<char>::empty()
    } else if s.len() >= 2 && s[0] == '"' && s[1] == '"' {
        seq!['"'] + undoubled_quotes(s.skip(2))
    } else {
        seq![s[0]] + undoubled_quotes(s.skip(1))
    }
}

/// What a CSV reader makes of one field: a field in quotes is the text
/// between them with doubled quotes undone; any other field is itself.
pub open spec fn csv_unquoted(field: Seq<char>) -> Seq<char> {
    if field.len() >= 2 && field[0] == '"' && field.last() == '"' {
        undoubled_quotes(field.subrange(1, field.len() - 1))
    } else {
        field
    }
}

proof fn lemma_replace_char_front(x: char, s: Seq<char>, c: char, r: Seq<char>)
    ensures
        replace_char(seq![x] + s, c, r) == (if x == c { r } else { seq![x] }) + replace_char(s, c, r),
    decreases s.len(),
{
    let t = seq![x] + s;
    if s.len() == 0 {
        assert(t.drop_last() =~= Seq::<char>::empty());
        assert(t.last() == x);
        assert(replace_char(Seq::<char>::empty(), c, r) == Seq::<char>::empty());
        assert(replace_char(t, c, r) =~= (if x == c { r } else { seq![x] }) + replace_char(s, c, r));
    } else {
        assert(t.drop_last() =~= seq![x] + s.drop_last());
        assert(t.last() == s.last());
        lemma_replace_char_front(x, s.drop_last(), c, r);
        assert(replace_char(t, c, r) =~= (if x == c { r } else { seq![x] }) + replace_char(s, c, r));
    }
}

proof fn lemma_undouble_doubled(v: Seq<char>)
    ensures
        undoubled_quotes(replace_char(v, '"', seq!['"', '"'])) == v,
    decreases v.len(),
{
    if v.len() == 0 {
        assert(replace_char(v, '"', seq!['"', '"']) == Seq::<char>::empty());
    } else {
        let rest = v.skip(1);
        assert(v =~= seq![v[0]] + rest);
        lemma_replace_char_front(v[0], rest, '"', seq!['"', '"']);
        lemma_undouble_doubled(rest);
        let rr = replace_char(rest, '"', seq!['"', '"']);
        let t = replace_char(v, '"', seq!['"', '"']);
        if v[0] == '"' {
            assert(t =~= seq!['"', '"'] + rr);
            assert(t.skip(2) =~= rr);
        } else {
            assert(t =~= seq![v[0]] + rr);
            assert(t.skip(1) =~= rr);
        }
        assert(undoubled_quotes(t) =~= v);
    }
}

/// Every field the CSV exports write reads back as itself; a field written
/// without quotes holds no quote, no line break and no delimiter.
pub proof fn csv_field_reads_back(value: Seq<char>, delimiter: Seq<char>)
    ensures
        csv_unquoted(csv_quoted(value, delimiter)) == value,
        csv_quoted(value, delimiter) == value ==> !value.contains('"') && !value.contains('\n')
            && !contains_text(value, delimiter),
{
    let q = csv_quoted(value, delimiter);
    if contains_text(value, delimiter) || value.contains('"') || value.contains('\n') {
        let inner = replace_char(value, '"', seq!['"', '"']);
        assert(q.subrange(1, q.len() - 1) =~= inner);
        lemma_undouble_doubled(value);
        if q == value {
            assert(value[0] == '"');
            assert(value.contains('"'));
            assert(value.len() == inner.len() + 2);
            lemma_replace_char_len(value, '"', seq!['"', '"']);
        }
    } else {
        if value.len() >= 2 && value[0] == '"' {
            assert(value.contains('"'));
        }
    }
}

proof fn lemma_replace_char_len(s: Seq<char>, c: char, r: Seq<char>)
    requires
        r.len() >= 1,
    ensures
        replace_char(s, c, r).len() >= s.len(),
    decreases s.len(),
{
    if s.len() > 0 {
        lemma_replace_char_len(s.drop_last(), c, r);
    }
}

/// Quote a CSV field when it contains the delimiter, a quote, or a newline,
/// escaping embedded quotes by doubling them.
pub fn csv_quote(value: String, delimiter: &str) -> (s: String)
    ensures
        s@ == csv_quoted(value@, delimiter@),
{
    let v = chars_of(value.as_str());
    let d = chars_of(delimiter);
    if contains(&v, &d) || has_char(&v, '"') || has_char(&v, '\n') {
        let mut s = string_of("\"");
        proof {
            reveal_strlit("\"");
            assert(s@ =~= seq!['"']);
        }
        let mut i: usize = 0;
        while i < v.len()
            invariant
                i <= v@.len(),
                s@ == seq!['"'] + replace_char(v@.subrange(0, i as int), '"', seq!['"', '"']),
            decreases v.len() - i,
        {
            proof {
                let p = v@.subrange(0, i + 1);
                assert(p.drop_last() =~= v@.subrange(0, i as int));
                assert(p.last() == v@[i as int]);
            }
            if v[i] == '"' {
                push_char(&mut s, '"');
                push_char(&mut s, '"');
            } else {
                push_char(&mut s, v[i]);
            }
            i = i + 1;
            proof {
                assert(s@ =~= seq!['"'] + replace_char(v@.subrange(0, i as int), '"', seq!['"', '"']));
            }
        }
        push_char(&mut s, '"');
        proof {
            assert(v@.subrange(0, v@.len() as int) =~= v@);
        }
        s
    } else {
        value
    }
}

/// The raw texts of a row's cells, each CSV-quoted.
pub open spec fn csv_cells(row: Seq<CellValue>, delimiter: Seq<char>) -> Seq<Seq<char>> {
    row.map_values(|c: CellValue| csv_quoted(raw_text(c), delimiter))
}

/// The raw texts of a row's cells.
pub open spec fn raw_cells(row: Seq<CellValue>) -> Seq<Seq<char>> {
    row.map_values(|c: CellValue| raw_text(c))
}

fn row_texts(row: &Vec<CellValue>, quote_with: Option<&str>) -> (t: Vec<String>)
    ensures
        texts_view(t@) == match quote_with {
            Some(d) => csv_cells(row@, d@),
            None => raw_cells(row@),
        },
{
    let mut t: Vec<String> = Vec::new();
    let mut j: usize = 0;
    while j < row.len()
        invariant
            j <= row@.len(),
            t@.len() == j,
            forall|k: int| 0 <= k < j ==> (#[trigger] t@[k])@ == match quote_with {
                Some(d) => csv_quoted(raw_text(row@[k]), d@),
                None => raw_text(row@[k]),
            },
        decreases row.len() - j,
    {
        let raw = row[j].to_raw_string();
        match quote_with {
            Some(d) => t.push(csv_quote(raw, d)),
            None => t.push(raw),
        }
        j = j + 1;
    }
    proof {
        match quote_with {
            Some(d) => assert(texts_view(t@) =~= csv_cells(row@, d@)),
            None => assert(texts_view(t@) =~= raw_cells(row@)),
        }
    }
    t
}

fn headers_quoted(headers: &Vec<String>, delimiter: &str) -> (t: Vec<String>)
    ensures
        texts_view(t@) == texts_view(headers@).map_values(|h: Seq<char>| csv_quoted(h, delimiter@)),
{
    let mut t: Vec<String> = Vec::new();
    let mut j: usize = 0;
    while j < headers.len()
        invariant
            j <= headers@.len(),
            t@.len() == j,
            forall|k: int| 0 <= k < j ==> (#[trigger] t@[k])@ == csv_quoted(headers@[k]@, delimiter@),
        decreases headers.len() - j,
    {
        t.push(csv_quote(headers[j].clone(), delimiter));
        j = j + 1;
    }
    proof {
        assert(texts_view(t@) =~= texts_view(headers@).map_values(|h: Seq<char>| csv_quoted(h, delimiter@)));
    }
    t
}

/// The lines of a delimited export: the header line, then one line per row;
/// with `quote`, headers and cells are CSV-quoted.
pub open spec fn delimited_lines(headers: Seq<Seq<char>>, rows: Seq<Vec<CellValue>>, delimiter: Seq<char>, quote: bool) -> Seq<Seq<char>> {
    let header_line = if quote {
        join(headers.map_values(|h: Seq<char>| csv_quoted(h, delimiter)), delimiter)
    } else {
        join(headers, delimiter)
    };
    seq![header_line] + rows.map_values(|r: Vec<CellValue>| join(
        if quote { csv_cells(r@, delimiter) } else { raw_cells(r@) },
        delimiter,
    ))
}

fn delimited(headers: &Vec<String>, rows: &Vec<Vec<CellValue>>, delimiter: &str, quote: bool) -> (s: String)
    ensures
        s@ == lines_text(delimited_lines(texts_view(headers@), rows@, delimiter@, quote)),
{
    let ghost lines = delimited_lines(texts_view(headers@), rows@, delimiter@, quote);
    let mut s = string_of("");
    proof {
        reveal_strlit("");
        assert(s@ =~= Seq::<char>::empty());
    }
    if quote {
        let q = headers_quoted(headers, delimiter);
        push_joined(&mut s, &q, delimiter);
    } else {
        push_joined(&mut s, headers, delimiter);
    }
    push_char(&mut s, '\n');
    proof {
        let sub = lines.subrange(0, 1);
        assert(sub.drop_last() =~= Seq::<Seq<char>>::empty());
        assert(sub.last() == lines[0]);
        assert(lines_text(sub.drop_last()) =~= Seq::<char>::empty());
        let hs = texts_view(headers@);
        assert(lines[0] == (if quote {
            join(hs.map_values(|h: Seq<char>| csv_quoted(h, delimiter@)), delimiter@)
        } else {
            join(hs, delimiter@)
        }));
        assert(s@ =~= lines_text(sub));
    }
    let mut i: usize = 0;
    while i < rows.len()
        invariant
            i <= rows@.len(),
            lines == delimited_lines(texts_view(headers@), rows@, delimiter@, quote),
            s@ == lines_text(lines.subrange(0, i + 1)),
        decreases rows.len() - i,
    {
        let cells = row_texts(&rows[i], if quote { Some(delimiter) } else { None });
        push_joined(&mut s, &cells, delimiter);
        push_char(&mut s, '\n');
        i = i + 1;
        proof {
            let p = lines.subrange(0, i + 1);
            assert(p.drop_last() =~= lines.subrange(0, i as int));
            assert(p.last() == lines[i as int]);
        }
    }
    proof {
        assert(lines.subrange(0, rows@.len() + 1 as int) =~= lines);
    }
    s
}

/// CSV export of a sheet: header line and rows, every field CSV-quoted as needed.
pub fn export_csv(data: &SheetData, delimiter: &str) -> (s: String)
    ensures
        s@ == lines_text(delimited_lines(texts_view(data.headers@), data.rows@, delimiter@, true)),
{
    delimited(&data.headers, &data.rows, delimiter, true)
}

/// Text export of a sheet: header line and rows of raw values, unquoted.
pub fn export_text(data: &SheetData, delimiter: &str) -> (s: String)
    ensures
        s@ == lines_text(delimited_lines(texts_view(data.headers@), data.rows@, delimiter@, false)),
{
    delimited(&data.headers, &data.rows, delimiter, false)
}

/// CSV export of a table.
pub fn export_table_csv(table: &TableData, delimiter: &str) -> (s: String)
    ensures
        s@ == lines_text(delimited_lines(texts_view(table.headers@), table.rows@, delimiter@, true)),
{
    delimited(&table.headers, &table.rows, delimiter, true)
}

/// Text export of a table.
pub fn export_table_text(table: &TableData, delimiter: &str) -> (s: String)
    ensures
        s@ == lines_text(delimited_lines(texts_view(table.headers@), table.rows@, delimiter@, false)),
{
    delimited(&table.headers, &table.rows, delimiter, false)
}

// ===== JSON =====

pub open spec fn hex_digit(n: nat) -> char {
    if n < 10 { ((48 + n) as u8) as char } else { ((87 + n) as u8) as char }
}

/// JSON escape of one character: quotes, backslashes and control characters
/// are escaped, everything else is kept.
pub open spec fn json_escape_char(c: char) -> Seq<char> {
    if c == '"' {
        seq!['\\', '"']
    } else if c == '\\' {
        seq!['\\', '\\']
    } else if c == '\n' {
        seq!['\\', 'n']
    } else if c == '\r' {
        seq!['\\', 'r']
    } else if c == '\t' {
        seq!['\\', 't']
    } else if (c as u32) < 0x20 {
        seq!['\\', 'u', '0', '0', hex_digit((c as u32 / 16) as nat), hex_digit((c as u32 % 16) as nat)]
    } else {
        seq![c]
    }
}

pub open spec fn json_escape(s: Seq<char>) -> Seq<char>
    decreases s.len(),
{
    if s.len() == 0 {
        Seq::<char>::empty()
    } else {
        json_escape(s.drop_last()) + json_escape_char(s.last())
    }
}

/// A JSON string literal.
pub open spec fn json_string(s: Seq<char>) -> Seq<char> {
    seq!['"'] + json_escape(s) + seq!['"']
}

/// A cell as a JSON value: numbers and booleans bare (non-finite floats as
/// `null`), empty cells as `null`, everything else as a string of its display text.
pub open spec fn json_value(c: CellValue) -> Seq<char> {
    match c {
        CellValue::String(s) => json_string(s@),
        CellValue::Int(i) => signed_decimal(i as int),
        CellValue::Float(n) => if spec_is_finite(n.bits) { n.shortest@ } else { "null"@ },
        CellValue::Bool(b) => if b { "true"@ } else { "false"@ },
        CellValue::Empty => "null"@,
        _ => json_string(display_text(c)),
    }
}

/// The value of a hexadecimal digit.
pub open spec fn hex_value(c: char) -> nat {
    if '0' <= c && c <= '9' {
        (c as u32 - 48) as nat
    } else if 'a' <= c && c <= 'f' {
        (c as u32 - 87) as nat
    } else if 'A' <= c && c <= 'F' {
        (c as u32 - 55) as nat
    } else {
        0
    }
}

/// What a JSON reader makes of the inside of a string literal: an escape
/// sequence (`\"`, `\\`, `\/`, `\b`, `\f`, `\n`, `\r`, `\t`, or `\u`
/// and four hexadecimal digits) stands for its character, any other
/// character for itself.
pub open spec fn json_unescape(t: Seq<char>) -> Seq<char>
    decreases t.len(),
{
    if t.len() == 0 {
        Seq::<char>::empty()
    } else if t[0] == '\\' && t.len() >= 2 {
        let e = t[1];
        if e == 'u' && t.len() >= 6 {
            let code = hex_value(t[2]) * 4096 + hex_value(t[3]) * 256 + hex_value(t[4]) * 16 + hex_value(t[5]);
            seq![(code as u32) as char] + json_unescape(t.skip(6))
        } else {
            let c = if e == 'n' {
                '\n'
            } else if e == 'r' {
                '\r'
            } else if e == 't' {
                '\t'
            } else if e == 'b' {
                '\u{8}'
            } else if e == 'f' {
                '\u{c}'
            } else {
                e
            };
            seq![c] + json_unescape(t.skip(2))
        }
    } else {
        seq![t[0]] + json_unescape(t.skip(1))
    }
}

proof fn lemma_json_escape_front(c: char, s: Seq<char>)
    ensures
        json_escape(seq![c] + s) == json_escape_char(c) + json_escape(s),
    decreases s.len(),
{
    let t = seq![c] + s;
    if s.len() == 0 {
        assert(t.drop_last() =~= Seq::<char>::empty());
        assert(t.last() == c);
        assert(json_escape(Seq::<char>::empty()) == Seq::<char>::empty());
        assert(json_escape(t) =~= json_escape_char(c) + json_escape(s));
    } else {
        assert(t.drop_last() =~= seq![c] + s.drop_last());
        assert(t.last() == s.last());
        lemma_json_escape_front(c, s.drop_last());
        assert(json_escape(t) =~= json_escape_char(c) + json_escape(s));
    }
}

proof fn lemma_hex_digit_value(n: nat)
    requires
        n < 16,
    ensures
        hex_value(hex_digit(n)) == n,
        (hex_digit(n) as u32) >= 0x20,
{
    if n < 10 {
        assert(hex_digit(n) as u32 == 48 + n);
    } else {
        assert(hex_digit(n) as u32 == 87 + n);
    }
}

proof fn lemma_json_unescape_char(c: char, r: Seq<char>)
    ensures
        json_unescape(json_escape_char(c) + r) == seq![c] + json_unescape(r),
{
    let t = json_escape_char(c) + r;
    if c == '"' || c == '\\' || c == '\n' || c == '\r' || c == '\t' {
        assert(t.skip(2) =~= r);
    } else if (c as u32) < 0x20 {
        let u = c as u32;
        lemma_hex_digit_value((u / 16) as nat);
        lemma_hex_digit_value((u % 16) as nat);
        assert(t.skip(6) =~= r);
        assert(hex_value('0') == 0);
        let code = hex_value(t[2]) * 4096 + hex_value(t[3]) * 256 + hex_value(t[4]) * 16 + hex_value(t[5]);
        assert(code == u);
        assert(((u as u32) as char) == c);
    } else {
        assert(t.skip(1) =~= r);
    }
}

proof fn lemma_escaped_char_printable(c: char)
    ensures
        forall|i: int| 0 <= i < json_escape_char(c).len() ==> (json_escape_char(c)[i] as u32) >= 0x20,
{
    if !(c == '"' || c == '\\' || c == '\n' || c == '\r' || c == '\t') && (c as u32) < 0x20 {
        let u = c as u32;
        lemma_hex_digit_value((u / 16) as nat);
        lemma_hex_digit_value((u % 16) as nat);
    }
}

/// Every text the exports write as a JSON string reads back as itself, and
/// its escaped form holds no control characters, which JSON does not allow
/// inside a string.
pub proof fn json_string_reads_back(s: Seq<char>)
    ensures
        json_unescape(json_escape(s)) == s,
        forall|i: int| 0 <= i < json_escape(s).len() ==> (json_escape(s)[i] as u32) >= 0x20,
    decreases s.len(),
{
    if s.len() == 0 {
        assert(json_unescape(json_escape(s)) =~= s);
    } else {
        let rest = s.skip(1);
        assert(s =~= seq![s[0]] + rest);
        lemma_json_escape_front(s[0], rest);
        json_string_reads_back(rest);
        lemma_json_unescape_char(s[0], json_escape(rest));
        assert(json_unescape(json_escape(s)) =~= s);
        lemma_escaped_char_printable(s[0]);
        let e = json_escape_char(s[0]);
        assert forall|i: int| 0 <= i < json_escape(s).len() implies (json_escape(s)[i] as u32) >= 0x20 by {
            if i < e.len() {
                assert(json_escape(s)[i] == e[i]);
            } else {
                assert(json_escape(s)[i] == json_escape(rest)[i - e.len()]);
            }
        }
    }
}

/// An integer cell is exported to JSON as a bare JSON number: it parses as
/// an integer (the way `str::parse::<i64>` reads one) back to the cell's
/// value, with no sign but a minus and no leading zero.
pub proof fn json_integers_are_numbers(i: i64)
    ensures
        parse_i64_text(json_value(CellValue::Int(i))) == Some(i),
        json_value(CellValue::Int(i))[0] != '+',
        !has_leading_zero(json_value(CellValue::Int(i))),
{
    crate::cell::lemma_integer_field(i);
    let t = json_value(CellValue::Int(i));
    assert(parse_i64_text(t) == Some(i));
    if t[0] == '+' {
        assert(t.len() > 0);
        assert(parse_i64_text(t) is Some);
        assert(all_digits(t.subrange(1, t.len() as int)));
        let n: nat = if i < 0 { (-(i as int)) as nat } else { i as nat };
        crate::jump::lemma_decimal_digits(n);
        assert(is_ascii_digit(t[0]));
    }
}

fn push_json_string(s: &mut String, t: &str)
    ensures
        final(s)@ == old(s)@ + json_string(t@),
{
    let v = chars_of(t);
    let ghost start = s@;
    push_char(s, '"');
    let mut i: usize = 0;
    while i < v.len()
        invariant
            i <= v@.len(),
            v@ == t@,
            s@ == start + seq!['"'] + json_escape(v@.subrange(0, i as int)),
        decreases v.len() - i,
    {
        let c = v[i];
        let ghost before = s@;
        if c == '"' {
            push_char(s, '\\');
            push_char(s, '"');
        } else if c == '\\' {
            push_char(s, '\\');
            push_char(s, '\\');
        } else if c == '\n' {
            push_char(s, '\\');
            push_char(s, 'n');
        } else if c == '\r' {
            push_char(s, '\\');
            push_char(s, 'r');
        } else if c == '\t' {
            push_char(s, '\\');
            push_char(s, 't');
        } else if (c as u32) < 0x20 {
            let u = c as u32;
            push_char(s, '\\');
            push_char(s, 'u');
            push_char(s, '0');
            push_char(s, '0');
            push_char(s, if u / 16 < 10 { (48u8 + (u / 16) as u8) as char } else { (87u8 + (u / 16) as u8) as char });
            push_char(s, if u % 16 < 10 { (48u8 + (u % 16) as u8) as char } else { (87u8 + (u % 16) as u8) as char });
        } else {
            push_char(s, c);
        }
        proof {
            assert(s@ =~= before + json_escape_char(c));
            let p = v@.subrange(0, i + 1);
            assert(p.drop_last() =~= v@.subrange(0, i as int));
            assert(p.last() == c);
        }
        i = i + 1;
    }
    push_char(s, '"');
    proof {
        assert(v@.subrange(0, v@.len() as int) =~= v@);
        assert(s@ =~= start + json_string(t@));
    }
}

fn json_cell(cell: &CellValue) -> (s: String)
    ensures
        s@ == json_value(*cell),
{
    match cell {
        CellValue::String(t) => {
            let mut s = string_of("");
            proof {
                reveal_strlit("");
            }
            push_json_string(&mut s, t.as_str());
            proof {
                assert(s@ =~= json_value(*cell));
            }
            s
        },
        CellValue::Int(i) => crate::text::i64_to_string(*i),
        CellValue::Float(n) => if is_finite(n.bits) { n.shortest.clone() } else { string_of("null") },
        CellValue::Bool(b) => if *b { string_of("true") } else { string_of("false") },
        CellValue::Empty => string_of("null"),
        _ => {
            let d = cell.to_string();
            let mut s = string_of("");
            proof {
                reveal_strlit("");
            }
            push_json_string(&mut s, d.as_str());
            proof {
                assert(s@ =~= json_value(*cell));
            }
            s
        },
    }
}

/// `    "<h>"` lines, with a comma after every item but the last.
pub open spec fn json_header_items(headers: Seq<Seq<char>>) -> Seq<Seq<char>> {
    Seq::new(headers.len(), |i: int| "    "@ + json_string(headers[i])
        + if i < headers.len() - 1 { ","@ } else { Seq::<char>::empty() })
}

/// `    [<v>, <v>]` lines, with a comma after every row but the last.
pub open spec fn json_row_items(rows: Seq<Vec<CellValue>>) -> Seq<Seq<char>> {
    Seq::new(rows.len(), |i: int| "    ["@ + join(rows[i]@.map_values(|c: CellValue| json_value(c)), ", "@) + "]"@
        + if i < rows.len() - 1 { ","@ } else { Seq::<char>::empty() })
}

/// The lines of a JSON export after its leading key lines.
pub open spec fn json_body(headers: Seq<Seq<char>>, rows: Seq<Vec<CellValue>>) -> Seq<Seq<char>> {
    seq!["  \"headers\": ["@] + json_header_items(headers) + seq!["  ],"@, "  \"data\": ["@]
        + json_row_items(rows) + seq!["  ]"@, "}"@]
}

/// A line `  "<key>": <value>,`.
pub open spec fn json_key_line(key: Seq<char>, value: Seq<char>) -> Seq<char> {
    "  "@ + json_string(key) + ": "@ + value + ","@
}

fn key_line(key: &str, value: &str) -> (s: String)
    ensures
        s@ == json_key_line(key@, value@),
{
    let mut s = string_of("  ");
    push_json_string(&mut s, key);
    push_str(&mut s, ": ");
    push_str(&mut s, value);
    push_str(&mut s, ",");
    s
}

fn json_string_value(t: &str) -> (s: String)
    ensures
        s@ == json_string(t@),
{
    let mut s = string_of("");
    proof {
        reveal_strlit("");
    }
    push_json_string(&mut s, t);
    proof {
        assert(s@ =~= json_string(t@));
    }
    s
}

fn push_line(lines: &mut Vec<String>, s: String)
    ensures
        texts_view(final(lines)@) == texts_view(old(lines)@).push(s@),
{
    lines.push(s);
    proof {
        assert(texts_view(lines@) =~= texts_view(old(lines)@).push(s@));
    }
}

fn json_body_lines(lines: &mut Vec<String>, headers: &Vec<String>, rows: &Vec<Vec<CellValue>>)
    ensures
        texts_view(final(lines)@) == texts_view(old(lines)@) + json_body(texts_view(headers@), rows@),
{
    let ghost start = texts_view(lines@);
    let ghost hv = texts_view(headers@);
    push_line(lines, string_of("  \"headers\": ["));
    let mut i: usize = 0;
    while i < headers.len()
        invariant
            i <= headers@.len(),
            hv == texts_view(headers@),
            texts_view(lines@) == start + seq!["  \"headers\": ["@] + json_header_items(hv).subrange(0, i as int),
        decreases headers.len() - i,
    {
        let mut item = string_of("    ");
        push_json_string(&mut item, headers[i].as_str());
        if i + 1 < headers.len() {
            push_str(&mut item, ",");
        } else {
            proof {
                reveal_strlit("");
            }
        }
        proof {
            assert(item@ =~= json_header_items(hv)[i as int]);
        }
        push_line(lines, item);
        i = i + 1;
        proof {
            assert(texts_view(lines@) =~= start + seq!["  \"headers\": ["@] + json_header_items(hv).subrange(0, i as int));
        }
    }
    push_line(lines, string_of("  ],"));
    push_line(lines, string_of("  \"data\": ["));
    let ghost mid = texts_view(lines@);
    let mut r: usize = 0;
    while r < rows.len()
        invariant
            r <= rows@.len(),
            texts_view(lines@) == mid + json_row_items(rows@).subrange(0, r as int),
        decreases rows.len() - r,
    {
        let mut cells: Vec<String> = Vec::new();
        let mut j: usize = 0;
        while j < rows[r].len()
            invariant
                r < rows@.len(),
                j <= rows@[r as int]@.len(),
                cells@.len() == j,
                forall|k: int| 0 <= k < j ==> (#[trigger] cells@[k])@ == json_value(rows@[r as int]@[k]),
            decreases rows[r as int]@.len() - j,
        {
            cells.push(json_cell(&rows[r][j]));
            j = j + 1;
        }
        proof {
            assert(texts_view(cells@) =~= rows@[r as int]@.map_values(|c: CellValue| json_value(c)));
        }
        let mut item = string_of("    [");
        push_joined(&mut item, &cells, ", ");
        push_str(&mut item, "]");
        if r + 1 < rows.len() {
            push_str(&mut item, ",");
        } else {
            proof {
                reveal_strlit("");
            }
        }
        proof {
            assert(item@ =~= json_row_items(rows@)[r as int]);
        }
        push_line(lines, item);
        r = r + 1;
        proof {
            assert(texts_view(lines@) =~= mid + json_row_items(rows@).subrange(0, r as int));
        }
    }
    push_line(lines, string_of("  ]"));
    push_line(lines, string_of("}"));
    proof {
        assert(json_header_items(hv).subrange(0, headers@.len() as int) =~= json_header_items(hv));
        assert(json_row_items(rows@).subrange(0, rows@.len() as int) =~= json_row_items(rows@));
        assert(texts_view(lines@) =~= start + json_body(hv, rows@));
    }
}

fn all_lines(lines: &Vec<String>) -> (s: String)
    ensures
        s@ == lines_text(texts_view(lines@)),
{
    let mut s = string_of("");
    proof {
        reveal_strlit("");
        assert(s@ =~= lines_text(texts_view(lines@.subrange(0, 0))));
    }
    let mut i: usize = 0;
    while i < lines.len()
        invariant
            i <= lines@.len(),
            s@ == lines_text(texts_view(lines@.subrange(0, i as int))),
        decreases lines.len() - i,
    {
        push_str(&mut s, lines[i].as_str());
        push_char(&mut s, '\n');
        i = i + 1;
        proof {
            let p = texts_view(lines@.subrange(0, i as int));
            assert(p.drop_last() =~= texts_view(lines@.subrange(0, i - 1)));
            assert(p.last() == lines@[i - 1]@);
        }
    }
    proof {
        assert(lines@.subrange(0, lines@.len() as int) =~= lines@);
    }
    s
}

/// JSON export of a sheet.
pub fn export_json(data: &SheetData, sheet_name: &str) -> (s: String)
    ensures
        s@ == lines_text(seq![
            "{"@,
            json_key_line("sheet"@, json_string(sheet_name@)),
            json_key_line("rows"@, decimal(data.height as nat)),
            json_key_line("columns"@, decimal(data.width as nat)),
        ] + json_body(texts_view(data.headers@), data.rows@)),
{
    let mut lines: Vec<String> = Vec::new();
    push_line(&mut lines, string_of("{"));
    push_line(&mut lines, key_line("sheet", json_string_value(sheet_name).as_str()));
    push_line(&mut lines, key_line("rows", crate::text::u64_to_string(data.height as u64).as_str()));
    push_line(&mut lines, key_line("columns", crate::text::u64_to_string(data.width as u64).as_str()));
    json_body_lines(&mut lines, &data.headers, &data.rows);
    proof {
        assert(texts_view(lines@) =~= seq![
            "{"@,
            json_key_line("sheet"@, json_string(sheet_name@)),
            json_key_line("rows"@, decimal(data.height as nat)),
            json_key_line("columns"@, decimal(data.width as nat)),
        ] + json_body(texts_view(data.headers@), data.rows@));
    }
    all_lines(&lines)
}

/// JSON export of a table.
pub fn export_table_json(table: &TableData) -> (s: String)
    ensures
        s@ == lines_text(seq![
            "{"@,
            json_key_line("table"@, json_string(table.name@)),
            json_key_line("sheet"@, json_string(table.sheet_name@)),
            json_key_line("columns"@, decimal(table.headers@.len())),
            json_key_line("rows"@, decimal(table.rows@.len())),
        ] + json_body(texts_view(table.headers@), table.rows@)),
{
    let mut lines: Vec<String> = Vec::new();
    push_line(&mut lines, string_of("{"));
    push_line(&mut lines, key_line("table", json_string_value(table.name.as_str()).as_str()));
    push_line(&mut lines, key_line("sheet", json_string_value(table.sheet_name.as_str()).as_str()));
    push_line(&mut lines, key_line("columns", crate::text::u64_to_string(table.headers.len() as u64).as_str()));
    push_line(&mut lines, key_line("rows", crate::text::u64_to_string(table.rows.len() as u64).as_str()));
    json_body_lines(&mut lines, &table.headers, &table.rows);
    proof {
        assert(texts_view(lines@) =~= seq![
            "{"@,
            json_key_line("table"@, json_string(table.name@)),
            json_key_line("sheet"@, json_string(table.sheet_name@)),
            json_key_line("columns"@, decimal(table.headers@.len())),
            json_key_line("rows"@, decimal(table.rows@.len())),
        ] + json_body(texts_view(table.headers@), table.rows@));
    }
    all_lines(&lines)
}

} // verus!
