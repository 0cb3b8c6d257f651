//! Cell values and their text forms.

use vstd::prelude::*;
use crate::dates::{format_datetime, spec_format_datetime};
use crate::number::{is_finite, spec_is_finite, Number, Serial};
use crate::text::{ascii_lower, ascii_lower_text, ascii_lowercase, chars_of, is_ascii_digit, starts_with, string_from, decimal, empty_string, i64_to_string, push_char, push_chars, push_str, signed_decimal, string_of, u64_to_string};

verus! {

/// The value of one spreadsheet cell.
#[derive(Debug)]
pub enum CellValue {
    Empty,
    String(String),
    Int(i64),
    Float(Number),
    Bool(bool),
    Error(String),
    /// Spreadsheet date-time serial.
    DateTime(Serial),
}

// ===== Specifications of the text forms =====

/// `true` / `false`.
pub open spec fn bool_text(b: bool) -> Seq<char> {
    if b { "true"@ } else { "false"@ }
}

/// Digits grouped in threes from the right with commas (`1234567` -> `1,234,567`).
pub open spec fn group3(d: Seq<char>) -> Seq<char>
    decreases d.len(),
{
    if d.len() <= 3 {
        d
    } else {
        group3(d.subrange(0, d.len() - 3)) + seq![','] + d.subrange(d.len() - 3, d.len() as int)
    }
}

/// A text with its leading `-` characters removed.
pub open spec fn strip_dashes(s: Seq<char>) -> Seq<char>
    decreases s.len(),
{
    if s.len() > 0 && s[0] == '-' {
        strip_dashes(s.subrange(1, s.len() as int))
    } else {
        s
    }
}

/// The position of the first `c` in `s` at or after `i`, or `s.len()` when there is none.
pub open spec fn find_from(s: Seq<char>, c: char, i: int) -> int
    decreases s.len() - i,
{
    if i < 0 || i >= s.len() {
        s.len() as int
    } else if s[i] == c {
        i
    } else {
        find_from(s, c, i + 1)
    }
}

/// A numeral with its integer part grouped in threes: the integer part is the
/// text before the first `.`, kept signed when it starts with `-`; the text
/// between the first and a second `.` (if any) follows as the fraction.
pub open spec fn group_numeral(f: Seq<char>) -> Seq<char> {
    let dot = find_from(f, '.', 0);
    let int_part = f.subrange(0, dot);
    let sign = if int_part.len() > 0 && int_part[0] == '-' { seq!['-'] } else { Seq::<char>::empty() };
    let grouped = sign + group3(strip_dashes(int_part));
    if dot < f.len() {
        let next = find_from(f, '.', dot + 1);
        grouped + seq!['.'] + f.subrange(dot + 1, next)
    } else {
        grouped
    }
}

/// The date and optional time of a serial joined with a space.
pub open spec fn datetime_text(s: Serial) -> Seq<char> {
    let (d, t) = spec_format_datetime(s);
    match t {
        Some(t) => d + seq![' '] + t,
        None => d,
    }
}

/// A float as exported: no decimals when it is whole, else its shortest text.
pub open spec fn number_raw_text(n: Number) -> Seq<char> {
    if n.is_whole { n.fixed0@ } else { n.shortest@ }
}

/// Unformatted text of a cell (for export and clipboard).
pub open spec fn raw_text(c: CellValue) -> Seq<char> {
    match c {
        CellValue::Empty => Seq::<char>::empty(),
        CellValue::String(s) => s@,
        CellValue::Int(i) => signed_decimal(i as int),
        CellValue::Float(n) => number_raw_text(n),
        CellValue::Bool(b) => bool_text(b),
        CellValue::Error(e) => seq!['#'] + e@,
        CellValue::DateTime(s) => datetime_text(s),
    }
}

/// Display text of a cell: numbers with thousands separators (floats with two
/// decimals unless whole), errors prefixed with `ERROR: `.
pub open spec fn display_text(c: CellValue) -> Seq<char> {
    match c {
        CellValue::Empty => Seq::<char>::empty(),
        CellValue::String(s) => s@,
        CellValue::Int(i) => if i < 0 {
            seq!['-'] + group3(decimal((-i) as nat))
        } else {
            group3(decimal(i as nat))
        },
        CellValue::Float(n) => group_numeral(if n.is_whole { n.fixed0@ } else { n.fixed2@ }),
        CellValue::Bool(b) => bool_text(b),
        CellValue::Error(e) => "ERROR: "@ + e@,
        CellValue::DateTime(s) => datetime_text(s),
    }
}

/// Header text of a cell read from a spreadsheet's first row.
pub open spec fn header_text(c: CellValue) -> Seq<char> {
    match c {
        CellValue::Empty => Seq::<char>::empty(),
        CellValue::String(s) => s@,
        CellValue::Int(i) => signed_decimal(i as int),
        CellValue::Float(n) => number_raw_text(n),
        CellValue::Bool(b) => bool_text(b),
        CellValue::Error(e) => "ERROR: "@ + e@,
        CellValue::DateTime(s) => "Date("@ + s.shortest@ + ")"@,
    }
}

// ===== Executable helpers =====

/// Appends `d[0..end]` grouped in threes.
fn push_grouped(s: &mut String, d: &Vec<char>, end: usize)
    requires
        end <= d@.len(),
    ensures
        final(s)@ == old(s)@ + group3(d@.subrange(0, end as int)),
    decreases end,
{
    let ghost part = d@.subrange(0, end as int);
    if end <= 3 {
        push_chars(s, d, 0, end);
    } else {
        push_grouped(s, d, end - 3);
        push_char(s, ',');
        push_chars(s, d, end - 3, end);
        proof {
            assert(part.subrange(0, part.len() - 3) =~= d@.subrange(0, end - 3));
            assert(part.subrange(part.len() - 3, part.len() as int) =~= d@.subrange(end - 3, end as int));
        }
    }
}

/// The first position of `c` in `v` at or after `i`, or `v.len()`.
pub fn find_char_from(v: &Vec<char>, c: char, i: usize) -> (r: usize)
    requires
        i <= v@.len(),
    ensures
        r == find_from(v@, c, i as int),
        i <= r <= v@.len(),
{
    let mut j = i;
    while j < v.len()
        invariant
            i <= j <= v@.len(),
            find_from(v@, c, i as int) == find_from(v@, c, j as int),
        decreases v.len() - j,
    {
        if v[j] == c {
            return j;
        }
        j = j + 1;
    }
    j
}

/// The position after the leading `-` characters of `v[0..end]`.
fn skip_dashes(v: &Vec<char>, end: usize) -> (r: usize)
    requires
        end <= v@.len(),
    ensures
        r <= end,
        strip_dashes(v@.subrange(0, end as int)) == v@.subrange(r as int, end as int),
{
    let mut j: usize = 0;
    while j < end && v[j] == '-'
        invariant
            j <= end <= v@.len(),
            strip_dashes(v@.subrange(0, end as int)) == strip_dashes(v@.subrange(j as int, end as int)),
        decreases end - j,
    {
        proof {
            assert(v@.subrange(j as int, end as int).subrange(1, end - j) =~= v@.subrange(j + 1, end as int));
        }
        j = j + 1;
    }
    proof {
        let t = v@.subrange(j as int, end as int);
        if t.len() > 0 {
            assert(t[0] == v@[j as int]);
        }
    }
    j
}

/// Appends a numeral with its integer part grouped in threes.
fn push_grouped_numeral(s: &mut String, f: &String)
    ensures
        final(s)@ == old(s)@ + group_numeral(f@),
{
    let v = chars_of(f.as_str());
    let dot = find_char_from(&v, '.', 0);
    let ghost int_part = v@.subrange(0, dot as int);
    if dot > 0 && v[0] == '-' {
        push_char(s, '-');
    }
    let start = skip_dashes(&v, dot);
    let mut digits: Vec<char> = Vec::new();
    let mut k = start;
    while k < dot
        invariant
            start <= k <= dot <= v@.len(),
            digits@ == v@.subrange(start as int, k as int),
        decreases dot - k,
    {
        digits.push(v[k]);
        k = k + 1;
        proof {
            assert(digits@ =~= v@.subrange(start as int, k as int));
        }
    }
    push_grouped(s, &digits, digits.len());
    proof {
        assert(digits@.subrange(0, digits@.len() as int) =~= digits@);
    }
    if dot < v.len() {
        let next = find_char_from(&v, '.', dot + 1);
        push_char(s, '.');
        push_chars(s, &v, dot + 1, next);
    }
    proof {
        let sign = if int_part.len() > 0 && int_part[0] == '-' { seq!['-'] } else { Seq::<char>::empty() };
        if dot > 0 {
            assert(int_part[0] == v@[0]);
        }
        assert(sign + group3(strip_dashes(int_part)) == sign + group3(digits@));
    }
}

impl CellValue {
    /// An exact copy.
    pub fn copy(&self) -> (r: CellValue)
        ensures
            r == *self,
    {
        match self {
            CellValue::Empty => CellValue::Empty,
            CellValue::String(s) => CellValue::String(s.clone()),
            CellValue::Int(i) => CellValue::Int(*i),
            CellValue::Float(n) => CellValue::Float(n.copy()),
            CellValue::Bool(b) => CellValue::Bool(*b),
            CellValue::Error(e) => CellValue::Error(e.clone()),
            CellValue::DateTime(d) => CellValue::DateTime(d.copy()),
        }
    }

    pub fn is_empty(&self) -> (b: bool)
        ensures
            b == (*self is Empty),
    {
        matches!(self, CellValue::Empty)
    }

    pub fn is_numeric(&self) -> (b: bool)
        ensures
            b == (*self is Int || *self is Float),
    {
        match self {
            CellValue::Int(_) | CellValue::Float(_) => true,
            _ => false,
        }
    }

    /// Returns unformatted value (for export/clipboard).
    pub fn to_raw_string(&self) -> (s: String)
        ensures
            s@ == raw_text(*self),
    {
        match self {
            CellValue::Empty => empty_string(),
            CellValue::String(s) => s.clone(),
            CellValue::Int(i) => i64_to_string(*i),
            CellValue::Float(n) => if n.is_whole { n.fixed0.clone() } else { n.shortest.clone() },
            CellValue::Bool(b) => if *b { string_of("true") } else { string_of("false") },
            CellValue::Error(e) => {
                let mut s = string_of("#");
                push_str(&mut s, e.as_str());
                proof {
                    reveal_strlit("#");
                    assert(s@ =~= seq!['#'] + e@);
                }
                s
            },
            CellValue::DateTime(d) => datetime_string(d),
        }
    }

    /// Display form (thousands separators for numbers); stands in for `Display`.
    pub fn to_string(&self) -> (s: String)
        ensures
            s@ == display_text(*self),
    {
        match self {
            CellValue::Empty => empty_string(),
            CellValue::String(s) => s.clone(),
            CellValue::Int(i) => {
                let mut s = empty_string();
                let m: u64 = if *i >= 0 {
                    *i as u64
                } else if *i == i64::MIN {
                    9_223_372_036_854_775_808u64
                } else {
                    (-*i) as u64
                };
                if *i < 0 {
                    push_char(&mut s, '-');
                }
                let d = chars_of(u64_to_string(m).as_str());
                push_grouped(&mut s, &d, d.len());
                proof {
                    assert(d@.subrange(0, d@.len() as int) =~= d@);
                    assert(s@ =~= display_text(*self));
                }
                s
            },
            CellValue::Float(n) => {
                let mut s = empty_string();
                if n.is_whole {
                    push_grouped_numeral(&mut s, &n.fixed0);
                } else {
                    push_grouped_numeral(&mut s, &n.fixed2);
                }
                proof {
                    assert(s@ =~= display_text(*self));
                }
                s
            },
            CellValue::Bool(b) => if *b { string_of("true") } else { string_of("false") },
            CellValue::Error(e) => {
                let mut s = string_of("ERROR: ");
                push_str(&mut s, e.as_str());
                s
            },
            CellValue::DateTime(d) => datetime_string(d),
        }
    }
}

/// The date and optional time of a serial joined with a space.
pub fn datetime_string(d: &Serial) -> (s: String)
    ensures
        s@ == datetime_text(*d),
{
    let (date, time) = format_datetime(d);
    match time {
        Some(t) => {
            let mut s = date;
            push_char(&mut s, ' ');
            push_str(&mut s, t.as_str());
            s
        },
        None => date,
    }
}

// ===== Reading CSV fields =====

/// `char::is_whitespace`: the Unicode `White_Space` characters.
pub open spec fn is_whitespace(c: char) -> bool {
    let u = c as u32;
    (0x09 <= u <= 0x0D) || u == 0x20 || u == 0x85 || u == 0xA0 || u == 0x1680
        || (0x2000 <= u <= 0x200A) || u == 0x2028 || u == 0x2029 || u == 0x202F
        || u == 0x205F || u == 0x3000
}

/// First position at or after `i` that holds no whitespace (or `s.len()`).
pub open spec fn skip_ws(s: Seq<char>, i: int) -> int
    decreases s.len() - i,
{
    if i < 0 || i >= s.len() {
        s.len() as int
    } else if is_whitespace(s[i]) {
        skip_ws(s, i + 1)
    } else {
        i
    }
}

/// End of `s[..j]` once its trailing whitespace is dropped.
pub open spec fn trim_end_at(s: Seq<char>, j: int) -> int
    decreases j,
{
    if j <= 0 || j > s.len() {
        0
    } else if is_whitespace(s[j - 1]) {
        trim_end_at(s, j - 1)
    } else {
        j
    }
}

/// `str::trim`: the text without leading and trailing whitespace.
pub open spec fn trim_text(s: Seq<char>) -> Seq<char> {
    let a = skip_ws(s, 0);
    if a >= s.len() {
        Seq::<char>::empty()
    } else {
        s.subrange(a, trim_end_at(s, s.len() as int))
    }
}

/// Value of a run of ASCII digits.
pub open spec fn digits_value(d: Seq<char>) -> int
    decreases d.len(),
{
    if d.len() == 0 {
        0
    } else {
        digits_value(d.subrange(0, d.len() - 1)) * 10 + (d[d.len() - 1] as int - 48)
    }
}

pub open spec fn all_digits(d: Seq<char>) -> bool {
    forall|k: int| 0 <= k < d.len() ==> is_ascii_digit(#[trigger] d[k])
}

/// `str::parse::<i64>`: an optional `+` or `-`, then one or more ASCII digits,
/// with the value in range.
pub open spec fn parse_i64_text(s: Seq<char>) -> Option<i64> {
    let signed = s.len() > 0 && (s[0] == '-' || s[0] == '+');
    let neg = s.len() > 0 && s[0] == '-';
    let body = if signed { s.subrange(1, s.len() as int) } else { s };
    let v = if neg { -digits_value(body) } else { digits_value(body) };
    if body.len() > 0 && all_digits(body) && i64::MIN <= v <= i64::MAX {
        Some(v as i64)
    } else {
        None
    }
}

/// Whether a trimmed field looks like an identifier with a leading zero
/// (`007`, but not `0` or `0.5`); such fields stay text.
pub open spec fn has_leading_zero(t: Seq<char>) -> bool {
    t.len() > 1 && t[0] == '0' && !starts_with(t, "0."@)
}

/// The cell a CSV field becomes, given what the 64-bit float parser made of the
/// trimmed field: empty, a boolean (any ASCII case), an integer, a finite float,
/// or else the original (untrimmed) text.
pub open spec fn spec_from_csv_field(field: String, number: Option<Number>) -> CellValue {
    let t = trim_text(field@);
    let lower = ascii_lower_text(t);
    if t.len() == 0 {
        CellValue::Empty
    } else if lower == "true"@ {
        CellValue::Bool(true)
    } else if lower == "false"@ {
        CellValue::Bool(false)
    } else if !has_leading_zero(t) && parse_i64_text(t) is Some {
        CellValue::Int(parse_i64_text(t)->0)
    } else if !has_leading_zero(t) && number is Some && spec_is_finite(number->0.bits) {
        CellValue::Float(number->0)
    } else {
        CellValue::String(field)
    }
}

/// A numeral's first digit is not `0` once the number has two digits.
proof fn lemma_decimal_first_digit(n: nat)
    requires
        n >= 10,
    ensures
        decimal(n)[0] != '0',
    decreases n,
{
    crate::jump::lemma_decimal_digits(n / 10);
    if n / 10 >= 10 {
        lemma_decimal_first_digit(n / 10);
    } else {
        assert(((48 + n / 10) as u8) as char != '0');
    }
    assert(decimal(n)[0] == decimal(n / 10)[0]);
}

/// A numeral reads back as a CSV field: it is its own trimmed text, not a
/// boolean word, without a leading zero, and parses to its value.
pub(crate) proof fn lemma_integer_field(i: i64)
    ensures
        ({
            let t = signed_decimal(i as int);
            &&& trim_text(t) == t
            &&& ascii_lower_text(t) != "true"@
            &&& ascii_lower_text(t) != "false"@
            &&& !has_leading_zero(t)
            &&& parse_i64_text(t) == Some(i)
        }),
{
    reveal_strlit("true");
    reveal_strlit("false");
    let t = signed_decimal(i as int);
    let n: nat = if i < 0 { (-(i as int)) as nat } else { i as nat };
    let d = decimal(n);
    crate::jump::lemma_decimal_digits(n);
    crate::jump::lemma_digits_value_decimal(n);
    if i < 0 {
        assert(t =~= seq!['-'] + d);
    } else {
        assert(t == d);
    }
    assert(!is_whitespace(t[0]));
    assert(is_ascii_digit(t[t.len() - 1]));
    assert(!is_whitespace(t[t.len() - 1]));
    assert(skip_ws(t, 0) == 0);
    assert(trim_end_at(t, t.len() as int) == t.len());
    assert(trim_text(t) =~= t);
    let l = ascii_lower_text(t);
    assert(l[0] == ascii_lower(t[0]));
    assert(l[0] == t[0]);
    assert(l[0] != 't' && l[0] != 'f');
    if t.len() > 1 && t[0] == '0' {
        assert(i >= 0);
        assert(n >= 10);
        lemma_decimal_first_digit(n);
    }
    if i < 0 {
        assert(t.subrange(1, t.len() as int) =~= d);
    }
    assert(all_digits(d));
}

/// Reading a CSV field gives back the cell it was written from: the raw
/// text of an integer reads back as that integer and that of a boolean as
/// that boolean, whatever the float reader makes of it; a field read as text
/// is exactly the field.
pub proof fn csv_field_reads_back_as_cell(i: i64, b: bool, field: String, number: Option<Number>)
    ensures
        field@ == raw_text(CellValue::Int(i)) ==> spec_from_csv_field(field, number) == CellValue::Int(i),
        field@ == raw_text(CellValue::Bool(b)) ==> spec_from_csv_field(field, number) == CellValue::Bool(b),
        spec_from_csv_field(field, number) matches CellValue::String(t) ==> t == field,
{
    lemma_integer_field(i);
    reveal_strlit("true");
    reveal_strlit("false");
    if field@ == raw_text(CellValue::Bool(b)) {
        let t = field@;
        assert(!is_whitespace(t[0]));
        assert(!is_whitespace(t[t.len() - 1]));
        assert(skip_ws(t, 0) == 0);
        assert(trim_end_at(t, t.len() as int) == t.len());
        assert(trim_text(t) =~= t);
        assert(ascii_lower_text(t) =~= t);
    }
}

pub proof fn lemma_digits_value_nonneg(d: Seq<char>)
    requires
        all_digits(d),
    ensures
        digits_value(d) >= 0,
    decreases d.len(),
{
    if d.len() > 0 {
        let p = d.subrange(0, d.len() - 1);
        assert(all_digits(p)) by {
            assert forall|k: int| 0 <= k < p.len() implies is_ascii_digit(p[k]) by {
                assert(p[k] == d[k]);
            }
        }
        lemma_digits_value_nonneg(p);
        assert(is_ascii_digit(d[d.len() - 1]));
    }
}

/// A digit run's value is at least the value of any of its prefixes.
pub proof fn lemma_digits_value_prefix(d: Seq<char>, k: int)
    requires
        all_digits(d),
        0 <= k <= d.len(),
    ensures
        digits_value(d.subrange(0, k)) <= digits_value(d),
    decreases d.len() - k,
{
    if k < d.len() {
        let p = d.subrange(0, k + 1);
        assert(all_digits(p)) by {
            assert forall|m: int| 0 <= m < p.len() implies is_ascii_digit(p[m]) by {
                assert(p[m] == d[m]);
            }
        }
        assert(p.subrange(0, p.len() - 1) =~= d.subrange(0, k));
        lemma_digits_value_nonneg(d.subrange(0, k));
        assert(is_ascii_digit(d[k]));
        assert(p[p.len() - 1] == d[k]);
        lemma_digits_value_prefix(d, k + 1);
    } else {
        assert(d.subrange(0, k) =~= d);
    }
}

/// `str::parse::<i64>` on `v[from..to]`.
#[verifier::loop_isolation(false)]
fn parse_i64(v: &Vec<char>, from: usize, to: usize) -> (r: Option<i64>)
    requires
        from <= to <= v@.len(),
    ensures
        r == parse_i64_text(v@.subrange(from as int, to as int)),
{
    let ghost s = v@.subrange(from as int, to as int);
    if from == to {
        return None;
    }
    let neg = v[from] == '-';
    let signed = neg || v[from] == '+';
    let start = if signed { from + 1 } else { from };
    let ghost body = v@.subrange(start as int, to as int);
    proof {
        assert(s[0] == v@[from as int]);
        if signed {
            assert(s.subrange(1, s.len() as int) =~= body);
        } else {
            assert(s =~= body);
        }
    }
    if start == to {
        return None;
    }
    let mut k = start;
    while k < to
        invariant
            start <= k <= to <= v@.len(),
            forall|m: int| start <= m < k ==> is_ascii_digit(#[trigger] v@[m]),
        decreases to - k,
    {
        let c = v[k];
        if !('0' <= c && c <= '9') {
            proof {
                assert(v@.subrange(start as int, to as int)[k - start] == c);
            }
            return None;
        }
        k = k + 1;
    }
    proof {
        assert(all_digits(body)) by {
            assert forall|m: int| 0 <= m < body.len() implies is_ascii_digit(body[m]) by {
                assert(body[m] == v@[start + m]);
            }
        }
    }
    // Magnitude limit: i64::MAX, or one more for a negative value.
    let limit: u64 = if neg { 9_223_372_036_854_775_808u64 } else { 9_223_372_036_854_775_807u64 };
    let mut acc: u64 = 0;
    let mut k = start;
    while k < to
        invariant
            start <= k <= to <= v@.len(),
            body == v@.subrange(start as int, to as int),
            all_digits(body),
            limit >= 9,
            acc <= limit,
            acc == digits_value(body.subrange(0, k - start)),
        decreases to - k,
    {
        let c = v[k];
        proof {
            assert(body[k - start] == c);
            assert(is_ascii_digit(c));
        }
        let d: u64 = (c as u32 - 48) as u64;
        proof {
            let p = body.subrange(0, k + 1 - start);
            assert(p.subrange(0, p.len() - 1) =~= body.subrange(0, k - start));
            assert(p[p.len() - 1] == c);
            assert(digits_value(p) == acc * 10 + d);
        }
        if acc > (limit - d) / 10 {
            proof {
                assert(acc * 10 + d > limit) by (nonlinear_arith)
                    requires acc > (limit - d) / 10, d <= 9, limit >= 9;
                lemma_digits_value_prefix(body, k + 1 - start);
            }
            return None;
        }
        proof {
            assert(acc * 10 + d <= limit) by (nonlinear_arith)
                requires acc <= (limit - d) / 10, d <= 9, limit >= 9;
        }
        acc = acc * 10 + d;
        k = k + 1;
    }
    proof {
        assert(body.subrange(0, k - start) =~= body);
    }
    if neg {
        if acc == 9_223_372_036_854_775_808u64 {
            Some(i64::MIN)
        } else {
            Some(-(acc as i64))
        }
    } else {
        Some(acc as i64)
    }
}


/// `str::parse::<usize>`: an optional `+`, then one or more ASCII digits, with
/// the value in range.
pub open spec fn parse_usize_text(s: Seq<char>) -> Option<usize> {
    let body = if s.len() > 0 && s[0] == '+' { s.subrange(1, s.len() as int) } else { s };
    if body.len() > 0 && all_digits(body) && digits_value(body) <= usize::MAX {
        Some(digits_value(body) as usize)
    } else {
        None
    }
}

/// `str::parse::<usize>` on `v[from..to]`.
#[verifier::loop_isolation(false)]
pub fn parse_usize(v: &Vec<char>, from: usize, to: usize) -> (r: Option<usize>)
    requires
        from <= to <= v@.len(),
    ensures
        r == parse_usize_text(v@.subrange(from as int, to as int)),
{
    let ghost s = v@.subrange(from as int, to as int);
    if from == to {
        return None;
    }
    let plus = v[from] == '+';
    let start = if plus { from + 1 } else { from };
    let ghost body = v@.subrange(start as int, to as int);
    proof {
        assert(s[0] == v@[from as int]);
        if plus {
            assert(s.subrange(1, s.len() as int) =~= body);
        } else {
            assert(s =~= body);
        }
    }
    if start == to {
        return None;
    }
    let mut k = start;
    while k < to
        invariant
            start <= k <= to <= v@.len(),
            forall|m: int| start <= m < k ==> is_ascii_digit(#[trigger] v@[m]),
        decreases to - k,
    {
        let c = v[k];
        if !('0' <= c && c <= '9') {
            proof {
                assert(v@.subrange(start as int, to as int)[k - start] == c);
            }
            return None;
        }
        k = k + 1;
    }
    proof {
        assert(all_digits(body)) by {
            assert forall|m: int| 0 <= m < body.len() implies is_ascii_digit(body[m]) by {
                assert(body[m] == v@[start + m]);
            }
        }
    }
    let mut acc: usize = 0;
    let mut k = start;
    while k < to
        invariant
            start <= k <= to <= v@.len(),
            body == v@.subrange(start as int, to as int),
            all_digits(body),
            acc == digits_value(body.subrange(0, k - start)),
        decreases to - k,
    {
        let c = v[k];
        proof {
            assert(body[k - start] == c);
            assert(is_ascii_digit(c));
        }
        let d: usize = (c as u32 - 48) as usize;
        proof {
            let p = body.subrange(0, k + 1 - start);
            assert(p.subrange(0, p.len() - 1) =~= body.subrange(0, k - start));
            assert(p[p.len() - 1] == c);
            assert(digits_value(p) == acc * 10 + d);
        }
        if acc > (usize::MAX - d) / 10 {
            proof {
                assert(acc * 10 + d > usize::MAX) by (nonlinear_arith)
                    requires acc > (usize::MAX - d) / 10, d <= 9;
                lemma_digits_value_prefix(body, k + 1 - start);
            }
            return None;
        }
        proof {
            assert(acc * 10 + d <= usize::MAX) by (nonlinear_arith)
                requires acc <= (usize::MAX - d) / 10, d <= 9;
        }
        acc = acc * 10 + d;
        k = k + 1;
    }
    proof {
        assert(body.subrange(0, k - start) =~= body);
    }
    Some(acc)
}

/// `str::trim` on a character sequence: the bounds of the trimmed part.
pub fn trim_bounds(v: &Vec<char>) -> (r: (usize, usize))
    ensures
        r.0 <= r.1 <= v@.len(),
        v@.subrange(r.0 as int, r.1 as int) == trim_text(v@),
{
    let mut a: usize = 0;
    while a < v.len() && is_ws(v[a])
        invariant
            a <= v@.len(),
            skip_ws(v@, 0) == skip_ws(v@, a as int),
        decreases v.len() - a,
    {
        a = a + 1;
    }
    if a == v.len() {
        return (a, a);
    }
    let mut b: usize = v.len();
    while b > 0 && is_ws(v[b - 1])
        invariant
            b <= v@.len(),
            trim_end_at(v@, v@.len() as int) == trim_end_at(v@, b as int),
        decreases b,
    {
        b = b - 1;
    }
    proof {
        lemma_trim_end_past_start(v@, a as int, v@.len() as int);
    }
    (a, b)
}

proof fn lemma_trim_end_past_start(s: Seq<char>, a: int, j: int)
    requires
        0 <= a < s.len(),
        !is_whitespace(s[a]),
        a < j <= s.len(),
    ensures
        a < trim_end_at(s, j) <= j,
    decreases j,
{
    if is_whitespace(s[j - 1]) {
        lemma_trim_end_past_start(s, a, j - 1);
    }
}

/// `char::is_whitespace`.
pub fn is_ws(c: char) -> (b: bool)
    ensures
        b == is_whitespace(c),
{
    let u = c as u32;
    (0x09 <= u && u <= 0x0D) || u == 0x20 || u == 0x85 || u == 0xA0 || u == 0x1680
        || (0x2000 <= u && u <= 0x200A) || u == 0x2028 || u == 0x2029 || u == 0x202F
        || u == 0x205F || u == 0x3000
}

/// `str::trim`.
pub fn trim(s: &str) -> (t: String)
    ensures
        t@ == trim_text(s@),
{
    let v = chars_of(s);
    let (a, b) = trim_bounds(&v);
    string_from(&v, a, b)
}

fn seq_eq_lit(v: &Vec<char>, from: usize, to: usize, lit: &str) -> (b: bool)
    requires
        from <= to <= v@.len(),
    ensures
        b == (v@.subrange(from as int, to as int) == lit@),
{
    let w = chars_of(lit);
    if w.len() != to - from {
        return false;
    }
    let mut k: usize = 0;
    while k < w.len()
        invariant
            w@ == lit@,
            w@.len() == to - from,
            from <= to <= v@.len(),
            k <= w@.len(),
            forall|m: int| 0 <= m < k ==> v@[from + m] == w@[m],
        decreases w.len() - k,
    {
        if v[from + k] != w[k] {
            proof {
                assert(v@.subrange(from as int, to as int)[k as int] != lit@[k as int]);
            }
            return false;
        }
        k = k + 1;
    }
    proof {
        assert(v@.subrange(from as int, to as int) =~= lit@);
    }
    true
}

impl CellValue {
    /// Infer a cell from a raw CSV field, detecting empty, booleans, and
    /// numbers; everything else is kept as the original text. `number` is what
    /// the 64-bit float parser makes of the trimmed field.
    pub fn from_csv_field(field: String, number: Option<Number>) -> (c: CellValue)
        ensures
            c == spec_from_csv_field(field, number),
    {
        let v = chars_of(field.as_str());
        let (a, b) = trim_bounds(&v);
        let ghost t = v@.subrange(a as int, b as int);
        if a == b {
            return CellValue::Empty;
        }
        let mut tv: Vec<char> = Vec::new();
        let mut k = a;
        while k < b
            invariant
                a <= k <= b <= v@.len(),
                tv@ == v@.subrange(a as int, k as int),
            decreases b - k,
        {
            tv.push(v[k]);
            k = k + 1;
            proof {
                assert(tv@ =~= v@.subrange(a as int, k as int));
            }
        }
        let lower = ascii_lowercase(&tv);
        if seq_eq_lit(&lower, 0, lower.len(), "true") {
            proof {
                assert(lower@.subrange(0, lower@.len() as int) =~= lower@);
            }
            return CellValue::Bool(true);
        }
        if seq_eq_lit(&lower, 0, lower.len(), "false") {
            proof {
                assert(lower@.subrange(0, lower@.len() as int) =~= lower@);
            }
            return CellValue::Bool(false);
        }
        proof {
            assert(lower@.subrange(0, lower@.len() as int) =~= lower@);
        }
        let leading_zero = tv.len() > 1 && tv[0] == '0' && !(tv[1] == '.');
        proof {
            reveal_strlit("0.");
            if tv@.len() > 1 {
                assert(starts_with(t, "0."@) <==> (t[0] == '0' && t[1] == '.')) by {
                    if t[0] == '0' && t[1] == '.' {
                        assert(t.subrange(0, 2) =~= "0."@);
                    }
                    if starts_with(t, "0."@) {
                        assert(t.subrange(0, 2)[0] == t[0]);
                        assert(t.subrange(0, 2)[1] == t[1]);
                    }
                }
            }
        }
        if !leading_zero {
            let parsed = parse_i64(&tv, 0, tv.len());
            proof {
                assert(tv@.subrange(0, tv@.len() as int) =~= tv@);
            }
            if let Some(i) = parsed {
                return CellValue::Int(i);
            }
            match number {
                Some(n) => {
                    if is_finite(n.bits) {
                        return CellValue::Float(n);
                    }
                },
                None => {},
            }
        }
        CellValue::String(field)
    }

    /// Header text of a cell read from a spreadsheet's first row.
    pub fn header_string(&self) -> (s: String)
        ensures
            s@ == header_text(*self),
    {
        match self {
            CellValue::DateTime(d) => {
                let mut s = string_of("Date(");
                push_str(&mut s, d.shortest.as_str());
                push_str(&mut s, ")");
                s
            },
            CellValue::Error(e) => {
                let mut s = string_of("ERROR: ");
                push_str(&mut s, e.as_str());
                s
            },
            _ => self.to_raw_string(),
        }
    }
}

} // verus!
