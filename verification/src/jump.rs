//! Jump mode: reading a typed row number, cell address (`B7`) or `row,col`
//! pair, and moving the cursor there.

use vstd::prelude::*;
use crate::cell::{skip_ws, trim_end_at, digits_value, lemma_digits_value_nonneg, find_char_from, find_from, parse_usize, parse_usize_text, trim, trim_text};
use crate::state::{first_sheet_row, last_index, TuiState};
use crate::text::{
    ascii_upper_text, chars_of, decimal, digit_char, is_ascii_digit, is_ascii_letter, is_ascii_text,
    is_ascii_upper, push_decimal, push_str, string_from, string_of, to_uppercase, unicode_uppercase,
};
use crate::utils::{col_letters, letter};

verus! {

/// The value of one column letter: `A` is 1, `Z` is 26.
pub open spec fn letter_value(c: char) -> int {
    c as int - 64
}

/// The ASCII letters of a text, in order.
pub open spec fn letters_of(s: Seq<char>) -> Seq<char>
    decreases s.len(),
{
    if s.len() == 0 {
        Seq::empty()
    } else if is_ascii_letter(s.last()) {
        letters_of(s.drop_last()).push(s.last())
    } else {
        letters_of(s.drop_last())
    }
}

/// The ASCII digits of a text, in order.
pub open spec fn digits_of(s: Seq<char>) -> Seq<char>
    decreases s.len(),
{
    if s.len() == 0 {
        Seq::empty()
    } else if is_ascii_digit(s.last()) {
        digits_of(s.drop_last()).push(s.last())
    } else {
        digits_of(s.drop_last())
    }
}

/// The 1-based column number that column letters spell (bijective base 26).
pub open spec fn column_number(l: Seq<char>) -> int
    decreases l.len(),
{
    if l.len() == 0 {
        0
    } else {
        column_number(l.drop_last()) * 26 + letter_value(l.last())
    }
}

/// Every character is an ASCII letter or digit.
pub open spec fn alnum_text(s: Seq<char>) -> bool {
    forall|k: int| 0 <= k < s.len() ==> is_ascii_letter(#[trigger] s[k]) || is_ascii_digit(s[k])
}

/// The (column, row) indices, both 0-based, that an uppercased address
/// names: its letters give the column and its digits the 1-based row. Letters
/// and digits only; at least one of each; at most 13 letters; values in range.
pub open spec fn cell_address_of(u: Seq<char>) -> Option<(usize, usize)> {
    let l = letters_of(u);
    let d = digits_of(u);
    if alnum_text(u) && l.len() > 0 && d.len() > 0 && l.len() <= 13 && column_number(l) <= usize::MAX
        && 0 < digits_value(d) <= usize::MAX {
        Some(((column_number(l) - 1) as usize, (digits_value(d) - 1) as usize))
    } else {
        None
    }
}

/// What `parse_cell_address` gives for a typed address: the address is
/// uppercased first, so `b2` names the same cell as `B2`.
pub open spec fn spec_parse_cell_address(addr: Seq<char>) -> Option<(usize, usize)> {
    cell_address_of(unicode_uppercase(addr))
}

/// The message for input that is neither a row, a cell nor a `row,col` pair.
pub open spec fn invalid_format_text() -> Seq<char> {
    "Invalid format. Use: row number, cell (A5), or row,col"@
}

/// Whether sheet row `r` (1-based) can be jumped to on a sheet of `height`
/// data rows: a data row, or the header row (sheet row 1), which stands for
/// the first data row.
pub open spec fn row_in_sheet(r: nat, height: nat, no_header: bool) -> bool {
    height > 0 && 1 <= r <= last_index(height) + first_sheet_row(no_header)
}

/// The data row a jump to sheet row `r` lands on: the header row lands on
/// the first data row.
pub open spec fn jump_data_row(r: nat, no_header: bool) -> nat {
    if r >= first_sheet_row(no_header) { (r - first_sheet_row(no_header)) as nat } else { 0 }
}

/// The uppercase form of a text: ASCII letters map to their capitals on ASCII
/// text; other text goes by the Unicode mapping.
pub open spec fn upper_text(t: Seq<char>) -> Seq<char> {
    if is_ascii_text(t) {
        ascii_upper_text(t)
    } else {
        unicode_uppercase(t)
    }
}

/// The result of jumping to sheet row `r`.
pub open spec fn row_outcome(r: nat, height: nat, no_header: bool) -> (Option<(nat, Option<nat>)>, Seq<char>) {
    let first = first_sheet_row(no_header);
    if row_in_sheet(r, height, no_header) {
        (Some((jump_data_row(r, no_header), None)), "Jumped to row "@ + decimal(r))
    } else {
        (None, "Invalid row: "@ + decimal(r) + " (max: "@ + decimal(last_index(height) + first) + ")"@)
    }
}

/// The result of jumping to the cell at 0-based (`c`, `r`), typed as `t`.
pub open spec fn cell_outcome(c: nat, r: nat, t: Seq<char>, upper: Seq<char>, height: nat, width: nat, no_header: bool) -> (Option<(nat, Option<nat>)>, Seq<char>) {
    if row_in_sheet(r + 1, height, no_header) && c < width {
        (Some((jump_data_row(r + 1, no_header), Some(c))), "Jumped to "@ + upper)
    } else {
        (None, "Cell address out of bounds: "@ + t)
    }
}

/// The result of reading `t` as a `row,col` pair of 1-based numbers.
pub open spec fn pair_outcome(t: Seq<char>, height: nat, width: nat, no_header: bool) -> (Option<(nat, Option<nat>)>, Seq<char>) {
    let k = find_from(t, ',', 0);
    if k < t.len() {
        let a = parse_usize_text(trim_text(t.subrange(0, k)));
        let b = parse_usize_text(trim_text(t.subrange(k + 1, t.len() as int)));
        if a is Some && b is Some {
            let r = a->0;
            let c = b->0;
            if row_in_sheet(r as nat, height, no_header) && 0 < c <= width {
                (Some((jump_data_row(r as nat, no_header), Some((c - 1) as nat))),
                    "Jumped to row "@ + decimal(r as nat) + ", col "@ + decimal(c as nat))
            } else {
                (None, "Invalid row/column number"@)
            }
        } else {
            (None, invalid_format_text())
        }
    } else {
        (None, invalid_format_text())
    }
}

/// What a jump typed as `input` does on a sheet of `height` rows and `width`
/// columns: the row it moves the cursor to and, for a cell or a `row,col`
/// pair, the column (`None` when the column stays), and the message shown.
/// The input is trimmed and read, in this order, as a row number, a cell
/// address or a `row,col` pair of 1-based numbers; `upper` is the trimmed
/// input in capitals.
pub open spec fn jump_outcome(input: Seq<char>, upper: Seq<char>, height: nat, width: nat, no_header: bool) -> (Option<(nat, Option<nat>)>, Seq<char>) {
    let t = trim_text(input);
    match parse_usize_text(t) {
        Some(r) => row_outcome(r as nat, height, no_header),
        None => match cell_address_of(upper) {
            Some((c, r)) => cell_outcome(c as nat, r as nat, t, upper, height, width, no_header),
            None => pair_outcome(t, height, width, no_header),
        },
    }
}

/// `str::parse::<usize>`.
fn parse_usize_str(s: &str) -> (r: Option<usize>)
    ensures
        r == parse_usize_text(s@),
{
    let v = chars_of(s);
    proof {
        assert(v@.subrange(0, v@.len() as int) =~= v@);
    }
    parse_usize(&v, 0, v.len())
}

proof fn lemma_column_number_nonneg(l: Seq<char>)
    requires
        forall|k: int| 0 <= k < l.len() ==> is_ascii_letter(#[trigger] l[k]),
    ensures
        column_number(l) >= 0,
        l.len() > 0 ==> column_number(l) >= 1,
    decreases l.len(),
{
    if l.len() > 0 {
        lemma_column_number_nonneg(l.drop_last());
    }
}

proof fn lemma_letters_are_letters(s: Seq<char>)
    ensures
        forall|k: int| 0 <= k < letters_of(s).len() ==> is_ascii_letter(#[trigger] letters_of(s)[k]),
        letters_of(s).len() <= s.len(),
    decreases s.len(),
{
    if s.len() > 0 {
        lemma_letters_are_letters(s.drop_last());
    }
}

proof fn lemma_digits_are_digits(s: Seq<char>)
    ensures
        forall|k: int| 0 <= k < digits_of(s).len() ==> is_ascii_digit(#[trigger] digits_of(s)[k]),
    decreases s.len(),
{
    if s.len() > 0 {
        lemma_digits_are_digits(s.drop_last());
        let p = digits_of(s.drop_last());
        if is_ascii_digit(s.last()) {
            assert forall|k: int| 0 <= k < digits_of(s).len() implies is_ascii_digit(#[trigger] digits_of(s)[k]) by {
                if k < p.len() {
                    assert(digits_of(s)[k] == p[k]);
                }
            }
        }
    }
}

impl TuiState {
    /// Parse a cell address like `A5`, `b10` or `AA100` into (column, row),
    /// both 0-based. `None` unless the address (uppercased) is made of ASCII
    /// letters and digits only, with at least one of each, at most 13 letters,
    /// and a row of at least 1.
    pub fn parse_cell_address(addr: &str) -> (r: Option<(usize, usize)>)
        ensures
            r == spec_parse_cell_address(addr@),
            is_ascii_text(addr@) ==> r == cell_address_of(ascii_upper_text(addr@)),
    {
        let upper = to_uppercase(addr);
        let v = chars_of(upper.as_str());
        let ghost u = v@;
        let mut col: usize = 0;
        let mut n_letters: usize = 0;
        let mut too_big = false;
        let mut digits: Vec<char> = Vec::new();
        let mut i: usize = 0;
        while i < v.len()
            invariant
                u == v@,
                u == unicode_uppercase(addr@),
                is_ascii_text(addr@) ==> u == ascii_upper_text(addr@),
                i <= v@.len(),
                alnum_text(u.subrange(0, i as int)),
                n_letters == letters_of(u.subrange(0, i as int)).len(),
                digits@ == digits_of(u.subrange(0, i as int)),
                !too_big ==> col == column_number(letters_of(u.subrange(0, i as int))) && n_letters <= 13,
                too_big ==> n_letters > 13 || column_number(letters_of(u.subrange(0, i as int))) > usize::MAX,
            decreases v.len() - i,
        {
            let c = v[i];
            let ghost p = u.subrange(0, i as int);
            let ghost q = u.subrange(0, i + 1);
            proof {
                assert(q.drop_last() =~= p);
                assert(q.last() == c);
                lemma_letters_are_letters(p);
                lemma_column_number_nonneg(letters_of(p));
            }
            if ('A' <= c && c <= 'Z') || ('a' <= c && c <= 'z') {
                proof {
                    assert(letters_of(q) == letters_of(p).push(c));
                    assert(letters_of(q).drop_last() =~= letters_of(p));
                }
                n_letters = n_letters + 1;
                if !too_big {
                    if n_letters > 13 {
                        too_big = true;
                    } else {
                        let value: usize = (c as u32 - 64) as usize;
                        match col.checked_mul(26) {
                            Some(m) => match m.checked_add(value) {
                                Some(x) => {
                                    col = x;
                                },
                                None => {
                                    too_big = true;
                                },
                            },
                            None => {
                                too_big = true;
                            },
                        }
                    }
                }
                proof {
                    assert(digits_of(q) == digits_of(p));
                }
            } else if '0' <= c && c <= '9' {
                digits.push(c);
                proof {
                    assert(letters_of(q) == letters_of(p));
                    assert(digits_of(q) == digits_of(p).push(c));
                }
            } else {
                proof {
                    assert(!alnum_text(u)) by {
                        assert(u[i as int] == c);
                    }
                }
                return None;
            }
            i = i + 1;
            proof {
                assert forall|k: int| 0 <= k < q.len() implies is_ascii_letter(#[trigger] q[k]) || is_ascii_digit(q[k]) by {
                    if k < p.len() {
                        assert(q[k] == p[k]);
                    }
                }
            }
        }
        proof {
            assert(u.subrange(0, u.len() as int) =~= u);
        }
        if digits.len() == 0 || n_letters == 0 || too_big {
            return None;
        }
        proof {
            lemma_letters_are_letters(u);
            lemma_column_number_nonneg(letters_of(u));
            assert(digits@.subrange(0, digits@.len() as int) =~= digits@);
            lemma_digits_are_digits(u);
        }
        match parse_usize(&digits, 0, digits.len()) {
            Some(row) => {
                proof {
                    assert(digits@[0] != '+');
                    assert(digits@.subrange(0, digits@.len() as int) == digits@);
                    lemma_digits_value_nonneg(digits@);
                    assert(row as int == digits_value(digits@));
                }
                if row == 0 {
                    None
                } else {
                    proof {
                        }
                    Some((col - 1, row - 1))
                }
            },
            None => {
                proof {
                    assert(digits@.len() > 0 && digits@[0] != '+');
                }
                None
            },
        }
    }

    /// Read the jump input and move the cursor to the row, cell or `row,col`
    /// pair it names, leaving a message that says what happened; then leave
    /// jump mode with the input cleared. Empty input just leaves jump mode.
    #[verifier::rlimit(40)]
    pub fn perform_jump(&mut self)
        requires
            old(self).wf(),
        ensures
            final(self).wf(),
            final(self).same_content(old(self)),
            final(self).scroll_offset == old(self).scroll_offset,
            final(self).horizontal_scroll_offset == old(self).horizontal_scroll_offset,
            !final(self).jump_mode,
            final(self).jump_input@ == old(self).jump_input@.take(0),
            old(self).jump_input@.len() == 0 ==> {
                &&& final(self).cursor_row == old(self).cursor_row
                &&& final(self).cursor_col == old(self).cursor_col
                &&& final(self).copy_feedback == old(self).copy_feedback
            },
            old(self).jump_input@.len() > 0 ==> {
                let o = jump_outcome(old(self).jump_input@, upper_text(trim_text(old(self).jump_input@)),
                    old(self).height(), old(self).width(), old(self).no_header);
                &&& final(self).copy_feedback matches Some(m) && m@ == o.1
                &&& match o.0 {
                    Some((r, c)) => final(self).cursor_row == r && final(self).cursor_col == match c {
                        Some(c) => c,
                        None => old(self).cursor_col as nat,
                    },
                    None => final(self).cursor_row == old(self).cursor_row && final(self).cursor_col == old(self).cursor_col,
                }
            },
    {
        if self.jump_input.as_str().is_empty() {
            self.jump_mode = false;
            proof {
                assert(self.jump_input@ =~= self.jump_input@.take(0));
            }
            return;
        }
        let ghost input0 = self.jump_input@;
        let (target, msg) = resolve_jump(self.jump_input.as_str(), self.sheet_data.height(), self.sheet_data.width(), self.no_header);
        match target {
            Some((r, c)) => {
                self.cursor_row = r;
                match c {
                    Some(c) => {
                        self.cursor_col = c;
                    },
                    None => {},
                }
            },
            None => {},
        }
        self.copy_feedback = Some(msg);
        self.jump_mode = false;
        self.jump_input = String::new();
        proof {
            assert(self.jump_input@ =~= input0.take(0));
        }
    }
}

/// Whether 1-based sheet row `r` holds data.
fn in_rows(r: usize, height: usize, no_header: bool) -> (b: bool)
    requires
        height + 2 <= usize::MAX,
    ensures
        b == row_in_sheet(r as nat, height as nat, no_header),
{
    let first: usize = if no_header { 1 } else { 2 };
    let last = (if height > 0 { height - 1 } else { 0 }) + first;
    height > 0 && 1 <= r && r <= last
}

/// The data row a jump to 1-based sheet row `r` lands on.
fn data_row_for(r: usize, no_header: bool) -> (d: usize)
    ensures
        d == jump_data_row(r as nat, no_header),
{
    let first: usize = if no_header { 1 } else { 2 };
    if r >= first { r - first } else { 0 }
}

fn row_jump(r: usize, height: usize, no_header: bool) -> (o: (Option<(usize, Option<usize>)>, String))
    requires
        height + 2 <= usize::MAX,
    ensures
        (match o.0 {
            Some((r, c)) => Some((r as nat, match c { Some(c) => Some(c as nat), None => None })),
            None => None,
        }) == row_outcome(r as nat, height as nat, no_header).0,
        o.1@ == row_outcome(r as nat, height as nat, no_header).1,
{
    let first: usize = if no_header { 1 } else { 2 };
    let last = (if height > 0 { height - 1 } else { 0 }) + first;
    if in_rows(r, height, no_header) {
        let mut msg = string_of("Jumped to row ");
        push_decimal(&mut msg, r as u64);
        (Some((data_row_for(r, no_header), None)), msg)
    } else {
        let mut msg = string_of("Invalid row: ");
        push_decimal(&mut msg, r as u64);
        push_str(&mut msg, " (max: ");
        push_decimal(&mut msg, last as u64);
        push_str(&mut msg, ")");
        (None, msg)
    }
}

fn cell_jump(c: usize, r: usize, t: &str, height: usize, width: usize, no_header: bool) -> (o: (Option<(usize, Option<usize>)>, String))
    requires
        height + 2 <= usize::MAX,
        r < usize::MAX,
    ensures
        (match o.0 {
            Some((r, c)) => Some((r as nat, match c { Some(c) => Some(c as nat), None => None })),
            None => None,
        }) == cell_outcome(c as nat, r as nat, t@, upper_text(t@), height as nat, width as nat, no_header).0,
        o.1@ == cell_outcome(c as nat, r as nat, t@, upper_text(t@), height as nat, width as nat, no_header).1,
{
    if in_rows(r + 1, height, no_header) && c < width {
        let up = to_uppercase(t);
        let mut msg = string_of("Jumped to ");
        push_str(&mut msg, up.as_str());
        (Some((data_row_for(r + 1, no_header), Some(c))), msg)
    } else {
        let mut msg = string_of("Cell address out of bounds: ");
        push_str(&mut msg, t);
        (None, msg)
    }
}

#[verifier::loop_isolation(false)]
fn pair_jump(t: &Vec<char>, height: usize, width: usize, no_header: bool) -> (o: (Option<(usize, Option<usize>)>, String))
    requires
        height + 2 <= usize::MAX,
    ensures
        (match o.0 {
            Some((r, c)) => Some((r as nat, match c { Some(c) => Some(c as nat), None => None })),
            None => None,
        }) == pair_outcome(t@, height as nat, width as nat, no_header).0,
        o.1@ == pair_outcome(t@, height as nat, width as nat, no_header).1,
{
    let k = find_char_from(t, ',', 0);
    if k < t.len() {
        let left = string_from(t, 0, k);
        let right = string_from(t, k + 1, t.len());
        let a = parse_usize_str(trim(left.as_str()).as_str());
        let b = parse_usize_str(trim(right.as_str()).as_str());
        match (a, b) {
            (Some(r), Some(c)) => {
                if in_rows(r, height, no_header) && c > 0 && c <= width {
                    let mut msg = string_of("Jumped to row ");
                    push_decimal(&mut msg, r as u64);
                    push_str(&mut msg, ", col ");
                    push_decimal(&mut msg, c as u64);
                    (Some((data_row_for(r, no_header), Some(c - 1))), msg)
                } else {
                    (None, string_of("Invalid row/column number"))
                }
            },
            _ => (None, string_of("Invalid format. Use: row number, cell (A5), or row,col")),
        }
    } else {
        (None, string_of("Invalid format. Use: row number, cell (A5), or row,col"))
    }
}

/// What typing `input` in jump mode does on a sheet of `height` rows and
/// `width` columns: the cursor row and, when it changes, column to move to
/// (none when the input is refused), and the message to show.
pub fn resolve_jump(input: &str, height: usize, width: usize, no_header: bool) -> (o: (Option<(usize, Option<usize>)>, String))
    requires
        height + 2 <= usize::MAX,
    ensures
        (match o.0 {
            Some((r, c)) => Some((r as nat, match c { Some(c) => Some(c as nat), None => None })),
            None => None,
        }) == jump_outcome(input@, upper_text(trim_text(input@)), height as nat, width as nat, no_header).0,
        o.1@ == jump_outcome(input@, upper_text(trim_text(input@)), height as nat, width as nat, no_header).1,
{
    let trimmed = trim(input);
    let t = chars_of(trimmed.as_str());
    proof {
        assert(t@.subrange(0, t@.len() as int) =~= t@);
    }
    match parse_usize(&t, 0, t.len()) {
        Some(r) => row_jump(r, height, no_header),
        None => match TuiState::parse_cell_address(trimmed.as_str()) {
            Some((c, r)) => {
                proof {
                    lemma_parse_row_below_max(trimmed@);
                }
                cell_jump(c, r, trimmed.as_str(), height, width, no_header)
            },
            None => pair_jump(&t, height, width, no_header),
        },
    }
}

/// A parsed address's row index is below `usize::MAX`.
proof fn lemma_parse_row_below_max(t: Seq<char>)
    ensures
        spec_parse_cell_address(t) matches Some((c, r)) ==> r < usize::MAX,
        cell_address_of(upper_text(t)) matches Some((c, r)) ==> r < usize::MAX,
{
}

// ===== Laws =====

proof fn lemma_col_letters_upper(col: nat)
    ensures
        col_letters(col).len() >= 1,
        forall|k: int| 0 <= k < col_letters(col).len() ==> is_ascii_upper(#[trigger] col_letters(col)[k]),
    decreases col,
{
    if col >= 26 {
        lemma_col_letters_upper((col / 26 - 1) as nat);
        let p = col_letters((col / 26 - 1) as nat);
        assert forall|k: int| 0 <= k < col_letters(col).len() implies is_ascii_upper(#[trigger] col_letters(col)[k]) by {
            if k < p.len() {
                assert(col_letters(col)[k] == p[k]);
            }
        }
    }
}

pub(crate) proof fn lemma_decimal_digits(n: nat)
    ensures
        decimal(n).len() >= 1,
        forall|k: int| 0 <= k < decimal(n).len() ==> is_ascii_digit(#[trigger] decimal(n)[k]),
    decreases n,
{
    if n >= 10 {
        lemma_decimal_digits(n / 10);
        let p = decimal(n / 10);
        assert forall|k: int| 0 <= k < decimal(n).len() implies is_ascii_digit(#[trigger] decimal(n)[k]) by {
            if k < p.len() {
                assert(decimal(n)[k] == p[k]);
            }
        }
    }
}

proof fn lemma_column_number_col_letters(col: nat)
    ensures
        column_number(col_letters(col)) == col + 1,
    decreases col,
{
    if col >= 26 {
        let q = (col / 26 - 1) as nat;
        lemma_column_number_col_letters(q);
        let l = col_letters(col);
        assert(l.drop_last() =~= col_letters(q));
        assert(col == (col / 26) * 26 + col % 26) by (nonlinear_arith);
        let m = col % 26;
        assert(((65 + m) as u8) as int == 65 + m);
        assert(letter_value(l.last()) == m + 1);
        assert(l.len() > 0);
        assert(column_number(l) == column_number(l.drop_last()) * 26 + letter_value(l.last()));
        assert(column_number(l.drop_last()) == q + 1);
    } else {
        let l = col_letters(col);
        assert(l.drop_last() =~= Seq::<char>::empty());
        assert(((65 + col) as u8) as int == 65 + col);
        assert(letter_value(l.last()) == col + 1);
        assert(column_number(l) == column_number(l.drop_last()) * 26 + letter_value(l.last()));
        assert(column_number(l.drop_last()) == 0);
    }
}

pub(crate) proof fn lemma_digits_value_decimal(n: nat)
    ensures
        digits_value(decimal(n)) == n,
    decreases n,
{
    if n >= 10 {
        lemma_digits_value_decimal(n / 10);
        let d = decimal(n);
        assert(d.subrange(0, d.len() - 1) =~= decimal(n / 10));
        assert(n == (n / 10) * 10 + n % 10) by (nonlinear_arith);
        let m = n % 10;
        assert(((48 + m) as u8) as int == 48 + m);
        assert(d[d.len() - 1] as int - 48 == m);
        assert(d.len() > 0);
        assert(digits_value(d) == digits_value(d.subrange(0, d.len() - 1)) * 10 + (d[d.len() - 1] as int - 48));
    } else {
        let d = decimal(n);
        assert(d.subrange(0, d.len() - 1) =~= Seq::<char>::empty());
        assert(((48 + n) as u8) as int == 48 + n);
        assert(d[d.len() - 1] as int - 48 == n);
        assert(digits_value(d) == digits_value(d.subrange(0, d.len() - 1)) * 10 + (d[d.len() - 1] as int - 48));
        assert(digits_value(d.subrange(0, d.len() - 1)) == 0);
    }
}

/// Letters then digits: the letters and the digits come apart again.
proof fn lemma_letters_then_digits(l: Seq<char>, d: Seq<char>)
    requires
        forall|k: int| 0 <= k < l.len() ==> is_ascii_upper(#[trigger] l[k]),
        forall|k: int| 0 <= k < d.len() ==> is_ascii_digit(#[trigger] d[k]),
    ensures
        letters_of(l + d) == l,
        digits_of(l + d) == d,
    decreases l.len() + d.len(),
{
    if d.len() > 0 {
        lemma_letters_then_digits(l, d.drop_last());
        assert((l + d).drop_last() =~= l + d.drop_last());
        assert((l + d).last() == d.last());
        assert(digits_of(l + d.drop_last()).push(d.last()) =~= d);
    } else if l.len() > 0 {
        lemma_letters_then_digits(l.drop_last(), d);
        assert(l + d =~= l);
        assert(l.drop_last() + d =~= l.drop_last());
        assert(letters_of(l.drop_last()).push(l.last()) =~= l);
    } else {
        assert(l + d =~= Seq::<char>::empty());
    }
}

/// The address text of cell (`col`, `row`): its column letters, then its
/// 1-based row number.
pub open spec fn address_text(col: nat, row: nat) -> Seq<char> {
    col_letters(col) + decimal(row + 1)
}

proof fn lemma_address_text_shape(col: nat, row: nat)
    ensures
        is_ascii_text(address_text(col, row)),
        ascii_upper_text(address_text(col, row)) == address_text(col, row),
        alnum_text(address_text(col, row)),
        letters_of(address_text(col, row)) == col_letters(col),
        digits_of(address_text(col, row)) == decimal(row + 1),
        trim_text(address_text(col, row)) == address_text(col, row),
        parse_usize_text(address_text(col, row)) is None,
{
    let l = col_letters(col);
    let d = decimal(row + 1);
    let a = address_text(col, row);
    lemma_col_letters_upper(col);
    lemma_decimal_digits(row + 1);
    lemma_letters_then_digits(l, d);
    assert forall|k: int| 0 <= k < a.len() implies is_ascii_upper(a[k]) || is_ascii_digit(a[k]) by {
        if k < l.len() {
            assert(a[k] == l[k]);
        } else {
            assert(a[k] == d[k - l.len()]);
        }
    }
    assert(ascii_upper_text(a) =~= a);
    assert(a[0] == l[0]);
    assert(a[a.len() - 1] == d[d.len() - 1]);
    assert(skip_ws(a, 0) == 0);
    assert(trim_end_at(a, a.len() as int) == a.len());
    assert(a.subrange(0, a.len() as int) =~= a);
}

/// Parsing the address of a cell gives the cell back: the letters of column
/// `col` followed by the 1-based row number parse to (`col`, `row`), for
/// columns named by at most 13 letters.
pub proof fn cell_address_round_trip(col: usize, row: usize)
    requires
        col_letters(col as nat).len() <= 13,
        col < usize::MAX,
        row < usize::MAX,
    ensures
        is_ascii_text(address_text(col as nat, row as nat)),
        cell_address_of(ascii_upper_text(address_text(col as nat, row as nat))) == Some((col, row)),
{
    lemma_address_text_shape(col as nat, row as nat);
    lemma_column_number_col_letters(col as nat);
    lemma_digits_value_decimal((row + 1) as nat);
}

/// Jumping to the address shown for a cell of the sheet moves the cursor to
/// that cell: cell (`col`, data row `row`) is shown as its column letters and
/// its sheet row number.
pub proof fn jump_to_shown_address(col: usize, row: usize, height: usize, width: usize, no_header: bool)
    requires
        row < height,
        col < width,
        height + 2 <= usize::MAX,
        col_letters(col as nat).len() <= 13,
    ensures
        ({
            let a = col_letters(col as nat) + decimal(row as nat + first_sheet_row(no_header));
            jump_outcome(a, upper_text(trim_text(a)), height as nat, width as nat, no_header).0
                == Some((row as nat, Some(col as nat)))
        }),
{
    let sheet_row = (row + first_sheet_row(no_header) - 1) as usize;
    assert(address_text(col as nat, sheet_row as nat) == col_letters(col as nat) + decimal(row as nat + first_sheet_row(no_header)));
    cell_address_round_trip(col, sheet_row);
    lemma_address_text_shape(col as nat, sheet_row as nat);
}

/// Jumping to the sheet row number shown for a data row moves the cursor to
/// that row and keeps the column.
pub proof fn jump_to_shown_row(row: usize, height: usize, width: usize, no_header: bool)
    requires
        row < height,
        height + 2 <= usize::MAX,
    ensures
        ({
            let a = decimal(row as nat + first_sheet_row(no_header));
            jump_outcome(a, upper_text(trim_text(a)), height as nat, width as nat, no_header).0
                == Some((row as nat, None::<nat>))
        }),
{
    let n = (row + first_sheet_row(no_header)) as nat;
    let a = decimal(n);
    lemma_decimal_digits(n);
    lemma_digits_value_decimal(n);
    assert(a[0] != '+');
    assert(skip_ws(a, 0) == 0);
    assert(trim_end_at(a, a.len() as int) == a.len());
    assert(a.subrange(0, a.len() as int) =~= a);
    assert(crate::cell::all_digits(a));
}

} // verus!
