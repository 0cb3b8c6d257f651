//! Column letters and file-type detection.

use vstd::prelude::*;
use crate::csv_file::{is_plain_path, plain_extension};
use crate::text::{ascii_lower_text, ascii_lowercase, chars_of, empty_string, push_char, str_eq, string_from};

verus! {

/// The letter that stands for digit `d` (0..26) of a column name.
pub open spec fn letter(d: nat) -> char {
    ((65 + d) as u8) as char
}

/// Spreadsheet-style column name of a zero-based column index
/// (bijective base 26: 0 -> "A", 25 -> "Z", 26 -> "AA", ...).
pub open spec fn col_letters(col: nat) -> Seq<char>
    decreases col,
{
    if col < 26 {
        seq![letter(col)]
    } else {
        col_letters((col / 26 - 1) as nat).push(letter(col % 26))
    }
}

/// Convert a zero-based column index into spreadsheet-style letters
/// (0 -> "A", 25 -> "Z", 26 -> "AA", ...).
pub fn column_index_to_letters(col: usize) -> (s: String)
    ensures
        s@ == col_letters(col as nat),
    decreases col,
{
    let d: u8 = (col % 26) as u8;
    let c: char = (65u8 + d) as char;
    if col < 26 {
        let mut s = empty_string();
        push_char(&mut s, c);
        s
    } else {
        let mut s = column_index_to_letters(col / 26 - 1);
        push_char(&mut s, c);
        s
    }
}

// ===== File types =====

/// The kinds of file the viewer reads.
#[derive(Debug, Clone, Copy, PartialEq, Eq, Structural)]
pub enum FileType {
    Xlsx,
    Xls,
    Csv,
    Unknown,
}

/// The file type an extension names (in any ASCII case): `csv`, `tsv`,
/// `tab` are CSV; `xlsx`, `xlsm`, `xlsb`, `ods` are read like XLSX; `xls`
/// is XLS; any other extension, or none, says nothing.
pub open spec fn file_type_for(ext: Option<Seq<char>>) -> Option<FileType> {
    match ext {
        None => None,
        Some(e) => {
            let l = ascii_lower_text(e);
            if l == "csv"@ || l == "tsv"@ || l == "tab"@ {
                Some(FileType::Csv)
            } else if l == "xlsx"@ || l == "xlsm"@ || l == "xlsb"@ || l == "ods"@ {
                Some(FileType::Xlsx)
            } else if l == "xls"@ {
                Some(FileType::Xls)
            } else {
                None
            }
        },
    }
}

fn is_one_of(l: &Vec<char>, a: &str, b: &str, c: &str, d: &str) -> (r: bool)
    ensures
        r == (l@ == a@ || l@ == b@ || l@ == c@ || l@ == d@),
{
    let s = string_from(l, 0, l.len());
    proof {
        assert(l@.subrange(0, l@.len() as int) =~= l@);
    }
    str_eq(s.as_str(), a) || str_eq(s.as_str(), b) || str_eq(s.as_str(), c) || str_eq(s.as_str(), d)
}

/// The file type an extension names (see `file_type_for`).
pub fn file_type_for_extension(ext: Option<&str>) -> (t: Option<FileType>)
    ensures
        t == file_type_for(match ext {
            Some(e) => Some(e@),
            None => None,
        }),
{
    match ext {
        None => None,
        Some(e) => {
            let l = ascii_lowercase(&chars_of(e));
            if is_one_of(&l, "csv", "tsv", "tab", "tab") {
                Some(FileType::Csv)
            } else if is_one_of(&l, "xlsx", "xlsm", "xlsb", "ods") {
                Some(FileType::Xlsx)
            } else if is_one_of(&l, "xls", "xls", "xls", "xls") {
                Some(FileType::Xls)
            } else {
                None
            }
        },
    }
}

/// The file type a path's extension names, if any (see `file_type_for`);
/// for a plain path, the type its `plain_extension` names. CSV/TSV have
/// no magic bytes, so the extension is trusted first.
pub fn file_type_from_extension(path: &str) -> (t: Option<FileType>)
    ensures
        !path@.contains('.') ==> t is None,
        t != Some(FileType::Unknown),
        is_plain_path(path@) ==> t == file_type_for(plain_extension(path@)),
{
    match crate::csv_file::path_extension(path) {
        Some(e) => file_type_for_extension(Some(e.as_str())),
        None => None,
    }
}

/// A UTF-8 continuation byte.
pub open spec fn continuation(b: u8) -> bool {
    0x80 <= b <= 0xBF
}

/// Well-formed UTF-8 (the byte sequences of the Unicode Standard's table
/// of well-formed UTF-8: no overlong forms, no surrogates, nothing above
/// U+10FFFF, nothing cut short).
pub open spec fn utf8_valid(s: Seq<u8>) -> bool
    decreases s.len(),
{
    if s.len() == 0 {
        true
    } else {
        let b = s[0];
        let n: int = if b < 0x80 {
            1
        } else if 0xC2 <= b <= 0xDF {
            2
        } else if 0xE0 <= b <= 0xEF {
            3
        } else if 0xF0 <= b <= 0xF4 {
            4
        } else {
            0
        };
        &&& n > 0
        &&& s.len() >= n
        &&& (n >= 2 ==> {
            let lo: u8 = if b == 0xE0 { 0xA0 } else if b == 0xF0 { 0x90 } else { 0x80 };
            let hi: u8 = if b == 0xED { 0x9F } else if b == 0xF4 { 0x8F } else { 0xBF };
            lo <= s[1] <= hi
        })
        &&& (n >= 3 ==> continuation(s[2]))
        &&& (n >= 4 ==> continuation(s[3]))
        &&& utf8_valid(s.subrange(n, s.len() as int))
    }
}

/// Whether the bytes are well-formed UTF-8 (see `utf8_valid`), checked one
/// encoded character at a time.
fn is_utf8(bytes: &[u8]) -> (b: bool)
    ensures
        b == utf8_valid(bytes@),
{
    let n = bytes.len();
    let mut i: usize = 0;
    proof {
        assert(bytes@.subrange(0, n as int) =~= bytes@);
    }
    while i < n
        invariant
            n == bytes@.len(),
            i <= n,
            utf8_valid(bytes@) == utf8_valid(bytes@.subrange(i as int, n as int)),
        decreases n - i,
    {
        let ghost t = bytes@.subrange(i as int, n as int);
        let b = bytes[i];
        let len: usize = if b < 0x80 {
            1
        } else if 0xC2 <= b && b <= 0xDF {
            2
        } else if 0xE0 <= b && b <= 0xEF {
            3
        } else if 0xF0 <= b && b <= 0xF4 {
            4
        } else {
            0
        };
        proof {
            assert(t[0] == b);
        }
        if len == 0 || n - i < len {
            return false;
        }
        if len >= 2 {
            let lo: u8 = if b == 0xE0 { 0xA0 } else if b == 0xF0 { 0x90 } else { 0x80 };
            let hi: u8 = if b == 0xED { 0x9F } else if b == 0xF4 { 0x8F } else { 0xBF };
            let b1 = bytes[i + 1];
            proof {
                assert(t[1] == b1);
            }
            if b1 < lo || b1 > hi {
                return false;
            }
        }
        if len >= 3 {
            let b2 = bytes[i + 2];
            proof {
                assert(t[2] == b2);
            }
            if b2 < 0x80 || b2 > 0xBF {
                return false;
            }
        }
        if len >= 4 {
            let b3 = bytes[i + 3];
            proof {
                assert(t[3] == b3);
            }
            if b3 < 0x80 || b3 > 0xBF {
                return false;
            }
        }
        proof {
            assert(t.subrange(len as int, t.len() as int) =~= bytes@.subrange(i + len, n as int));
        }
        i = i + len;
    }
    proof {
        assert(bytes@.subrange(n as int, n as int) =~= Seq::<u8>::empty());
    }
    true
}

/// The ZIP signature `PK\x03\x04` that opens XLSX files.
pub open spec fn zip_magic() -> Seq<u8> {
    seq![0x50u8, 0x4Bu8, 0x03u8, 0x04u8]
}

/// The OLE2 signature that opens XLS files.
pub open spec fn ole2_magic() -> Seq<u8> {
    seq![0xD0u8, 0xCFu8, 0x11u8, 0xE0u8, 0xA1u8, 0xB1u8, 0x1Au8, 0xE1u8]
}

/// The file type the first bytes of a file show: XLSX for the ZIP
/// signature, XLS for the OLE2 one, CSV for text without NUL bytes that is
/// valid UTF-8, otherwise unknown.
pub open spec fn file_type_of_header(h: Seq<u8>) -> FileType {
    if h.len() >= 4 && h.take(4) == zip_magic() {
        FileType::Xlsx
    } else if h.len() >= 8 && h.take(8) == ole2_magic() {
        FileType::Xls
    } else if (forall|i: int| 0 <= i < h.len() ==> h[i] != 0u8) && utf8_valid(h) {
        FileType::Csv
    } else {
        FileType::Unknown
    }
}

/// The file type the first bytes of a file show (see `file_type_of_header`).
#[verifier::loop_isolation(false)]
pub fn file_type_from_header(header: &[u8]) -> (t: FileType)
    ensures
        t == file_type_of_header(header@),
{
    let n = header.len();
    if n >= 4 && header[0] == 0x50 && header[1] == 0x4B && header[2] == 0x03 && header[3] == 0x04 {
        proof {
            assert(header@.take(4) =~= zip_magic());
        }
        return FileType::Xlsx;
    }
    proof {
        if n >= 4 {
            assert(header@.take(4)[0] == header@[0]);
            assert(header@.take(4)[1] == header@[1]);
            assert(header@.take(4)[2] == header@[2]);
            assert(header@.take(4)[3] == header@[3]);
        }
    }
    if n >= 8 && header[0] == 0xD0 && header[1] == 0xCF && header[2] == 0x11 && header[3] == 0xE0 && header[4] == 0xA1
        && header[5] == 0xB1 && header[6] == 0x1A && header[7] == 0xE1 {
        proof {
            assert(header@.take(8) =~= ole2_magic());
        }
        return FileType::Xls;
    }
    proof {
        if n >= 8 {
            assert(header@.take(8)[0] == header@[0]);
            assert(header@.take(8)[1] == header@[1]);
            assert(header@.take(8)[2] == header@[2]);
            assert(header@.take(8)[3] == header@[3]);
            assert(header@.take(8)[4] == header@[4]);
            assert(header@.take(8)[5] == header@[5]);
            assert(header@.take(8)[6] == header@[6]);
            assert(header@.take(8)[7] == header@[7]);
        }
    }
    let mut i: usize = 0;
    while i < n
        invariant
            n == header@.len(),
            i <= n,
            forall|k: int| 0 <= k < i ==> header@[k] != 0u8,
        decreases n - i,
    {
        if header[i] == 0 {
            proof {
                assert(header@[i as int] == 0u8);
            }
            return FileType::Unknown;
        }
        i = i + 1;
    }
    if is_utf8(header) {
        FileType::Csv
    } else {
        FileType::Unknown
    }
}

} // verus!
