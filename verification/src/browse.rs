//! Browsing a table page by page: how many pages there are, where a page
//! begins, the condition that keeps the rows in which a text occurs, and the
//! queries that ask for the rows.

use vstd::prelude::*;
use vstd::string::StringExecFns;
use crate::text::texts;

verus! {

/// `String::push` of the standard library, which appends one character to
/// the end of a string.
pub assume_specification[ String::push ](text: &mut String, c: char)
    ensures
        final(text)@ == old(text)@.push(c),
;

/// The number of pages that `total_records` rows fill at `page_size` rows a
/// page: the quotient of `total_records + page_size - 1` by `page_size`,
/// rounded towards 0, and 0 where `page_size` is not positive.
pub open spec fn pages_for(total_records: int, page_size: int) -> int {
    if page_size <= 0 {
        0
    } else if total_records + page_size - 1 >= 0 {
        (total_records + page_size - 1) / page_size
    } else {
        -((-(total_records + page_size - 1)) / page_size)
    }
}

/// A text as it stands between single quotes in a query: every single quote
/// of it is written twice.
pub open spec fn quoted(text: Seq<char>) -> Seq<char>
    decreases text.len(),
{
    if text.len() == 0 {
        seq![]
    } else if text.last() == '\'' {
        quoted(text.drop_last()) + seq!['\'', '\'']
    } else {
        quoted(text.drop_last()) + seq![text.last()]
    }
}

/// The condition that `column` holds `needle` somewhere.
pub open spec fn like_term(column: Seq<char>, needle: Seq<char>) -> Seq<char> {
    "\""@ + column + "\" LIKE '%"@ + quoted(needle) + "%'"@
}

/// The condition that one of the first `n` of `columns` holds `needle`
/// somewhere: the conditions of the columns with ` OR ` between them.
pub open spec fn any_column_like(columns: Seq<Seq<char>>, needle: Seq<char>, n: nat) -> Seq<char>
    decreases n,
{
    if n == 0 {
        seq![]
    } else if n == 1 {
        like_term(columns[0], needle)
    } else {
        any_column_like(columns, needle, (n - 1) as nat) + " OR "@ + like_term(
            columns[n - 1],
            needle,
        )
    }
}

/// The clause that a search adds to a query: nothing where no text or an
/// empty one is searched for, else ` WHERE ` and the condition that one of
/// the columns holds the text.
pub open spec fn search_clause_text(
    columns: Seq<Seq<char>>,
    search: Option<Seq<char>>,
) -> Seq<char> {
    match search {
        Some(needle) => if needle.len() == 0 {
            seq![]
        } else {
            " WHERE "@ + any_column_like(columns, needle, columns.len())
        },
        None => seq![],
    }
}

/// The digit that stands for `d`, where `d` is below 10.
pub open spec fn digit_char(d: nat) -> char {
    if d == 0 {
        '0'
    } else if d == 1 {
        '1'
    } else if d == 2 {
        '2'
    } else if d == 3 {
        '3'
    } else if d == 4 {
        '4'
    } else if d == 5 {
        '5'
    } else if d == 6 {
        '6'
    } else if d == 7 {
        '7'
    } else if d == 8 {
        '8'
    } else {
        '9'
    }
}

/// A number in decimal digits, without leading zeros.
pub open spec fn decimal_text(n: nat) -> Seq<char>
    decreases n,
{
    if n < 10 {
        seq![digit_char(n)]
    } else {
        decimal_text(n / 10).push(digit_char(n % 10))
    }
}

/// A number in decimal digits, with a minus sign before them where it is
/// below 0.
pub open spec fn signed_decimal_text(n: int) -> Seq<char> {
    if n < 0 {
        "-"@ + decimal_text((-n) as nat)
    } else {
        decimal_text(n as nat)
    }
}

/// What is shown in place of a binary value of `byte_length` bytes.
pub open spec fn blob_label_text(byte_length: nat) -> Seq<char> {
    "<"@ + decimal_text(byte_length) + " bytes>"@
}

/// The query for the names of the columns of `table`.
pub open spec fn columns_query_text(table: Seq<char>) -> Seq<char> {
    "PRAGMA table_info(\""@ + table + "\")"@
}

/// The query for the number of rows of `table`.
pub open spec fn count_query_text(table: Seq<char>) -> Seq<char> {
    "SELECT COUNT(*) FROM \""@ + table + "\""@
}

/// The query for the number of rows of `table` that meet `clause`.
pub open spec fn filtered_count_query_text(table: Seq<char>, clause: Seq<char>) -> Seq<char> {
    count_query_text(table) + " "@ + clause
}

/// The query for all rows of `table`.
pub open spec fn rows_query_text(table: Seq<char>) -> Seq<char> {
    "SELECT * FROM \""@ + table + "\""@
}

/// The query for `page_size` rows of `table` that meet `clause`, after the
/// first `offset` of them.
pub open spec fn page_query_text(
    table: Seq<char>,
    clause: Seq<char>,
    page_size: int,
    offset: int,
) -> Seq<char> {
    rows_query_text(table) + " "@ + clause + " LIMIT "@ + signed_decimal_text(page_size)
        + " OFFSET "@ + signed_decimal_text(offset)
}

/// A number in decimal digits.
pub fn decimal(n: u64) -> (text: String)
    ensures
        text@ == decimal_text(n as nat),
    decreases n,
{
    let mut text = if n < 10 {
        String::new()
    } else {
        decimal(n / 10)
    };
    let digit = match n % 10 {
        0 => '0',
        1 => '1',
        2 => '2',
        3 => '3',
        4 => '4',
        5 => '5',
        6 => '6',
        7 => '7',
        8 => '8',
        _ => '9',
    };
    text.push(digit);
    text
}

/// A number in decimal digits, with its sign where it is below 0.
pub fn signed_decimal(n: i64) -> (text: String)
    ensures
        text@ == signed_decimal_text(n as int),
{
    if n < 0 {
        let size: i128 = -(n as i128);
        String::from_str("-").concat(decimal(size as u64).as_str())
    } else {
        decimal(n as u64)
    }
}

/// What is shown in place of a binary value of `byte_length` bytes.
pub fn blob_label(byte_length: usize) -> (label: String)
    ensures
        label@ == blob_label_text(byte_length as nat),
{
    String::from_str("<").concat(decimal(byte_length as u64).as_str()).concat(" bytes>")
}

/// The query for the names of the columns of `table`.
pub fn columns_query(table: &str) -> (query: String)
    ensures
        query@ == columns_query_text(table@),
{
    String::from_str("PRAGMA table_info(\"").concat(table).concat("\")")
}

/// The query for the number of rows of `table`.
pub fn count_query(table: &str) -> (query: String)
    ensures
        query@ == count_query_text(table@),
{
    String::from_str("SELECT COUNT(*) FROM \"").concat(table).concat("\"")
}

/// The query for the number of rows of `table` that meet `clause`.
pub fn filtered_count_query(table: &str, clause: &str) -> (query: String)
    ensures
        query@ == filtered_count_query_text(table@, clause@),
{
    count_query(table).concat(" ").concat(clause)
}

/// The query for all rows of `table`.
pub fn rows_query(table: &str) -> (query: String)
    ensures
        query@ == rows_query_text(table@),
{
    String::from_str("SELECT * FROM \"").concat(table).concat("\"")
}

/// The query for `page_size` rows of `table` that meet `clause`, after the
/// first `offset` of them.
pub fn page_query(table: &str, clause: &str, page_size: i64, offset: i64) -> (query: String)
    ensures
        query@ == page_query_text(table@, clause@, page_size as int, offset as int),
{
    let mut query = rows_query(table);
    query.append(" ");
    query.append(clause);
    query.append(" LIMIT ");
    query.append(signed_decimal(page_size).as_str());
    query.append(" OFFSET ");
    query.append(signed_decimal(offset).as_str());
    query
}

/// Writes every single quote of `text` twice.
pub fn quote(text: &str) -> (escaped: String)
    ensures
        escaped@ == quoted(text@),
{
    let mut escaped = String::new();
    for c in it: text.chars()
        invariant
            it.seq() == text@,
            escaped@ == quoted(text@.take(it.index())),
    {
        proof {
            let i = it.index();
            assert(text@.take(i + 1).drop_last() =~= text@.take(i));
        }
        if c == '\'' {
            escaped.push('\'');
            escaped.push('\'');
        } else {
            escaped.push(c);
        }
    }
    assert(text@.take(text@.len() as int) =~= text@);
    escaped
}

/// The clause that a search for `search` in `columns` adds to a query.
pub fn search_clause(columns: &Vec<String>, search: Option<&str>) -> (clause: String)
    ensures
        clause@ == search_clause_text(
            texts(columns@),
            match search {
                Some(needle) => Some(needle@),
                None => None,
            },
        ),
{
    let needle = match search {
        Some(needle) => needle,
        None => {
            return String::new();
        },
    };
    if needle.unicode_len() == 0 {
        return String::new();
    }
    let escaped = quote(needle);
    let mut condition = String::new();
    let mut i: usize = 0;
    while i < columns.len()
        invariant
            i <= columns@.len(),
            escaped@ == quoted(needle@),
            condition@ == any_column_like(texts(columns@), needle@, i as nat),
        decreases columns@.len() - i,
    {
        if i > 0 {
            condition.append(" OR ");
        }
        condition.append("\"");
        condition.append(columns[i].as_str());
        condition.append("\" LIKE '%");
        condition.append(escaped.as_str());
        condition.append("%'");
        i = i + 1;
    }
    String::from_str(" WHERE ").concat(condition.as_str())
}

/// The number of pages that `total_records` rows fill at `page_size` rows a
/// page.
pub fn total_pages(total_records: i64, page_size: i64) -> (pages: i64)
    ensures
        pages == pages_for(total_records as int, page_size as int),
{
    if page_size <= 0 {
        0
    } else {
        let padded: i128 = total_records as i128 + page_size as i128 - 1;
        let size: u128 = page_size as u128;
        if padded >= 0 {
            let quotient: u128 = padded as u128 / size;
            assert(quotient <= padded) by (nonlinear_arith)
                requires
                    quotient == padded as int / size as int,
                    padded >= 0,
                    size >= 1,
            ;
            assert(padded as int / size as int <= i64::MAX) by (nonlinear_arith)
                requires
                    padded == total_records + size - 1,
                    total_records <= i64::MAX,
                    1 <= size <= i64::MAX,
            ;
            quotient as i64
        } else {
            let quotient: u128 = (-padded) as u128 / size;
            assert(quotient <= -padded) by (nonlinear_arith)
                requires
                    quotient == (-padded) as int / size as int,
                    -padded >= 0,
                    size >= 1,
            ;
            let pages: i128 = -(quotient as i128);
            pages as i64
        }
    }
}

/// The number of rows that precede page `page`, counted from 1, at
/// `page_size` rows a page, unless that number is not one of 64 bits.
pub fn page_offset(page: i64, page_size: i64) -> (offset: Option<i64>)
    ensures
        match offset {
            Some(rows) => rows == (page - 1) * page_size,
            None => !(i64::MIN <= (page - 1) * page_size <= i64::MAX),
        },
{
    let before: i128 = page as i128 - 1;
    assert(-0x8000_0000_0000_0001 * 0x8000_0000_0000_0000 <= before * page_size
        <= 0x8000_0000_0000_0001 * 0x8000_0000_0000_0000) by (nonlinear_arith)
        requires
            -0x8000_0000_0000_0001 <= before <= 0x8000_0000_0000_0000,
            -0x8000_0000_0000_0000 <= page_size <= 0x8000_0000_0000_0000,
    ;
    let rows: i128 = before * page_size as i128;
    if rows < i64::MIN as i128 || rows > i64::MAX as i128 {
        None
    } else {
        Some(rows as i64)
    }
}

} // verus!
