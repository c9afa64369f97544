//! Rendering of lookup records as CSV, TSV, text, HTML, XML or raw WHOIS.
use vstd::prelude::*;

use crate::models::{row_of, IpRecord, COLUMNS, N_COLUMNS};
use crate::text::{
    ascii_lower, chars_of, eq_lit, join, join_strings, lower_vec, push_char, push_chars, push_str,
    string_of,
};

verus! {

// ---------------------------------------------------------------------------
// Formats and errors
// ---------------------------------------------------------------------------

/// Why an export was refused.
#[derive(Clone, Debug)]
pub enum ExportError {
    /// The format name is not one of the supported formats.
    InvalidFormat(String),
    /// The records could not be serialized.
    SerializationError(String),
}

impl ExportError {
    /// The message shown for this error.
    pub fn message(&self) -> (r: String)
        ensures
            r@ == (match self {
                ExportError::InvalidFormat(s) => "Unknown export format: "@ + s@,
                ExportError::SerializationError(s) => "Serialization error: "@ + s@,
            }),
    {
        match self {
            ExportError::InvalidFormat(s) => {
                let mut m = "Unknown export format: ".to_string();
                push_str(&mut m, s.as_str());
                m
            },
            ExportError::SerializationError(s) => {
                let mut m = "Serialization error: ".to_string();
                push_str(&mut m, s.as_str());
                m
            },
        }
    }
}

/// The export formats.
#[derive(Clone, Copy, PartialEq, Eq, Structural, Debug)]
pub enum ExportFormat {
    Csv,
    Tsv,
    /// Plain-text vertical sheet (one field per line).
    Txt,
    /// Plain-text horizontal table (columns separated by `" | "`).
    TxtHorizontal,
    /// HTML sheet: one `<div class="record">` per record.
    HtmlVertical,
    /// HTML table.
    HtmlHorizontal,
    Xml,
    WhoisRaw,
}

/// The format named by `s` (compared case-insensitively).
pub open spec fn format_named(s: Seq<char>) -> Option<ExportFormat> {
    let k = ascii_lower(s);
    if k == "csv"@ {
        Some(ExportFormat::Csv)
    } else if k == "tsv"@ {
        Some(ExportFormat::Tsv)
    } else if k == "txt"@ || k == "txt-v"@ {
        Some(ExportFormat::Txt)
    } else if k == "txt-h"@ {
        Some(ExportFormat::TxtHorizontal)
    } else if k == "html"@ || k == "html-h"@ {
        Some(ExportFormat::HtmlHorizontal)
    } else if k == "html-v"@ {
        Some(ExportFormat::HtmlVertical)
    } else if k == "xml"@ {
        Some(ExportFormat::Xml)
    } else if k == "whois"@ {
        Some(ExportFormat::WhoisRaw)
    } else {
        None
    }
}

impl ExportFormat {
    /// Parses a format name (case-insensitive): `csv`, `tsv`, `txt` /
    /// `txt-v`, `txt-h`, `html` / `html-h`, `html-v`, `xml`, `whois`.
    pub fn from_str(s: &str) -> (r: Result<ExportFormat, ExportError>)
        ensures
            match format_named(s@) {
                Some(f) => r == Ok::<ExportFormat, ExportError>(f),
                None => r matches Err(ExportError::InvalidFormat(t)) && t@ == s@,
            },
    {
        let v = chars_of(s);
        let k = lower_vec(&v);
        if eq_lit(&k, "csv") {
            Ok(ExportFormat::Csv)
        } else if eq_lit(&k, "tsv") {
            Ok(ExportFormat::Tsv)
        } else if eq_lit(&k, "txt") || eq_lit(&k, "txt-v") {
            Ok(ExportFormat::Txt)
        } else if eq_lit(&k, "txt-h") {
            Ok(ExportFormat::TxtHorizontal)
        } else if eq_lit(&k, "html") || eq_lit(&k, "html-h") {
            Ok(ExportFormat::HtmlHorizontal)
        } else if eq_lit(&k, "html-v") {
            Ok(ExportFormat::HtmlVertical)
        } else if eq_lit(&k, "xml") {
            Ok(ExportFormat::Xml)
        } else if eq_lit(&k, "whois") {
            Ok(ExportFormat::WhoisRaw)
        } else {
            Err(ExportError::InvalidFormat(s.to_string()))
        }
    }
}

/// The HTTP `Content-Type` of a format.
pub open spec fn content_type_spec(fmt: ExportFormat) -> Seq<char> {
    match fmt {
        ExportFormat::Csv => "text/csv; charset=utf-8"@,
        ExportFormat::Tsv => "text/tab-separated-values; charset=utf-8"@,
        ExportFormat::Txt | ExportFormat::TxtHorizontal => "text/plain; charset=utf-8"@,
        ExportFormat::HtmlVertical | ExportFormat::HtmlHorizontal => "text/html; charset=utf-8"@,
        ExportFormat::Xml => "application/xml; charset=utf-8"@,
        ExportFormat::WhoisRaw => "text/plain; charset=utf-8"@,
    }
}

/// Maps an export format to an HTTP `Content-Type` header value.
pub fn export_content_type(fmt: ExportFormat) -> (r: &'static str)
    ensures
        r@ == content_type_spec(fmt),
{
    match fmt {
        ExportFormat::Csv => "text/csv; charset=utf-8",
        ExportFormat::Tsv => "text/tab-separated-values; charset=utf-8",
        ExportFormat::Txt | ExportFormat::TxtHorizontal => "text/plain; charset=utf-8",
        ExportFormat::HtmlVertical | ExportFormat::HtmlHorizontal => "text/html; charset=utf-8",
        ExportFormat::Xml => "application/xml; charset=utf-8",
        ExportFormat::WhoisRaw => "text/plain; charset=utf-8",
    }
}

// ---------------------------------------------------------------------------
// Text helpers
// ---------------------------------------------------------------------------

/// The column names, as character sequences.
pub open spec fn columns() -> Seq<Seq<char>> {
    COLUMNS@.map_values(|c: &str| c@)
}

/// Concatenation of a list of texts.
pub open spec fn concat(s: Seq<Seq<char>>) -> Seq<char>
    decreases s.len(),
{
    if s.len() == 0 {
        seq![]
    } else {
        concat(s.drop_last()) + s.last()
    }
}

/// The HTML (and XML) escape of one character.
pub open spec fn escape_char(c: char) -> Seq<char> {
    if c == '&' {
        "&amp;"@
    } else if c == '<' {
        "&lt;"@
    } else if c == '>' {
        "&gt;"@
    } else if c == '"' {
        "&quot;"@
    } else if c == '\'' {
        "&#39;"@
    } else {
        seq![c]
    }
}

/// `s` with `&`, `<`, `>`, `"` and `'` replaced by their entities.
pub open spec fn escape_spec(s: Seq<char>) -> Seq<char>
    decreases s.len(),
{
    if s.len() == 0 {
        seq![]
    } else {
        escape_spec(s.drop_last()) + escape_char(s.last())
    }
}

/// Escapes the characters that are special in HTML.
pub fn escape_html(s: &str) -> (r: String)
    ensures
        r@ == escape_spec(s@),
{
    let v = chars_of(s);
    let mut out = String::new();
    let mut i: usize = 0;
    while i < v.len()
        invariant
            i <= v.len(),
            v@ == s@,
            out@ == escape_spec(v@.take(i as int)),
        decreases v.len() - i,
    {
        proof {
            assert(v@.take(i + 1).drop_last() =~= v@.take(i as int));
            reveal_strlit("&amp;");
            reveal_strlit("&lt;");
            reveal_strlit("&gt;");
            reveal_strlit("&quot;");
            reveal_strlit("&#39;");
        }
        let c = v[i];
        if c == '&' {
            push_str(&mut out, "&amp;");
        } else if c == '<' {
            push_str(&mut out, "&lt;");
        } else if c == '>' {
            push_str(&mut out, "&gt;");
        } else if c == '"' {
            push_str(&mut out, "&quot;");
        } else if c == '\'' {
            push_str(&mut out, "&#39;");
        } else {
            push_char(&mut out, c);
        }
        i += 1;
    }
    proof {
        assert(v@.take(v.len() as int) =~= v@);
    }
    out
}

/// Escapes the characters that are special in XML (the same five as HTML).
pub fn escape_xml(s: &str) -> (r: String)
    ensures
        r@ == escape_spec(s@),
{
    escape_html(s)
}

/// `s` with every `c` replaced by `by`.
pub open spec fn replace_char(s: Seq<char>, c: char, by: Seq<char>) -> Seq<char>
    decreases s.len(),
{
    if s.len() == 0 {
        seq![]
    } else if s.last() == c {
        replace_char(s.drop_last(), c, by) + by
    } else {
        replace_char(s.drop_last(), c, by).push(s.last())
    }
}

/// The XML element name of a column: lower case, spaces as underscores.
pub open spec fn xml_tag_spec(col: Seq<char>) -> Seq<char> {
    replace_char(ascii_lower(col), ' ', "_"@)
}

/// Converts a column label to an XML element name
/// (`"IP Address"` becomes `"ip_address"`).
pub fn col_to_xml_tag(col: &str) -> (r: String)
    ensures
        r@ == xml_tag_spec(col@),
{
    let v = chars_of(col);
    let l = lower_vec(&v);
    let mut out = String::new();
    let mut i: usize = 0;
    while i < l.len()
        invariant
            i <= l.len(),
            out@ == replace_char(l@.take(i as int), ' ', "_"@),
        decreases l.len() - i,
    {
        proof {
            assert(l@.take(i + 1).drop_last() =~= l@.take(i as int));
            reveal_strlit("_");
        }
        if l[i] == ' ' {
            push_char(&mut out, '_');
            proof {
                assert(out@ =~= replace_char(l@.take(i as int), ' ', "_"@) + "_"@);
            }
        } else {
            push_char(&mut out, l[i]);
        }
        i += 1;
    }
    proof {
        assert(l@.take(l.len() as int) =~= l@);
    }
    out
}

/// Whether a CSV field needs quotes.
pub open spec fn needs_quotes(v: Seq<char>) -> bool {
    v.contains(',') || v.contains('"') || v.contains('\n')
}

/// A CSV field: quoted, with inner quotes doubled, when it holds a comma, a
/// double quote or a newline; unchanged otherwise.
pub open spec fn csv_quote_spec(v: Seq<char>) -> Seq<char> {
    if needs_quotes(v) {
        "\""@ + replace_char(v, '"', "\"\""@) + "\""@
    } else {
        v
    }
}

/// Quotes a CSV field when needed.
pub fn csv_quote(value: &str) -> (r: String)
    ensures
        r@ == csv_quote_spec(value@),
{
    let v = chars_of(value);
    let mut needs = false;
    let mut i: usize = 0;
    while i < v.len()
        invariant
            i <= v.len(),
            v@ == value@,
            needs == (exists|k: int| 0 <= k < i && (v@[k] == ',' || v@[k] == '"' || v@[k] == '\n')),
        decreases v.len() - i,
    {
        if v[i] == ',' || v[i] == '"' || v[i] == '\n' {
            needs = true;
        }
        i += 1;
    }
    proof {
        if needs {
            let k = choose|k: int| 0 <= k < v.len() && (v@[k] == ',' || v@[k] == '"' || v@[k] == '\n');
            if v@[k] == ',' {
                assert(v@.contains(','));
            } else if v@[k] == '"' {
                assert(v@.contains('"'));
            } else {
                assert(v@.contains('\n'));
            }
        }
    }
    if !needs {
        return value.to_string();
    }
    let mut out = String::new();
    push_char(&mut out, '"');
    let mut j: usize = 0;
    proof {
        reveal_strlit("\"");
        reveal_strlit("\"\"");
        assert(out@ =~= "\""@ + replace_char(v@.take(0), '"', "\"\""@));
    }
    while j < v.len()
        invariant
            j <= v.len(),
            out@ == "\""@ + replace_char(v@.take(j as int), '"', "\"\""@),
        decreases v.len() - j,
    {
        proof {
            assert(v@.take(j + 1).drop_last() =~= v@.take(j as int));
        }
        if v[j] == '"' {
            let ghost before = out@;
            push_char(&mut out, '"');
            push_char(&mut out, '"');
            proof {
                reveal_strlit("\"\"");
                assert(replace_char(v@.take(j + 1), '"', "\"\""@) == replace_char(v@.take(j as int), '"', "\"\""@) + "\"\""@);
                assert(out@ =~= before + "\"\""@);
                assert(out@ =~= "\""@ + replace_char(v@.take(j + 1), '"', "\"\""@));
            }
        } else {
            push_char(&mut out, v[j]);
            proof {
                assert(out@ =~= "\""@ + replace_char(v@.take(j + 1), '"', "\"\""@));
            }
        }
        j += 1;
    }
    push_char(&mut out, '"');
    proof {
        assert(v@.take(v.len() as int) =~= v@);
        assert(out@ =~= "\""@ + replace_char(v@, '"', "\"\""@) + "\""@);
    }
    out
}

// ---------------------------------------------------------------------------
// Formats
// ---------------------------------------------------------------------------

/// Size in bytes of the UTF-8 encoding of `s`, as `str::len` reports it.
pub open spec fn byte_len(s: Seq<char>) -> nat {
    (vstd::utf8::encode_utf8(s).len() as usize) as nat
}

/// `format!("{:<w$}", s)`: `s` padded with spaces to `w` characters.
pub open spec fn pad(s: Seq<char>, w: nat) -> Seq<char> {
    if s.len() < w {
        s + Seq::new((w - s.len()) as nat, |k: int| ' ')
    } else {
        s
    }
}

/// The rows of `rs`.
pub open spec fn rows(rs: Seq<IpRecord>) -> Seq<Seq<Seq<char>>> {
    rs.map_values(|r: IpRecord| row_of(r))
}

/// The widest value of column `i` among `rows`, in bytes.
pub open spec fn widest(rows: Seq<Seq<Seq<char>>>, i: int) -> nat
    decreases rows.len(),
{
    if rows.len() == 0 {
        0
    } else {
        let w = byte_len(rows.last()[i]);
        let m = widest(rows.drop_last(), i);
        if w > m {
            w
        } else {
            m
        }
    }
}

/// Width of column `i` of the text table: the larger of the header's and
/// the widest value's size in bytes.
pub open spec fn col_width(rs: Seq<IpRecord>, i: int) -> nat {
    let h = byte_len(columns()[i]);
    let d = widest(rows(rs), i);
    if h > d {
        h
    } else {
        d
    }
}

proof fn lemma_widest_bounds(rows: Seq<Seq<Seq<char>>>, i: int)
    ensures
        forall|j: int| 0 <= j < rows.len() ==> widest(rows, i) >= byte_len(#[trigger] rows[j][i]),
        widest(rows, i) == 0 || exists|j: int| 0 <= j < rows.len() && widest(rows, i) == byte_len(
            #[trigger] rows[j][i],
        ),
    decreases rows.len(),
{
    if rows.len() > 0 {
        let init = rows.drop_last();
        lemma_widest_bounds(init, i);
        assert forall|j: int| 0 <= j < rows.len() implies widest(rows, i) >= byte_len(#[trigger] rows[j][i]) by {
            if j < rows.len() - 1 {
                assert(rows[j] == init[j]);
            }
        }
        if widest(rows, i) != 0 {
            if byte_len(rows.last()[i]) > widest(init, i) {
                assert(widest(rows, i) == byte_len(rows[rows.len() - 1][i]));
            } else {
                let j = choose|j: int| 0 <= j < init.len() && widest(init, i) == byte_len(#[trigger] init[j][i]);
                assert(rows[j] == init[j]);
            }
        }
    }
}

/// Each column of the horizontal text table is as wide, in bytes, as the
/// larger of its header and its widest value: no narrower than either, and
/// equal to one of them.
pub proof fn law_column_width_is_max(rs: Seq<IpRecord>, i: int)
    ensures
        col_width(rs, i) >= byte_len(columns()[i]),
        forall|j: int| 0 <= j < rs.len() ==> col_width(rs, i) >= byte_len(#[trigger] row_of(rs[j])[i]),
        col_width(rs, i) == byte_len(columns()[i]) || exists|j: int| 0 <= j < rs.len() && col_width(rs, i)
            == byte_len(#[trigger] row_of(rs[j])[i]),
{
    let rw = rows(rs);
    lemma_widest_bounds(rw, i);
    assert forall|j: int| 0 <= j < rs.len() implies col_width(rs, i) >= byte_len(#[trigger] row_of(rs[j])[i]) by {
        assert(rw[j] == row_of(rs[j]));
    }
    if col_width(rs, i) != byte_len(columns()[i]) {
        let j = choose|j: int| 0 <= j < rw.len() && widest(rw, i) == byte_len(#[trigger] rw[j][i]);
        assert(rw[j] == row_of(rs[j]));
    }
}

/// A table line: the cells padded to the column widths, joined with `" | "`.
pub open spec fn table_line(rs: Seq<IpRecord>, cells: Seq<Seq<char>>) -> Seq<char> {
    join(Seq::new(21, |i: int| pad(cells[i], col_width(rs, i))), " | "@) + "\n"@
}

/// The separator line of the text table.
pub open spec fn separator_line(rs: Seq<IpRecord>) -> Seq<char> {
    join(Seq::new(21, |i: int| Seq::new(col_width(rs, i), |k: int| '-')), "-+-"@) + "\n"@
}

/// The horizontal text table.
pub open spec fn txt_horizontal_spec(rs: Seq<IpRecord>) -> Seq<char> {
    table_line(rs, columns()) + separator_line(rs) + concat(
        rs.map_values(|r: IpRecord| table_line(rs, row_of(r))),
    )
}

/// One CSV line.
pub open spec fn csv_line(r: IpRecord) -> Seq<char> {
    join(row_of(r).map_values(|v: Seq<char>| csv_quote_spec(v)), ","@) + "\n"@
}

/// CSV, with the header line when `with_header`.
pub open spec fn csv_spec(rs: Seq<IpRecord>, with_header: bool) -> Seq<char> {
    (if with_header {
        join(columns(), ","@) + "\n"@
    } else {
        seq![]
    }) + concat(rs.map_values(|r: IpRecord| csv_line(r)))
}

/// One TSV line.
pub open spec fn tsv_line(r: IpRecord) -> Seq<char> {
    join(row_of(r), "\t"@) + "\n"@
}

/// TSV, with the header line when `with_header`.
pub open spec fn tsv_spec(rs: Seq<IpRecord>, with_header: bool) -> Seq<char> {
    (if with_header {
        join(columns(), "\t"@) + "\n"@
    } else {
        seq![]
    }) + concat(rs.map_values(|r: IpRecord| tsv_line(r)))
}

/// The vertical text sheet of a record: `Column: value` lines.
pub open spec fn txt_sheet(r: IpRecord) -> Seq<char> {
    join(Seq::new(21, |i: int| columns()[i] + ": "@ + row_of(r)[i]), "\n"@)
}

/// The vertical text export: sheets separated by a blank line.
pub open spec fn txt_vertical_spec(rs: Seq<IpRecord>) -> Seq<char> {
    join(rs.map_values(|r: IpRecord| txt_sheet(r)), "\n\n"@)
}

/// One `<li>` of an HTML sheet.
pub open spec fn html_item(col: Seq<char>, val: Seq<char>) -> Seq<char> {
    "  <li><b>"@ + escape_spec(col) + ":</b> "@ + escape_spec(val) + "</li>\n"@
}

/// The HTML sheet of a record.
pub open spec fn html_sheet(r: IpRecord) -> Seq<char> {
    "<div class=\"record\"><h2>"@ + escape_spec(r.ip@) + "</h2><ul>\n"@ + concat(
        Seq::new(21, |i: int| html_item(columns()[i], row_of(r)[i])),
    ) + "</ul></div>\n"@
}

/// The HTML sheets of all records.
pub open spec fn html_vertical_spec(rs: Seq<IpRecord>) -> Seq<char> {
    concat(rs.map_values(|r: IpRecord| html_sheet(r)))
}

/// `<open>` + escaped `v` + `<close>`.
pub open spec fn wrapped(open: Seq<char>, v: Seq<char>, close: Seq<char>) -> Seq<char> {
    open + escape_spec(v) + close
}

/// One `<tr>` of the HTML table.
pub open spec fn html_row(r: IpRecord) -> Seq<char> {
    "<tr>"@ + concat(row_of(r).map_values(|v: Seq<char>| wrapped("<td>"@, v, "</td>"@))) + "</tr>\n"@
}

/// The HTML table.
pub open spec fn html_horizontal_spec(rs: Seq<IpRecord>) -> Seq<char> {
    "<table>\n<thead>\n<tr>"@ + concat(columns().map_values(|c: Seq<char>| wrapped("<th>"@, c, "</th>"@)))
        + "</tr>\n</thead>\n<tbody>\n"@ + concat(rs.map_values(|r: IpRecord| html_row(r)))
        + "</tbody>\n</table>"@
}

/// One XML element of a record.
pub open spec fn xml_field(col: Seq<char>, val: Seq<char>) -> Seq<char> {
    "    <"@ + xml_tag_spec(col) + ">"@ + escape_spec(val) + "</"@ + xml_tag_spec(col) + ">\n"@
}

/// The `<record>` element of a record.
pub open spec fn xml_record(r: IpRecord) -> Seq<char> {
    "  <record>\n"@ + concat(Seq::new(21, |i: int| xml_field(columns()[i], row_of(r)[i])))
        + "  </record>\n"@
}

/// The XML document.
pub open spec fn xml_spec(rs: Seq<IpRecord>) -> Seq<char> {
    "<?xml version=\"1.0\" encoding=\"UTF-8\"?>\n<records>\n"@ + concat(
        rs.map_values(|r: IpRecord| xml_record(r)),
    ) + "</records>"@
}

/// The raw WHOIS texts of the records that have one, in order.
pub open spec fn raw_texts(rs: Seq<IpRecord>) -> Seq<Seq<char>>
    decreases rs.len(),
{
    if rs.len() == 0 {
        seq![]
    } else {
        match rs.last().raw_whois {
            Some(t) => raw_texts(rs.drop_last()).push(t@),
            None => raw_texts(rs.drop_last()),
        }
    }
}

/// The raw WHOIS export.
pub open spec fn whois_raw_spec(rs: Seq<IpRecord>) -> Seq<char> {
    join(raw_texts(rs), "\n\n-----\n\n"@)
}

/// The rendering of `rs` in `format`.
pub open spec fn export_spec(rs: Seq<IpRecord>, format: ExportFormat, with_header: bool) -> Seq<char> {
    match format {
        ExportFormat::Csv => csv_spec(rs, with_header),
        ExportFormat::Tsv => tsv_spec(rs, with_header),
        ExportFormat::Txt => txt_vertical_spec(rs),
        ExportFormat::TxtHorizontal => txt_horizontal_spec(rs),
        ExportFormat::HtmlVertical => html_vertical_spec(rs),
        ExportFormat::HtmlHorizontal => html_horizontal_spec(rs),
        ExportFormat::Xml => xml_spec(rs),
        ExportFormat::WhoisRaw => whois_raw_spec(rs),
    }
}

proof fn lemma_concat_push(s: Seq<Seq<char>>, x: Seq<char>)
    ensures
        concat(s.push(x)) == concat(s) + x,
{
    assert(s.push(x).drop_last() =~= s);
}

/// The column names as strings.
fn column_names() -> (r: Vec<String>)
    ensures
        r.deep_view() == columns(),
{
    let mut r: Vec<String> = Vec::new();
    let mut i: usize = 0;
    while i < N_COLUMNS
        invariant
            i <= N_COLUMNS,
            r.deep_view() == columns().take(i as int),
        decreases N_COLUMNS - i,
    {
        let ghost before = r.deep_view();
        let c: &str = COLUMNS[i];
        let cs = c.to_string();
        proof {
            assert(c == COLUMNS@[i as int]);
            assert(cs@ == c@);
        }
        r.push(cs);
        proof {
            assert(r.deep_view() =~= before.push(cs@));
            assert(r.deep_view() =~= columns().take(i + 1));
        }
        i += 1;
    }
    proof {
        assert(columns().take(21) =~= columns());
    }
    r
}

/// One CSV line of a record.
fn csv_line_exec(r: &IpRecord) -> (s: String)
    ensures
        s@ == csv_line(*r),
{
    let row = r.to_row();
    let mut q: Vec<String> = Vec::new();
    let mut i: usize = 0;
    while i < row.len()
        invariant
            i <= row.len(),
            q.deep_view() == row.deep_view().take(i as int).map_values(|v: Seq<char>| csv_quote_spec(v)),
        decreases row.len() - i,
    {
        let ghost before = q.deep_view();
        let cq = csv_quote(row[i].as_str());
        q.push(cq);
        proof {
            assert(q.deep_view() =~= before.push(csv_quote_spec(row.deep_view()[i as int])));
            assert(row.deep_view().take(i + 1) =~= row.deep_view().take(i as int).push(row.deep_view()[i as int]));
            assert(q.deep_view() =~= row.deep_view().take(i + 1).map_values(
                |v: Seq<char>| csv_quote_spec(v),
            ));
        }
        i += 1;
    }
    proof {
        assert(row.deep_view().take(row.len() as int) =~= row.deep_view());
    }
    let mut s = join_strings(&q, ",");
    push_str(&mut s, "\n");
    s
}

/// Renders CSV, with a header line when `with_header`.
pub fn export_csv(records: &[IpRecord], with_header: bool) -> (r: String)
    ensures
        r@ == csv_spec(records@, with_header),
{
    let mut out = String::new();
    if with_header {
        let names = column_names();
        out = join_strings(&names, ",");
        push_str(&mut out, "\n");
    }
    let ghost head = out@;
    let mut i: usize = 0;
    proof {
        assert(records@.take(0).map_values(|r: IpRecord| csv_line(r)) =~= Seq::<Seq<char>>::empty());
    }
    while i < records.len()
        invariant
            i <= records.len(),
            out@ == head + concat(records@.take(i as int).map_values(|r: IpRecord| csv_line(r))),
        decreases records.len() - i,
    {
        let line = csv_line_exec(&records[i]);
        push_str(&mut out, line.as_str());
        proof {
            let pre = records@.take(i as int).map_values(|r: IpRecord| csv_line(r));
            assert(records@.take(i + 1).map_values(|r: IpRecord| csv_line(r)) =~= pre.push(
                csv_line(records@[i as int]),
            ));
            lemma_concat_push(pre, csv_line(records@[i as int]));
        }
        i += 1;
    }
    proof {
        assert(records@.take(records.len() as int) =~= records@);
    }
    out
}

/// Renders TSV, with a header line when `with_header`.
pub fn export_tsv(records: &[IpRecord], with_header: bool) -> (r: String)
    ensures
        r@ == tsv_spec(records@, with_header),
{
    let mut out = String::new();
    if with_header {
        let names = column_names();
        out = join_strings(&names, "\t");
        push_str(&mut out, "\n");
    }
    let ghost head = out@;
    let mut i: usize = 0;
    proof {
        assert(records@.take(0).map_values(|r: IpRecord| tsv_line(r)) =~= Seq::<Seq<char>>::empty());
    }
    while i < records.len()
        invariant
            i <= records.len(),
            out@ == head + concat(records@.take(i as int).map_values(|r: IpRecord| tsv_line(r))),
        decreases records.len() - i,
    {
        let row = records[i].to_row();
        let mut line = join_strings(&row, "\t");
        push_str(&mut line, "\n");
        push_str(&mut out, line.as_str());
        proof {
            let pre = records@.take(i as int).map_values(|r: IpRecord| tsv_line(r));
            assert(records@.take(i + 1).map_values(|r: IpRecord| tsv_line(r)) =~= pre.push(
                tsv_line(records@[i as int]),
            ));
            lemma_concat_push(pre, tsv_line(records@[i as int]));
        }
        i += 1;
    }
    proof {
        assert(records@.take(records.len() as int) =~= records@);
    }
    out
}

/// The vertical sheet of one record.
fn txt_sheet_exec(r: &IpRecord, names: &Vec<String>) -> (s: String)
    requires
        names.deep_view() == columns(),
    ensures
        s@ == txt_sheet(*r),
{
    let row = r.to_row();
    let mut lines: Vec<String> = Vec::new();
    let mut i: usize = 0;
    proof {
        assert(names.deep_view().len() == names.len());
        assert(row.deep_view().len() == row.len());
        assert(columns().len() == 21);
    }
    while i < N_COLUMNS
        invariant
            i <= N_COLUMNS,
            names.len() == 21,
            row.len() == 21,
            names.deep_view() == columns(),
            row.deep_view() == row_of(*r),
            lines.deep_view() == Seq::new(i as nat, |k: int| columns()[k] + ": "@ + row_of(*r)[k]),
        decreases N_COLUMNS - i,
    {
        let mut l = names[i].clone();
        push_str(&mut l, ": ");
        push_str(&mut l, row[i].as_str());
        let ghost before = lines.deep_view();
        proof {
            assert(names.deep_view()[i as int] == columns()[i as int]);
            assert(row.deep_view()[i as int] == row_of(*r)[i as int]);
            assert(l@ == columns()[i as int] + ": "@ + row_of(*r)[i as int]);
        }
        lines.push(l);
        proof {
            assert(lines.deep_view() =~= before.push(columns()[i as int] + ": "@ + row_of(*r)[i as int]));
            assert(lines.deep_view() =~= Seq::new((i + 1) as nat, |k: int| columns()[k] + ": "@ + row_of(*r)[k]));
        }
        i += 1;
    }
    join_strings(&lines, "\n")
}

/// Renders the vertical text sheets, separated by a blank line.
pub fn export_txt_vertical(records: &[IpRecord]) -> (r: String)
    ensures
        r@ == txt_vertical_spec(records@),
{
    let names = column_names();
    let mut sheets: Vec<String> = Vec::new();
    let mut i: usize = 0;
    while i < records.len()
        invariant
            i <= records.len(),
            names.deep_view() == columns(),
            sheets.deep_view() == records@.take(i as int).map_values(|r: IpRecord| txt_sheet(r)),
        decreases records.len() - i,
    {
        let sh = txt_sheet_exec(&records[i], &names);
        let ghost before = sheets.deep_view();
        sheets.push(sh);
        proof {
            assert(sheets.deep_view() =~= before.push(txt_sheet(records@[i as int])));
            assert(records@.take(i + 1) =~= records@.take(i as int).push(records@[i as int]));
            assert(sheets.deep_view() =~= records@.take(i + 1).map_values(|r: IpRecord| txt_sheet(r)));
        }
        i += 1;
    }
    proof {
        assert(records@.take(records.len() as int) =~= records@);
    }
    join_strings(&sheets, "\n\n")
}

/// Renders the raw WHOIS texts of the records that have one, separated by
/// a `-----` line.
pub fn export_whois_raw(records: &[IpRecord]) -> (r: String)
    ensures
        r@ == whois_raw_spec(records@),
{
    let mut parts: Vec<String> = Vec::new();
    let mut i: usize = 0;
    while i < records.len()
        invariant
            i <= records.len(),
            parts.deep_view() == raw_texts(records@.take(i as int)),
        decreases records.len() - i,
    {
        proof {
            assert(records@.take(i + 1).drop_last() =~= records@.take(i as int));
        }
        match &records[i].raw_whois {
            Some(t) => {
                let ghost before = parts.deep_view();
                parts.push(t.clone());
                proof {
                    assert(parts.deep_view() =~= before.push(t@));
                }
            },
            None => {},
        }
        i += 1;
    }
    proof {
        assert(records@.take(records.len() as int) =~= records@);
    }
    join_strings(&parts, "\n\n-----\n\n")
}

/// `open` + escaped `v` + `close`.
fn wrapped_exec(open: &str, v: &str, close: &str) -> (r: String)
    ensures
        r@ == wrapped(open@, v@, close@),
{
    let mut s = open.to_string();
    let e = escape_html(v);
    push_str(&mut s, e.as_str());
    push_str(&mut s, close);
    s
}

/// The HTML sheet of one record.
fn html_sheet_exec(r: &IpRecord, names: &Vec<String>) -> (s: String)
    requires
        names.deep_view() == columns(),
    ensures
        s@ == html_sheet(*r),
{
    let row = r.to_row();
    let mut out = "<div class=\"record\"><h2>".to_string();
    let e = escape_html(r.ip.as_str());
    push_str(&mut out, e.as_str());
    push_str(&mut out, "</h2><ul>\n");
    let ghost base = out@;
    let mut i: usize = 0;
    proof {
        assert(names.deep_view().len() == names.len());
        assert(row.deep_view().len() == row.len());
        assert(Seq::new(0, |k: int| html_item(columns()[k], row_of(*r)[k])) =~= Seq::<Seq<char>>::empty());
    }
    while i < N_COLUMNS
        invariant
            i <= N_COLUMNS,
            names.len() == 21,
            row.len() == 21,
            names.deep_view() == columns(),
            row.deep_view() == row_of(*r),
            out@ == base + concat(Seq::new(i as nat, |k: int| html_item(columns()[k], row_of(*r)[k]))),
        decreases N_COLUMNS - i,
    {
        let ghost before = out@;
        push_str(&mut out, "  <li><b>");
        let ec = escape_html(names[i].as_str());
        push_str(&mut out, ec.as_str());
        push_str(&mut out, ":</b> ");
        let ev = escape_html(row[i].as_str());
        push_str(&mut out, ev.as_str());
        push_str(&mut out, "</li>\n");
        proof {
            let item = html_item(columns()[i as int], row_of(*r)[i as int]);
            assert(names.deep_view()[i as int] == columns()[i as int]);
            assert(row.deep_view()[i as int] == row_of(*r)[i as int]);
            assert(out@ =~= before + item);
            let pre = Seq::new(i as nat, |k: int| html_item(columns()[k], row_of(*r)[k]));
            assert(Seq::new((i + 1) as nat, |k: int| html_item(columns()[k], row_of(*r)[k])) =~= pre.push(item));
            lemma_concat_push(pre, item);
        }
        i += 1;
    }
    push_str(&mut out, "</ul></div>\n");
    out
}

/// Renders one HTML sheet per record.
pub fn export_html_vertical(records: &[IpRecord]) -> (r: String)
    ensures
        r@ == html_vertical_spec(records@),
{
    let names = column_names();
    let mut out = String::new();
    let mut i: usize = 0;
    proof {
        assert(records@.take(0).map_values(|r: IpRecord| html_sheet(r)) =~= Seq::<Seq<char>>::empty());
    }
    while i < records.len()
        invariant
            i <= records.len(),
            names.deep_view() == columns(),
            out@ == concat(records@.take(i as int).map_values(|r: IpRecord| html_sheet(r))),
        decreases records.len() - i,
    {
        let sh = html_sheet_exec(&records[i], &names);
        push_str(&mut out, sh.as_str());
        proof {
            let pre = records@.take(i as int).map_values(|r: IpRecord| html_sheet(r));
            assert(records@.take(i + 1).map_values(|r: IpRecord| html_sheet(r)) =~= pre.push(
                html_sheet(records@[i as int]),
            ));
            lemma_concat_push(pre, html_sheet(records@[i as int]));
        }
        i += 1;
    }
    proof {
        assert(records@.take(records.len() as int) =~= records@);
    }
    out
}

/// Appends `open` + escaped item + `close` for each item of `items`.
fn push_wrapped_all(out: &mut String, items: &Vec<String>, open: &str, close: &str)
    ensures
        final(out)@ == old(out)@ + concat(
            items.deep_view().map_values(|v: Seq<char>| wrapped(open@, v, close@)),
        ),
{
    let mut i: usize = 0;
    proof {
        assert(items.deep_view().take(0).map_values(|v: Seq<char>| wrapped(open@, v, close@))
            =~= Seq::<Seq<char>>::empty());
    }
    while i < items.len()
        invariant
            i <= items.len(),
            out@ == old(out)@ + concat(
                items.deep_view().take(i as int).map_values(|v: Seq<char>| wrapped(open@, v, close@)),
            ),
        decreases items.len() - i,
    {
        let w = wrapped_exec(open, items[i].as_str(), close);
        push_str(out, w.as_str());
        proof {
            let pre = items.deep_view().take(i as int).map_values(|v: Seq<char>| wrapped(open@, v, close@));
            let x = wrapped(open@, items.deep_view()[i as int], close@);
            assert(items.deep_view().take(i + 1).map_values(|v: Seq<char>| wrapped(open@, v, close@))
                =~= pre.push(x));
            lemma_concat_push(pre, x);
        }
        i += 1;
    }
    proof {
        assert(items.deep_view().take(items.len() as int) =~= items.deep_view());
    }
}

/// Renders an HTML table with one row per record.
pub fn export_html_horizontal(records: &[IpRecord]) -> (r: String)
    ensures
        r@ == html_horizontal_spec(records@),
{
    let names = column_names();
    let mut out = "<table>\n<thead>\n<tr>".to_string();
    push_wrapped_all(&mut out, &names, "<th>", "</th>");
    push_str(&mut out, "</tr>\n</thead>\n<tbody>\n");
    let ghost base = out@;
    let mut i: usize = 0;
    proof {
        assert(records@.take(0).map_values(|r: IpRecord| html_row(r)) =~= Seq::<Seq<char>>::empty());
    }
    while i < records.len()
        invariant
            i <= records.len(),
            out@ == base + concat(records@.take(i as int).map_values(|r: IpRecord| html_row(r))),
        decreases records.len() - i,
    {
        let ghost before = out@;
        let row = records[i].to_row();
        push_str(&mut out, "<tr>");
        push_wrapped_all(&mut out, &row, "<td>", "</td>");
        push_str(&mut out, "</tr>\n");
        proof {
            let pre = records@.take(i as int).map_values(|r: IpRecord| html_row(r));
            let x = html_row(records@[i as int]);
            assert(out@ =~= before + x);
            assert(records@.take(i + 1).map_values(|r: IpRecord| html_row(r)) =~= pre.push(x));
            lemma_concat_push(pre, x);
        }
        i += 1;
    }
    proof {
        assert(records@.take(records.len() as int) =~= records@);
    }
    push_str(&mut out, "</tbody>\n</table>");
    out
}

/// The XML element of one record.
fn xml_record_exec(r: &IpRecord, names: &Vec<String>) -> (s: String)
    requires
        names.deep_view() == columns(),
    ensures
        s@ == xml_record(*r),
{
    let row = r.to_row();
    let mut out = "  <record>\n".to_string();
    let ghost base = out@;
    let mut i: usize = 0;
    proof {
        assert(names.deep_view().len() == names.len());
        assert(row.deep_view().len() == row.len());
        assert(Seq::new(0, |k: int| xml_field(columns()[k], row_of(*r)[k])) =~= Seq::<Seq<char>>::empty());
    }
    while i < N_COLUMNS
        invariant
            i <= N_COLUMNS,
            names.len() == 21,
            row.len() == 21,
            names.deep_view() == columns(),
            row.deep_view() == row_of(*r),
            out@ == base + concat(Seq::new(i as nat, |k: int| xml_field(columns()[k], row_of(*r)[k]))),
        decreases N_COLUMNS - i,
    {
        let ghost before = out@;
        let tag = col_to_xml_tag(names[i].as_str());
        push_str(&mut out, "    <");
        push_str(&mut out, tag.as_str());
        push_str(&mut out, ">");
        let ev = escape_xml(row[i].as_str());
        push_str(&mut out, ev.as_str());
        push_str(&mut out, "</");
        push_str(&mut out, tag.as_str());
        push_str(&mut out, ">\n");
        proof {
            let item = xml_field(columns()[i as int], row_of(*r)[i as int]);
            assert(names.deep_view()[i as int] == columns()[i as int]);
            assert(row.deep_view()[i as int] == row_of(*r)[i as int]);
            assert(out@ =~= before + item);
            let pre = Seq::new(i as nat, |k: int| xml_field(columns()[k], row_of(*r)[k]));
            assert(Seq::new((i + 1) as nat, |k: int| xml_field(columns()[k], row_of(*r)[k])) =~= pre.push(item));
            lemma_concat_push(pre, item);
        }
        i += 1;
    }
    push_str(&mut out, "  </record>\n");
    out
}

/// Renders the records as an XML document.
pub fn export_xml(records: &[IpRecord]) -> (r: String)
    ensures
        r@ == xml_spec(records@),
{
    let names = column_names();
    let mut out = "<?xml version=\"1.0\" encoding=\"UTF-8\"?>\n<records>\n".to_string();
    let ghost base = out@;
    let mut i: usize = 0;
    proof {
        assert(records@.take(0).map_values(|r: IpRecord| xml_record(r)) =~= Seq::<Seq<char>>::empty());
    }
    while i < records.len()
        invariant
            i <= records.len(),
            names.deep_view() == columns(),
            out@ == base + concat(records@.take(i as int).map_values(|r: IpRecord| xml_record(r))),
        decreases records.len() - i,
    {
        let x = xml_record_exec(&records[i], &names);
        push_str(&mut out, x.as_str());
        proof {
            let pre = records@.take(i as int).map_values(|r: IpRecord| xml_record(r));
            assert(records@.take(i + 1).map_values(|r: IpRecord| xml_record(r)) =~= pre.push(
                xml_record(records@[i as int]),
            ));
            lemma_concat_push(pre, xml_record(records@[i as int]));
        }
        i += 1;
    }
    proof {
        assert(records@.take(records.len() as int) =~= records@);
    }
    push_str(&mut out, "</records>");
    out
}

/// `s` padded with spaces to `w` characters.
fn pad_exec(s: &str, w: usize) -> (r: String)
    ensures
        r@ == pad(s@, w as nat),
{
    let v = chars_of(s);
    let mut out = s.to_string();
    if v.len() < w {
        let mut k: usize = v.len();
        while k < w
            invariant
                v.len() <= k <= w,
                out@ == s@ + Seq::new((k - v.len()) as nat, |j: int| ' '),
            decreases w - k,
        {
            push_char(&mut out, ' ');
            proof {
                assert(out@ =~= s@ + Seq::new((k + 1 - v.len()) as nat, |j: int| ' '));
            }
            k += 1;
        }
    } else {
        proof {
            assert(out@ == s@);
        }
    }
    out
}

/// `n` dashes.
fn dashes(n: usize) -> (r: String)
    ensures
        r@ == Seq::new(n as nat, |k: int| '-'),
{
    let mut out = String::new();
    let mut k: usize = 0;
    while k < n
        invariant
            k <= n,
            out@ == Seq::new(k as nat, |j: int| '-'),
        decreases n - k,
    {
        push_char(&mut out, '-');
        proof {
            assert(out@ =~= Seq::new((k + 1) as nat, |j: int| '-'));
        }
        k += 1;
    }
    out
}

/// The widths of the text table's columns.
fn column_widths(rows_v: &Vec<Vec<String>>, names: &Vec<String>, rs: Ghost<Seq<IpRecord>>) -> (r: Vec<usize>)
    requires
        names.deep_view() == columns(),
        rows_v.deep_view() == rows(rs@),
    ensures
        r.len() == 21,
        forall|i: int| 0 <= i < 21 ==> r[i] as nat == col_width(rs@, i),
{
    let mut widths: Vec<usize> = Vec::new();
    let mut i: usize = 0;
    proof {
        assert(names.deep_view().len() == names.len());
    }
    while i < N_COLUMNS
        invariant
            i <= N_COLUMNS,
            names.len() == 21,
            names.deep_view() == columns(),
            rows_v.deep_view() == rows(rs@),
            widths.len() == i,
            forall|k: int| 0 <= k < i ==> widths[k] as nat == col_width(rs@, k),
        decreases N_COLUMNS - i,
    {
        let h = names[i].as_str().len();
        let mut m: usize = 0;
        let mut j: usize = 0;
        proof {
            assert(rows(rs@).take(0) =~= Seq::<Seq<Seq<char>>>::empty());
            assert(rows_v.deep_view().len() == rows_v.len());
            assert(h as nat == byte_len(columns()[i as int]));
        }
        while j < rows_v.len()
            invariant
                i < 21,
                j <= rows_v.len(),
                rows_v.deep_view() == rows(rs@),
                m as nat == widest(rows(rs@).take(j as int), i as int),
            decreases rows_v.len() - j,
        {
            proof {
                assert(rows_v.deep_view().len() == rows_v.len());
                assert(rows(rs@).take(j + 1).drop_last() =~= rows(rs@).take(j as int));
                assert(rows(rs@).take(j + 1).last() == rows(rs@)[j as int]);
                assert(rows_v.deep_view()[j as int] == rows(rs@)[j as int]);
                assert(rows(rs@)[j as int] == row_of(rs@[j as int]));
                assert(row_of(rs@[j as int]).len() == 21);
                assert(rows_v[j as int].deep_view().len() == rows_v[j as int].len());
                assert(rows_v[j as int].deep_view()[i as int] == rows_v[j as int][i as int]@);
            }
            let w = rows_v[j][i].as_str().len();
            proof {
                assert(w as nat == byte_len(rows(rs@)[j as int][i as int]));
            }
            if w > m {
                m = w;
            }
            j += 1;
        }
        proof {
            assert(rows(rs@).take(rows_v.len() as int) =~= rows(rs@));
            assert(names.deep_view()[i as int] == columns()[i as int]);
        }
        let width = if h > m {
            h
        } else {
            m
        };
        proof {
            assert(width as nat == col_width(rs@, i as int));
        }
        widths.push(width);
        i += 1;
    }
    widths
}

/// One table line: each cell padded to its column's width, joined with
/// `" | "`.
fn table_line_exec(cells: &Vec<String>, widths: &Vec<usize>, rs: Ghost<Seq<IpRecord>>) -> (r: String)
    requires
        cells.len() == 21,
        widths.len() == 21,
        forall|i: int| 0 <= i < 21 ==> widths[i] as nat == col_width(rs@, i),
    ensures
        r@ == table_line(rs@, cells.deep_view()),
{
    let mut padded: Vec<String> = Vec::new();
    let mut i: usize = 0;
    while i < N_COLUMNS
        invariant
            i <= N_COLUMNS,
            cells.len() == 21,
            widths.len() == 21,
            forall|k: int| 0 <= k < 21 ==> widths[k] as nat == col_width(rs@, k),
            padded.deep_view() == Seq::new(i as nat, |k: int| pad(cells.deep_view()[k], col_width(rs@, k))),
        decreases N_COLUMNS - i,
    {
        let p = pad_exec(cells[i].as_str(), widths[i]);
        let ghost before = padded.deep_view();
        padded.push(p);
        proof {
            assert(padded.deep_view() =~= before.push(pad(cells.deep_view()[i as int], col_width(rs@, i as int))));
            assert(padded.deep_view() =~= Seq::new((i + 1) as nat, |k: int| pad(cells.deep_view()[k], col_width(rs@, k))));
        }
        i += 1;
    }
    let mut line = join_strings(&padded, " | ");
    push_str(&mut line, "\n");
    line
}

/// Renders a horizontal text table: a header line, a separator line, and
/// one line per record, each column padded to its widest entry.
pub fn export_txt_horizontal(records: &[IpRecord]) -> (r: String)
    ensures
        r@ == txt_horizontal_spec(records@),
{
    let ghost rs = records@;
    let names = column_names();
    let mut rows_v: Vec<Vec<String>> = Vec::new();
    let mut i: usize = 0;
    while i < records.len()
        invariant
            i <= records.len(),
            rs == records@,
            rows_v.deep_view() == rows(rs.take(i as int)),
        decreases records.len() - i,
    {
        let row = records[i].to_row();
        let ghost before = rows_v.deep_view();
        rows_v.push(row);
        proof {
            assert(rows_v.deep_view() =~= before.push(row_of(rs[i as int])));
            assert(rows(rs.take(i + 1)) =~= rows(rs.take(i as int)).push(row_of(rs[i as int])));
        }
        i += 1;
    }
    proof {
        assert(rs.take(records.len() as int) =~= rs);
    }
    let widths = column_widths(&rows_v, &names, Ghost(rs));
    proof {
        assert(names.deep_view().len() == names.len());
    }
    let mut out = table_line_exec(&names, &widths, Ghost(rs));
    let mut seps: Vec<String> = Vec::new();
    let mut k: usize = 0;
    while k < N_COLUMNS
        invariant
            k <= N_COLUMNS,
            widths.len() == 21,
            forall|c: int| 0 <= c < 21 ==> widths[c] as nat == col_width(rs, c),
            seps.deep_view() == Seq::new(k as nat, |c: int| Seq::new(col_width(rs, c), |j: int| '-')),
        decreases N_COLUMNS - k,
    {
        let d = dashes(widths[k]);
        let ghost before = seps.deep_view();
        seps.push(d);
        proof {
            assert(seps.deep_view() =~= before.push(Seq::new(col_width(rs, k as int), |j: int| '-')));
            assert(seps.deep_view() =~= Seq::new((k + 1) as nat, |c: int| Seq::new(col_width(rs, c), |j: int| '-')));
        }
        k += 1;
    }
    let sep = join_strings(&seps, "-+-");
    push_str(&mut out, sep.as_str());
    push_str(&mut out, "\n");
    let ghost base = out@;
    let mut j: usize = 0;
    proof {
        assert(rs.take(0).map_values(|r: IpRecord| table_line(rs, row_of(r))) =~= Seq::<Seq<char>>::empty());
    }
    while j < rows_v.len()
        invariant
            j <= rows_v.len(),
            rows_v.deep_view() == rows(rs),
            rs == records@,
            widths.len() == 21,
            forall|c: int| 0 <= c < 21 ==> widths[c] as nat == col_width(rs, c),
            out@ == base + concat(rs.take(j as int).map_values(|r: IpRecord| table_line(rs, row_of(r)))),
        decreases rows_v.len() - j,
    {
        proof {
            assert(rows_v.deep_view()[j as int] == row_of(rs[j as int]));
            assert(rows_v[j as int].deep_view().len() == rows_v[j as int].len());
        }
        let line = table_line_exec(&rows_v[j], &widths, Ghost(rs));
        push_str(&mut out, line.as_str());
        proof {
            let pre = rs.take(j as int).map_values(|r: IpRecord| table_line(rs, row_of(r)));
            let x = table_line(rs, row_of(rs[j as int]));
            assert(rs.take(j + 1).map_values(|r: IpRecord| table_line(rs, row_of(r))) =~= pre.push(x));
            lemma_concat_push(pre, x);
        }
        j += 1;
    }
    proof {
        assert(rs.take(rows_v.len() as int) =~= rs);
    }
    out
}

/// Renders `records` in `format`; `with_header` puts a header line on CSV
/// and TSV output.
pub fn export(records: &[IpRecord], format: ExportFormat, with_header: bool) -> (r: Result<
    String,
    ExportError,
>)
    ensures
        r matches Ok(s) && s@ == export_spec(records@, format, with_header),
{
    let s = match format {
        ExportFormat::Csv => export_csv(records, with_header),
        ExportFormat::Tsv => export_tsv(records, with_header),
        ExportFormat::Txt => export_txt_vertical(records),
        ExportFormat::TxtHorizontal => export_txt_horizontal(records),
        ExportFormat::HtmlVertical => export_html_vertical(records),
        ExportFormat::HtmlHorizontal => export_html_horizontal(records),
        ExportFormat::Xml => export_xml(records),
        ExportFormat::WhoisRaw => export_whois_raw(records),
    };
    Ok(s)
}

/// Whether `s` holds none of the characters that are markup in HTML and XML
/// text: `<`, `>`, `"` and `'`.
pub open spec fn markup_free(s: Seq<char>) -> bool {
    !s.contains('<') && !s.contains('>') && !s.contains('"') && !s.contains('\'')
}

proof fn lemma_escape_char_markup_free(c: char)
    ensures
        markup_free(escape_char(c)),
{
    reveal_strlit("&amp;");
    reveal_strlit("&lt;");
    reveal_strlit("&gt;");
    reveal_strlit("&quot;");
    reveal_strlit("&#39;");
    let e = escape_char(c);
    if c == '<' || c == '>' || c == '"' || c == '\'' {
        assert(forall|i: int| 0 <= i < e.len() ==> e[i] != '<' && e[i] != '>' && e[i] != '"' && e[i] != '\'');
    } else if c == '&' {
        assert(forall|i: int| 0 <= i < e.len() ==> e[i] != '<' && e[i] != '>' && e[i] != '"' && e[i] != '\'');
    } else {
        assert(e == seq![c]);
        assert(forall|i: int| 0 <= i < e.len() ==> e[i] == c);
    }
}

/// Escaped text holds no markup character, whatever the input: escaping
/// cannot open or close a tag or an attribute value.
pub proof fn law_escape_markup_free(s: Seq<char>)
    ensures
        markup_free(escape_spec(s)),
    decreases s.len(),
{
    if s.len() > 0 {
        law_escape_markup_free(s.drop_last());
        lemma_escape_char_markup_free(s.last());
        let a = escape_spec(s.drop_last());
        let b = escape_char(s.last());
        assert forall|c: char| (c == '<' || c == '>' || c == '"' || c == '\'') implies !(a + b).contains(c) by {
            if (a + b).contains(c) {
                let i = choose|i: int| 0 <= i < (a + b).len() && (a + b)[i] == c;
                if i < a.len() {
                    assert(a[i] == c);
                } else {
                    assert(b[i - a.len()] == c);
                }
            }
        }
    }
}

} // verus!
