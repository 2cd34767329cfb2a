//! The reports printed for validation results: like the terminal reports, with square corners and
//! tables of key and value pairs.

use vstd::prelude::*;
use vstd::string::*;
use vstd::utf8::encode_utf8;
use crate::text::string_views;
use crate::term::{footer_text, lines_spec, piped, report_width_spec, report_width, sat_sub, split_lines, wrap_text, wrapped_lines};

verus! {

/// A report: a header, a body of text, tables and nested reports, and footer fields.
#[derive(Debug)]
pub struct Report {
    pub header: String,
    pub footer: Vec<String>,
    pub items: Vec<ReportItem>,
}

/// An entry in a report's body.
#[derive(Debug)]
pub enum ReportItem {
    /// Rows of a key and a value; the keys are aligned in a column and the values wrapped beside
    /// them.
    Table(Vec<(String, String)>),
    /// Text that is wrapped to the report's width.
    Text(String),
    /// A nested report, drawn one step further in.
    Child(Report),
}

impl Default for Report {
    fn default() -> (r: Self)
        ensures
            r.header@.len() == 0,
            r.items@.len() == 0,
            r.footer@.len() == 0,
    {
        Report { header: String::new(), footer: Vec::new(), items: Vec::new() }
    }
}

/// The length in bytes of the longest key.
pub open spec fn max_key_len(rows: Seq<(String, String)>) -> nat
    decreases rows.len(),
{
    if rows.len() == 0 {
        0
    } else {
        let before = max_key_len(rows.drop_last());
        let k = encode_utf8(rows.last().0@).len() as usize;
        if k > before {
            k as nat
        } else {
            before
        }
    }
}

/// `n` spaces.
pub open spec fn spaces(n: nat) -> Seq<char> {
    Seq::new(n, |i: int| ' ')
}

/// The key followed by spaces up to `width` characters.
pub open spec fn pad_key(key: Seq<char>, width: nat) -> Seq<char> {
    if key.len() < width {
        key + spaces((width - key.len()) as nat)
    } else {
        key
    }
}

/// The lines of one table row: the first value line beside the padded key, the others beside
/// blanks as wide as the key column.
pub open spec fn row_text(pipe: Seq<char>, key: Seq<char>, lines: Seq<Seq<char>>, m: nat) -> Seq<char>
    decreases lines.len(),
{
    if lines.len() == 0 {
        Seq::empty()
    } else {
        row_text(pipe, key, lines.drop_last(), m) + pipe + seq![' '] + (if lines.len() == 1 {
            pad_key(key, m)
        } else {
            spaces(m)
        }) + seq![' '] + lines.last() + seq!['\n']
    }
}

/// The rows of a table, each value wrapped to `value_width`.
pub open spec fn table_text(pipe: Seq<char>, rows: Seq<(String, String)>, value_width: usize, m: nat) -> Seq<char>
    decreases rows.len(),
{
    if rows.len() == 0 {
        Seq::empty()
    } else {
        table_text(pipe, rows.drop_last(), value_width, m) + row_text(
            pipe,
            rows.last().0@,
            wrapped_lines(rows.last().1@, value_width),
            m,
        )
    }
}

/// The pipe of the report frame.
pub open spec fn pipe_chars() -> Seq<char> {
    seq!['│']
}

/// The bar of the report frame.
pub open spec fn bar_chars() -> Seq<char> {
    seq!['─']
}

/// The text of a report drawn `width` characters wide: the header line, the body, and the footer
/// line, which ends without a newline.
pub open spec fn render(r: Report, width: usize) -> Seq<char>
    decreases r,
{
    seq!['┌'] + bar_chars() + seq![' '] + r.header@ + seq!['\n'] + render_items(r.items@, width) + seq!['└']
        + bar_chars() + bar_chars() + seq![' '] + footer_text(r.footer@, bar_chars())
}

/// The body of a report drawn `width` characters wide.
pub open spec fn render_items(items: Seq<ReportItem>, width: usize) -> Seq<char>
    decreases items,
{
    if items.len() == 0 {
        Seq::empty()
    } else {
        render_items(items.drop_last(), width) + render_item(items.last(), width)
    }
}

/// One body entry drawn in a report `width` characters wide. Text is wrapped two characters
/// narrower than the report; a nested report is drawn two characters narrower after an empty
/// piped line; a table's values are wrapped beside a key column as wide as the longest key.
pub open spec fn render_item(item: ReportItem, width: usize) -> Seq<char>
    decreases item,
{
    match item {
        ReportItem::Text(text) => piped(pipe_chars(), wrapped_lines(text@, sat_sub(width, 2))),
        ReportItem::Child(child) => pipe_chars() + seq![' ', '\n'] + piped(
            pipe_chars(),
            lines_spec(render(child, sat_sub(width, 2))),
        ),
        ReportItem::Table(rows) => {
            let m = max_key_len(rows@);
            table_text(pipe_chars(), rows@, sat_sub(width, 2 + m as int), m)
        },
    }
}

/// Appends `n` spaces.
fn append_spaces(result: &mut String, n: usize)
    ensures
        final(result)@ == old(result)@ + spaces(n as nat),
{
    let mut k: usize = 0;
    while k < n
        invariant
            k <= n,
            result@ == old(result)@ + spaces(k as nat),
        decreases n - k,
    {
        result.append(" ");
        proof {
            reveal_strlit(" ");
            assert(spaces(k as nat).push(' ') =~= spaces((k + 1) as nat));
        }
        k = k + 1;
    }
}

/// The length in bytes of the longest key.
fn longest_key(rows: &Vec<(String, String)>) -> (m: usize)
    ensures
        m == max_key_len(rows@),
{
    let mut m: usize = 0;
    let mut k: usize = 0;
    while k < rows.len()
        invariant
            k <= rows@.len(),
            m == max_key_len(rows@.subrange(0, k as int)),
        decreases rows@.len() - k,
    {
        let len = rows[k].0.as_str().len();
        proof {
            let done = rows@.subrange(0, k + 1);
            assert(done.drop_last() =~= rows@.subrange(0, k as int));
            assert(done.last() == rows@[k as int]);
        }
        if len > m {
            m = len;
        }
        k = k + 1;
    }
    proof {
        assert(rows@.subrange(0, rows@.len() as int) =~= rows@);
    }
    m
}

/// Appends the lines of one table row.
fn append_row(result: &mut String, key: &String, lines: &Vec<String>, m: usize)
    ensures
        final(result)@ == old(result)@ + row_text(pipe_chars(), key@, string_views(lines@), m as nat),
{
    let mut k: usize = 0;
    proof {
        assert(string_views(lines@.subrange(0, 0)) =~= Seq::<Seq<char>>::empty());
        assert(old(result)@ + row_text(pipe_chars(), key@, Seq::<Seq<char>>::empty(), m as nat) =~= old(result)@);
    }
    let klen = key.as_str().unicode_len();
    while k < lines.len()
        invariant
            k <= lines@.len(),
            klen == key@.len(),
            result@ == old(result)@ + row_text(pipe_chars(), key@, string_views(lines@.subrange(0, k as int)), m as nat),
        decreases lines@.len() - k,
    {
        let ghost before = result@;
        result.append("│");
        result.append(" ");
        let ghost mid = result@;
        if k == 0 {
            result.append(key.as_str());
            if klen < m {
                append_spaces(result, m - klen);
            }
        } else {
            append_spaces(result, m);
        }
        let ghost padded = result@;
        result.append(" ");
        result.append(lines[k].as_str());
        result.append("\n");
        proof {
            reveal_strlit("│");
            reveal_strlit(" ");
            reveal_strlit("\n");
            let done = string_views(lines@.subrange(0, k + 1));
            assert(done.drop_last() =~= string_views(lines@.subrange(0, k as int)));
            assert(done.last() == lines@[k as int]@);
            let pad = if done.len() == 1 {
                pad_key(key@, m as nat)
            } else {
                spaces(m as nat)
            };
            assert(padded =~= mid + pad);
            assert(row_text(pipe_chars(), key@, done, m as nat) == row_text(pipe_chars(), key@, done.drop_last(), m as nat)
                + pipe_chars() + seq![' '] + pad + seq![' '] + done.last() + seq!['\n']);
            assert(result@ =~= old(result)@ + row_text(pipe_chars(), key@, done, m as nat));
        }
        k = k + 1;
    }
    proof {
        assert(lines@.subrange(0, lines@.len() as int) =~= lines@);
    }
}

impl Report {
    /// Draws the report for a terminal `terminal_width` columns wide.
    pub fn print(&self, terminal_width: usize) -> (r: String)
        ensures
            r@ == render(*self, report_width_spec(terminal_width)),
    {
        self.print_width(report_width(terminal_width))
    }

    /// Draws the report `width` characters wide.
    pub fn print_width(&self, width: usize) -> (r: String)
        ensures
            r@ == render(*self, width),
        decreases self,
    {
        let mut result = String::new();
        proof {
            reveal_strlit("┌─ ");
            reveal_strlit("\n");
        }
        result.append("┌─ ");
        result.append(self.header.as_str());
        result.append("\n");
        let ghost head = result@;
        assert(head =~= seq!['┌'] + bar_chars() + seq![' '] + self.header@ + seq!['\n']);
        let inner = width.saturating_sub(2);
        let mut k: usize = 0;
        assert(self.items@.subrange(0, 0) =~= Seq::<ReportItem>::empty());
        while k < self.items.len()
            invariant
                k <= self.items@.len(),
                inner == sat_sub(width, 2),
                result@ == head + render_items(self.items@.subrange(0, k as int), width),
            decreases self.items@.len() - k,
        {
            let ghost before = result@;
            proof {
                reveal_strlit("│ \n");
            }
            match &self.items[k] {
                ReportItem::Text(text) => {
                    let lines = wrap_text(text.as_str(), inner);
                    append_piped_bar(&mut result, &lines);
                    proof {
                        assert(string_views(lines@) =~= wrapped_lines(text@, inner));
                    }
                },
                ReportItem::Child(child) => {
                    result.append("│ \n");
                    proof {
                        assert(decreases_to!(self.items@ => self.items@[k as int]));
                    }
                    let sub = child.print_width(inner);
                    let lines = split_lines(sub.as_str());
                    append_piped_bar(&mut result, &lines);
                    proof {
                        assert(string_views(lines@) =~= lines_spec(sub@));
                        assert("│ \n"@ =~= pipe_chars() + seq![' ', '\n']);
                    }
                },
                ReportItem::Table(rows) => {
                    let m = longest_key(rows);
                    let value_width = width.saturating_sub(2).saturating_sub(m);
                    assert(value_width == sat_sub(width, 2 + m as int));
                    let mut r: usize = 0;
                    assert(rows@.subrange(0, 0) =~= Seq::<(String, String)>::empty());
                    while r < rows.len()
                        invariant
                            r <= rows@.len(),
                            m == max_key_len(rows@),
                            value_width == sat_sub(width, 2 + m as int),
                            result@ == before + table_text(pipe_chars(), rows@.subrange(0, r as int), value_width, m as nat),
                        decreases rows@.len() - r,
                    {
                        let lines = wrap_text(rows[r].1.as_str(), value_width);
                        append_row(&mut result, &rows[r].0, &lines, m);
                        proof {
                            let done = rows@.subrange(0, r + 1);
                            assert(done.drop_last() =~= rows@.subrange(0, r as int));
                            assert(done.last() == rows@[r as int]);
                            assert(string_views(lines@) =~= wrapped_lines(rows@[r as int].1@, value_width));
                        }
                        r = r + 1;
                    }
                    proof {
                        assert(rows@.subrange(0, rows@.len() as int) =~= rows@);
                    }
                },
            }
            proof {
                let done = self.items@.subrange(0, k + 1);
                assert(done.drop_last() =~= self.items@.subrange(0, k as int));
                assert(done.last() == self.items@[k as int]);
                assert(result@ =~= before + render_item(self.items@[k as int], width));
            }
            k = k + 1;
        }
        proof {
            assert(self.items@.subrange(0, self.items@.len() as int) =~= self.items@);
        }
        proof {
            reveal_strlit("└── ");
        }
        result.append("└── ");
        let ghost body = result@;
        assert(body =~= head + render_items(self.items@, width) + seq!['└'] + bar_chars() + bar_chars() + seq![' ']);
        let mut f: usize = 0;
        assert(footer_text(self.footer@.subrange(0, 0), bar_chars()) =~= Seq::<char>::empty());
        while f < self.footer.len()
            invariant
                f <= self.footer@.len(),
                result@ == body + footer_text(self.footer@.subrange(0, f as int), bar_chars()),
            decreases self.footer@.len() - f,
        {
            let ghost before = result@;
            if f > 0 {
                result.append(" ─ ");
            }
            result.append(self.footer[f].as_str());
            proof {
                reveal_strlit(" ─ ");
                let done = self.footer@.subrange(0, f + 1);
                assert(done.drop_last() =~= self.footer@.subrange(0, f as int));
                assert(done.last() == self.footer@[f as int]);
                if f == 0 {
                    assert(done.len() == 1);
                    assert(footer_text(done, bar_chars()) == done[0]@);
                    assert(result@ =~= body + footer_text(done, bar_chars()));
                } else {
                    assert(footer_text(done, bar_chars()) == footer_text(done.drop_last(), bar_chars()) + seq![' ']
                        + bar_chars() + seq![' '] + done.last()@);
                    assert(result@ =~= body + footer_text(done, bar_chars()));
                }
            }
            f = f + 1;
        }
        proof {
            assert(self.footer@.subrange(0, self.footer@.len() as int) =~= self.footer@);
        }
        result
    }
}

/// Appends each line behind the frame's pipe and a space, ending each in a newline.
fn append_piped_bar(result: &mut String, lines: &Vec<String>)
    ensures
        final(result)@ == old(result)@ + piped(pipe_chars(), string_views(lines@)),
{
    let mut k: usize = 0;
    proof {
        assert(string_views(lines@.subrange(0, 0)) =~= Seq::<Seq<char>>::empty());
        assert(old(result)@ + piped(pipe_chars(), Seq::<Seq<char>>::empty()) =~= old(result)@);
    }
    while k < lines.len()
        invariant
            k <= lines@.len(),
            result@ == old(result)@ + piped(pipe_chars(), string_views(lines@.subrange(0, k as int))),
        decreases lines@.len() - k,
    {
        result.append("│ ");
        result.append(lines[k].as_str());
        result.append("\n");
        proof {
            reveal_strlit("│ ");
            reveal_strlit("\n");
            let done = string_views(lines@.subrange(0, k + 1));
            assert(done.drop_last() =~= string_views(lines@.subrange(0, k as int)));
            assert(done.last() == lines@[k as int]@);
            assert(piped(pipe_chars(), done) == piped(pipe_chars(), done.drop_last()) + pipe_chars() + seq![' ']
                + done.last() + seq!['\n']);
            assert(result@ =~= old(result)@ + piped(pipe_chars(), done));
        }
        k = k + 1;
    }
    proof {
        assert(lines@.subrange(0, lines@.len() as int) =~= lines@);
    }
}

} // verus!
