//! Box-drawn reports for the terminal: a header line, text wrapped to the terminal width, nested
//! reports indented one step further, and a footer line.

use vstd::prelude::*;
use vstd::string::*;
use crate::text::string_views;

verus! {

/// Names the lines `textwrap::wrap` breaks `text` into for a line `width`.
pub uninterp spec fn wrapped_lines(text: Seq<char>, width: usize) -> Seq<Seq<char>>;

/// Calls `textwrap::wrap(text, width)` with the crate's default options. Its result depends on its
/// two arguments alone; the contract claims that the lines returned are those `wrapped_lines`
/// names, and says nothing more of how the lines are chosen.
#[verifier::external_body]
pub(crate) fn wrap_text(text: &str, width: usize) -> (r: Vec<String>)
    ensures
        r@.len() == wrapped_lines(text@, width).len(),
        forall|i: int| 0 <= i < r@.len() ==> (#[trigger] r@[i])@ == wrapped_lines(text@, width)[i],
{
    textwrap::wrap(text, width).into_iter().map(|line| line.into_owned()).collect()
}

/// `a - b`, or zero when `b` is larger.
pub open spec fn sat_sub(a: usize, b: int) -> usize {
    if a >= b {
        (a - b) as usize
    } else {
        0
    }
}

/// The pieces of `s` between its newline characters; there is one more piece than newlines.
pub open spec fn newline_pieces(s: Seq<char>) -> Seq<Seq<char>>
    decreases s.len(),
{
    if s.len() == 0 {
        seq![Seq::empty()]
    } else {
        let before = newline_pieces(s.drop_last());
        if s.last() == '\n' {
            before.push(Seq::empty())
        } else {
            before.update(before.len() - 1, before.last().push(s.last()))
        }
    }
}

/// A line without the carriage return that ends it, if one does.
pub open spec fn strip_cr(line: Seq<char>) -> Seq<char> {
    if line.len() > 0 && line.last() == '\r' {
        line.drop_last()
    } else {
        line
    }
}

/// The lines of `s` as `str::lines` documents them: lines end at a newline or at a carriage
/// return followed by a newline, the terminators are not part of the lines, and the last line
/// needs no terminator.
pub open spec fn lines_spec(s: Seq<char>) -> Seq<Seq<char>> {
    let pieces = newline_pieces(s);
    let ended = Seq::new((pieces.len() - 1) as nat, |i: int| strip_cr(pieces[i]));
    if pieces.last().len() > 0 {
        ended.push(pieces.last())
    } else {
        ended
    }
}

proof fn lemma_newline_pieces_nonempty(s: Seq<char>)
    ensures
        newline_pieces(s).len() >= 1,
    decreases s.len(),
{
    if s.len() > 0 {
        lemma_newline_pieces_nonempty(s.drop_last());
    }
}

/// Splits `s` into lines as `str::lines` does.
pub fn split_lines(s: &str) -> (r: Vec<String>)
    ensures
        r@.len() == lines_spec(s@).len(),
        forall|i: int| 0 <= i < r@.len() ==> (#[trigger] r@[i])@ == lines_spec(s@)[i],
{
    let n = s.unicode_len();
    let mut out: Vec<String> = Vec::new();
    let mut start: usize = 0;
    let mut i: usize = 0;
    while i < n
        invariant
            n == s@.len(),
            start <= i <= n,
            newline_pieces(s@.subrange(0, i as int)).len() == out@.len() + 1,
            newline_pieces(s@.subrange(0, i as int)).last() == s@.subrange(start as int, i as int),
            forall|j: int| 0 <= j < out@.len() ==> (#[trigger] out@[j])@ == strip_cr(
                newline_pieces(s@.subrange(0, i as int))[j],
            ),
        decreases n - i,
    {
        let c = s.get_char(i);
        proof {
            let pre = s@.subrange(0, i as int);
            let next = s@.subrange(0, i + 1);
            assert(next.drop_last() =~= pre);
            assert(next.last() == c);
            lemma_newline_pieces_nonempty(pre);
        }
        if c == '\n' {
            let mut end = i;
            if i > start && s.get_char(i - 1) == '\r' {
                end = i - 1;
            }
            let line = s.substring_char(start, end);
            proof {
                let piece = s@.subrange(start as int, i as int);
                assert(strip_cr(piece) =~= s@.subrange(start as int, end as int));
            }
            out.push(String::from_str(line));
            start = i + 1;
            proof {
                assert(s@.subrange(start as int, i + 1) =~= Seq::<char>::empty());
            }
        } else {
            proof {
                assert(s@.subrange(start as int, i + 1) =~= s@.subrange(start as int, i as int).push(c));
            }
        }
        i = i + 1;
    }
    proof {
        assert(s@.subrange(0, n as int) =~= s@);
        lemma_newline_pieces_nonempty(s@);
    }
    if start < n {
        let line = s.substring_char(start, n);
        out.push(String::from_str(line));
    }
    proof {
        let pieces = newline_pieces(s@);
        let ended = Seq::new((pieces.len() - 1) as nat, |k: int| strip_cr(pieces[k]));
        assert forall|j: int| 0 <= j < out@.len() implies (#[trigger] out@[j])@ == lines_spec(s@)[j] by {
            if j < ended.len() {
                assert(lines_spec(s@)[j] == ended[j]);
            }
        }
    }
    out
}

/// The box-drawing characters a report is drawn with.
#[derive(Clone, Copy, Debug)]
pub struct Charset {
    pub pipe: &'static str,
    pub bar: &'static str,
    pub rtl: &'static str,
    pub rbl: &'static str,
}

/// Unicode box drawing with rounded corners.
pub open spec fn unicode_charset() -> Charset {
    Charset { pipe: "│", bar: "─", rtl: "╭", rbl: "╰" }
}

impl Charset {
    /// Unicode box drawing with rounded corners.
    pub fn unicode() -> (r: Charset)
        ensures
            r == unicode_charset(),
    {
        Charset { pipe: "│", bar: "─", rtl: "╭", rbl: "╰" }
    }

    /// Plain ASCII drawing.
    pub fn ascii() -> (r: Charset)
        ensures
            r.pipe@ == "|"@,
            r.bar@ == ""@,
            r.rtl@ == "|"@,
            r.rbl@ == "|"@,
    {
        Charset { pipe: "|", bar: "", rtl: "|", rbl: "|" }
    }
}

/// A report: a header, a body of text and nested reports, and footer fields.
#[derive(Debug)]
pub struct Report {
    pub header: String,
    pub items: Vec<ReportItem>,
    pub footer: Vec<String>,
}

/// An entry in a report's body.
#[derive(Debug)]
pub enum ReportItem {
    /// Text that is wrapped to the report's width.
    Text(String),
    /// A nested report, drawn one step further in.
    Child(Report),
}

impl Default for Report {
    fn default() -> (r: Self)
        ensures
            r.header@.len() == 0,
            r.items@.len() == 0,
            r.footer@.len() == 0,
    {
        Report { header: String::new(), items: Vec::new(), footer: Vec::new() }
    }
}

/// Each line drawn behind the pipe and a space, ending in a newline.
pub open spec fn piped(pipe: Seq<char>, lines: Seq<Seq<char>>) -> Seq<char>
    decreases lines.len(),
{
    if lines.len() == 0 {
        Seq::empty()
    } else {
        piped(pipe, lines.drop_last()) + pipe + seq![' '] + lines.last() + seq!['\n']
    }
}

/// The footer fields, separated by the bar between spaces.
pub open spec fn footer_text(footer: Seq<String>, bar: Seq<char>) -> Seq<char>
    decreases footer.len(),
{
    if footer.len() == 0 {
        Seq::empty()
    } else if footer.len() == 1 {
        footer[0]@
    } else {
        footer_text(footer.drop_last(), bar) + seq![' '] + bar + seq![' '] + footer.last()@
    }
}

/// The text of a report drawn `width` characters wide: the header line, the body, and the footer
/// line, which ends without a newline.
pub open spec fn render(r: Report, cs: Charset, width: usize) -> Seq<char>
    decreases r,
{
    cs.rtl@ + cs.bar@ + seq![' '] + r.header@ + seq!['\n'] + render_items(r.items@, cs, width) + cs.rbl@
        + cs.bar@ + cs.bar@ + seq![' '] + footer_text(r.footer@, cs.bar@)
}

/// The body of a report drawn `width` characters wide.
pub open spec fn render_items(items: Seq<ReportItem>, cs: Charset, width: usize) -> Seq<char>
    decreases items,
{
    if items.len() == 0 {
        Seq::empty()
    } else {
        render_items(items.drop_last(), cs, width) + render_item(items.last(), cs, width)
    }
}

/// One body entry: text wrapped two characters narrower than the report, behind the pipe; or an
/// empty piped line followed by the lines of the nested report, drawn two characters narrower,
/// behind the pipe.
pub open spec fn render_item(item: ReportItem, cs: Charset, width: usize) -> Seq<char>
    decreases item,
{
    match item {
        ReportItem::Text(text) => piped(cs.pipe@, wrapped_lines(text@, sat_sub(width, 2))),
        ReportItem::Child(child) => cs.pipe@ + seq![' ', '\n'] + piped(
            cs.pipe@,
            lines_spec(render(child, cs, sat_sub(width, 2))),
        ),
    }
}

/// Appends each line behind the pipe and a space, ending each in a newline.
fn append_piped(result: &mut String, pipe: &str, lines: &Vec<String>)
    ensures
        final(result)@ == old(result)@ + piped(pipe@, string_views(lines@)),
{
    let mut k: usize = 0;
    proof {
        reveal_strlit(" ");
        reveal_strlit("\n");
        assert(string_views(lines@.subrange(0, 0)) =~= Seq::<Seq<char>>::empty());
        assert(old(result)@ + piped(pipe@, Seq::<Seq<char>>::empty()) =~= old(result)@);
    }
    while k < lines.len()
        invariant
            k <= lines@.len(),
            result@ == old(result)@ + piped(pipe@, string_views(lines@.subrange(0, k as int))),
        decreases lines@.len() - k,
    {
        let ghost before = result@;
        result.append(pipe);
        result.append(" ");
        result.append(lines[k].as_str());
        result.append("\n");
        proof {
            reveal_strlit(" ");
            reveal_strlit("\n");
            let done = string_views(lines@.subrange(0, k + 1));
            assert(done.drop_last() =~= string_views(lines@.subrange(0, k as int)));
            assert(done.last() == lines@[k as int]@);
            assert(piped(pipe@, done) == piped(pipe@, done.drop_last()) + pipe@ + seq![' '] + done.last() + seq!['\n']);
            assert(result@ =~= old(result)@ + piped(pipe@, done));
        }
        k = k + 1;
    }
    proof {
        assert(lines@.subrange(0, lines@.len() as int) =~= lines@);
    }
}

/// The report width for a terminal `terminal_width` columns wide: ten columns narrower, on
/// terminals wider than forty columns.
pub open spec fn report_width_spec(terminal_width: usize) -> usize {
    if terminal_width > 40 {
        (terminal_width - 10) as usize
    } else {
        terminal_width
    }
}

/// The width reports are drawn with on a terminal `terminal_width` columns wide.
pub fn report_width(terminal_width: usize) -> (r: usize)
    ensures
        r == report_width_spec(terminal_width),
{
    if terminal_width > 40 {
        terminal_width - 10
    } else {
        terminal_width
    }
}

impl Report {
    /// Draws the report for a terminal `terminal_width` columns wide, with Unicode box drawing.
    pub fn print(&self, terminal_width: usize) -> (r: String)
        ensures
            r@ == render(*self, unicode_charset(), report_width_spec(terminal_width)),
    {
        let cs = Charset::unicode();
        self.print_report(&cs, report_width(terminal_width))
    }

    /// Draws the report `width` characters wide with the given characters.
    pub fn print_report(&self, charset: &Charset, width: usize) -> (r: String)
        ensures
            r@ == render(*self, *charset, width),
        decreases self,
    {
        let mut result = String::new();
        proof {
            reveal_strlit(" ");
            reveal_strlit("\n");
            reveal_strlit(" \n");
        }
        result.append(charset.rtl);
        result.append(charset.bar);
        result.append(" ");
        result.append(self.header.as_str());
        result.append("\n");
        let ghost head = result@;
        assert(head == charset.rtl@ + charset.bar@ + seq![' '] + self.header@ + seq!['\n']);
        let inner = width.saturating_sub(2);
        let mut k: usize = 0;
        assert(self.items@.subrange(0, 0) =~= Seq::<ReportItem>::empty());
        while k < self.items.len()
            invariant
                k <= self.items@.len(),
                inner == sat_sub(width, 2),
                result@ == head + render_items(self.items@.subrange(0, k as int), *charset, width),
            decreases self.items@.len() - k,
        {
            let ghost before = result@;
            proof {
                reveal_strlit(" \n");
            }
            match &self.items[k] {
                ReportItem::Text(text) => {
                    let lines = wrap_text(text.as_str(), inner);
                    append_piped(&mut result, charset.pipe, &lines);
                    proof {
                        assert(string_views(lines@) =~= wrapped_lines(text@, inner));
                    }
                },
                ReportItem::Child(child) => {
                    result.append(charset.pipe);
                    result.append(" \n");
                    proof {
                        assert(decreases_to!(self.items@ => self.items@[k as int]));
                    }
                    let sub = child.print_report(charset, inner);
                    let lines = split_lines(sub.as_str());
                    append_piped(&mut result, charset.pipe, &lines);
                    proof {
                        assert(string_views(lines@) =~= lines_spec(sub@));
                        assert(" \n"@ == seq![' ', '\n']);
                    }
                },
            }
            proof {
                let done = self.items@.subrange(0, k + 1);
                assert(done.drop_last() =~= self.items@.subrange(0, k as int));
                assert(done.last() == self.items@[k as int]);
                assert(result@ =~= before + render_item(self.items@[k as int], *charset, width));
            }
            k = k + 1;
        }
        proof {
            assert(self.items@.subrange(0, self.items@.len() as int) =~= self.items@);
        }
        result.append(charset.rbl);
        result.append(charset.bar);
        result.append(charset.bar);
        result.append(" ");
        let ghost body = result@;
        let mut f: usize = 0;
        assert(footer_text(self.footer@.subrange(0, 0), charset.bar@) =~= Seq::<char>::empty());
        while f < self.footer.len()
            invariant
                f <= self.footer@.len(),
                result@ == body + footer_text(self.footer@.subrange(0, f as int), charset.bar@),
            decreases self.footer@.len() - f,
        {
            let ghost before = result@;
            if f > 0 {
                result.append(" ");
                result.append(charset.bar);
                result.append(" ");
            }
            result.append(self.footer[f].as_str());
            proof {
                reveal_strlit(" ");
                let done = self.footer@.subrange(0, f + 1);
                assert(done.drop_last() =~= self.footer@.subrange(0, f as int));
                assert(done.last() == self.footer@[f as int]);
                if f == 0 {
                    assert(done.len() == 1);
                    assert(footer_text(done, charset.bar@) == done[0]@);
                    assert(before == body);
                    assert(result@ =~= body + footer_text(done, charset.bar@));
                } else {
                    assert(footer_text(done, charset.bar@) == footer_text(done.drop_last(), charset.bar@) + seq![' ']
                        + charset.bar@ + seq![' '] + done.last()@);
                    assert(result@ =~= body + footer_text(done, charset.bar@));
                }
            }
            f = f + 1;
        }
        proof {
            assert(self.footer@.subrange(0, self.footer@.len() as int) =~= self.footer@);
        }
        result
    }
}

} // verus!
