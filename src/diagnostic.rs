//! The diagnostic record and its rendering as caret-annotated text.

use vstd::prelude::*;
use crate::text::{
    bold, bold_spec, color, color_spec, dec, decimal, lemma_dec_len_usize, lemma_repeat_char,
    repeat, repeat_str, spaces, BLUE, RED,
};

verus! {

/// One diagnostic: a headline, the annotated source line with its
/// highlighted span, and the cosmetic location data.
pub struct ErrorData {
    pub summary: String,
    pub line: String,
    pub message: String,
    /// First character of the highlighted span.
    pub spos: usize,
    /// One past the last character of the highlighted span.
    pub epos: usize,
    pub lineno: usize,
    pub path: String,
    pub errnum: usize,
}

/// `s` preceded by as many zeros as it takes to be `width` long.
pub open spec fn pad_zeros(s: Seq<char>, width: nat) -> Seq<char> {
    if s.len() < width {
        repeat(seq!['0'], (width - s.len()) as nat) + s
    } else {
        s
    }
}

/// The identifier of error number `n`: `E` and at least four digits.
pub open spec fn errid_spec(n: nat) -> Seq<char> {
    seq!['E'] + pad_zeros(dec(n), 4)
}

/// The gutter of a row without a line number, for numbers `width` digits long.
pub open spec fn empty_gutter(width: nat) -> Seq<char> {
    color_spec(spaces(width + 1) + seq!['|', ' '], 4)
}

/// The gutter of the row that shows line `lineno`.
pub open spec fn number_gutter(lineno: nat) -> Seq<char> {
    color_spec(dec(lineno) + seq![' ', '|', ' '], 4)
}

/// Bold and red: the style of the error's own text.
pub open spec fn alert(s: Seq<char>) -> Seq<char> {
    bold_spec(color_spec(s, 1))
}

impl ErrorData {
    /// The span lies inside the line (an empty span renders no caret), and
    /// its one-based start column fits a `usize`.
    pub open spec fn wf(&self) -> bool {
        self.spos <= self.epos <= self.line@.len() && self.spos < usize::MAX
    }

    /// How many digits the line number takes.
    pub open spec fn lineno_width(&self) -> nat {
        dec(self.lineno as nat).len()
    }

    /// `error[E0069]: summary`, ended by a newline.
    pub open spec fn header_spec(&self) -> Seq<char> {
        alert(seq!['e', 'r', 'r', 'o', 'r', '['] + errid_spec(self.errnum as nat) + seq![']'])
            + bold_spec(seq![':', ' '] + self.summary@ + seq!['\n'])
    }

    /// `--> path:line:column`, the column counted from one, ended by a newline.
    pub open spec fn location_spec(&self) -> Seq<char> {
        spaces(self.lineno_width()) + color_spec(seq!['-', '-', '>', ' '], 4) + self.path@
            + seq![':'] + dec(self.lineno as nat) + seq![':'] + dec((self.spos + 1) as nat) + seq!['\n']
    }

    /// The numbered source row with the span highlighted.
    pub open spec fn source_row_spec(&self) -> Seq<char> {
        number_gutter(self.lineno as nat) + self.line@.subrange(0, self.spos as int) + alert(
            self.line@.subrange(self.spos as int, self.epos as int),
        ) + self.line@.subrange(self.epos as int, self.line@.len() as int)
    }

    /// The row of carets under the span, followed by the message.
    pub open spec fn caret_row_spec(&self) -> Seq<char> {
        empty_gutter(self.lineno_width()) + spaces(self.spos as nat) + alert(
            repeat(seq!['^'], (self.epos - self.spos) as nat),
        ) + seq![' '] + alert(self.message@)
    }

    /// The whole diagnostic, row by row.
    pub open spec fn render_spec(&self) -> Seq<char> {
        let gutter = empty_gutter(self.lineno_width());
        self.header_spec() + self.location_spec() + gutter + seq!['\n'] + self.source_row_spec()
            + seq!['\n'] + self.caret_row_spec() + seq!['\n'] + gutter
    }

    /// The identifier of the error, such as `E0069`.
    pub fn get_errid(&self) -> (r: String)
        ensures
            r@ == errid_spec(self.errnum as nat),
    {
        proof {
            reveal_strlit("E");
            reveal_strlit("0");
            assert("E"@ =~= seq!['E']);
            assert("0"@ =~= seq!['0']);
        }
        let digits = decimal(self.errnum);
        let len = digits.as_str().unicode_len();
        let mut r = String::from_str("E");
        if len < 4 {
            let zeros = repeat_str("0", 4 - len);
            r.append(zeros.as_str());
        }
        r.append(digits.as_str());
        assert(r@ =~= errid_spec(self.errnum as nat));
        r
    }

    /// The whole diagnostic as text, ready to be written out in one piece.
    pub fn print(&self) -> (r: String)
        requires
            self.wf(),
        ensures
            r@ == self.render_spec(),
    {
        proof {
            reveal_strlit("\n");
        }
        let lineno = decimal(self.lineno);
        let width = lineno.as_str().unicode_len();
        proof {
            lemma_dec_len_usize(self.lineno);
        }
        let empty_line = empty_gutter_str(width);
        let mut string = self.header();
        string.append(self.location(&lineno).as_str());
        string.append(empty_line.as_str());
        string.append("\n");
        string.append(self.source_row(&lineno).as_str());
        string.append("\n");
        string.append(self.caret_row(&empty_line).as_str());
        string.append("\n");
        string.append(empty_line.as_str());
        assert(string@ =~= self.render_spec());
        string
    }

    fn header(&self) -> (r: String)
        ensures
            r@ == self.header_spec(),
    {
        proof {
            reveal_strlit("error[");
            reveal_strlit("]");
            reveal_strlit(": ");
            reveal_strlit("\n");
            assert("error["@ =~= seq!['e', 'r', 'r', 'o', 'r', '[']);
        }
        let mut id = String::from_str("error[");
        id.append(self.get_errid().as_str());
        id.append("]");
        let mut string = alert_str(id);
        let mut rest = String::from_str(": ");
        rest.append(self.summary.as_str());
        rest.append("\n");
        string.append(bold(rest).as_str());
        assert(string@ =~= self.header_spec());
        string
    }

    fn location(&self, lineno: &String) -> (r: String)
        requires
            self.wf(),
            lineno@ == dec(self.lineno as nat),
        ensures
            r@ == self.location_spec(),
    {
        proof {
            reveal_strlit("--> ");
            reveal_strlit(":");
            reveal_strlit(" ");
            reveal_strlit("\n");
            assert(" "@ =~= seq![' ']);
            assert("--> "@ =~= seq!['-', '-', '>', ' ']);
        }
        let width = lineno.as_str().unicode_len();
        let mut string = repeat_str(" ", width);
        string.append(color(String::from_str("--> "), BLUE).as_str());
        string.append(self.path.as_str());
        string.append(":");
        string.append(lineno.as_str());
        string.append(":");
        string.append(decimal(self.spos + 1).as_str());
        string.append("\n");
        assert(string@ =~= self.location_spec());
        string
    }

    fn source_row(&self, lineno: &String) -> (r: String)
        requires
            self.wf(),
            lineno@ == dec(self.lineno as nat),
        ensures
            r@ == self.source_row_spec(),
    {
        proof {
            reveal_strlit(" | ");
        }
        let line = self.line.as_str();
        let len = line.unicode_len();
        let mut gutter = lineno.clone();
        gutter.append(" | ");
        let mut string = color(gutter, BLUE);
        string.append(line.substring_char(0, self.spos));
        string.append(alert_str(String::from_str(line.substring_char(self.spos, self.epos))).as_str());
        string.append(line.substring_char(self.epos, len));
        assert(string@ =~= self.source_row_spec());
        string
    }

    fn caret_row(&self, empty_line: &String) -> (r: String)
        requires
            self.wf(),
            empty_line@ == empty_gutter(self.lineno_width()),
        ensures
            r@ == self.caret_row_spec(),
    {
        proof {
            reveal_strlit(" ");
            reveal_strlit("^");
            assert(" "@ =~= seq![' ']);
            assert("^"@ =~= seq!['^']);
        }
        let mut string = empty_line.clone();
        string.append(repeat_str(" ", self.spos).as_str());
        string.append(alert_str(repeat_str("^", self.epos - self.spos)).as_str());
        string.append(" ");
        string.append(alert_str(self.message.clone()).as_str());
        assert(string@ =~= self.caret_row_spec());
        string
    }
}

/// The caret row and the source row line up: both gutters take the same
/// room, the `spos` characters before the span face `spos` spaces, and then,
/// behind the same opening style, the caret row holds exactly
/// `epos - spos` carets where the source row holds the span's characters,
/// each caret at the index of the character it marks; the style closes right
/// after the last caret.
pub proof fn lemma_carets_under_span(e: &ErrorData)
    requires
        e.wf(),
        e.spos < e.epos,
    ensures
        ({
            let c = e.caret_row_spec();
            let s = e.source_row_spec();
            let g = e.lineno_width() + 13;
            let p = g + e.spos + 9;
            let n = e.epos - e.spos;
            &&& empty_gutter(e.lineno_width()).len() == g
            &&& number_gutter(e.lineno as nat).len() == g
            &&& c.subrange(0, g as int) == empty_gutter(e.lineno_width())
            &&& s.subrange(0, g as int) == number_gutter(e.lineno as nat)
            &&& forall|k: int| 0 <= k < e.spos ==> #[trigger] c[g + k] == ' ' && s[g + k] == e.line@[k]
            &&& c.subrange(g + e.spos, p) == s.subrange(g + e.spos, p)
            &&& c.len() > p + n && s.len() > p + n
            &&& forall|k: int| 0 <= k < n ==> #[trigger] c[p + k] == '^' && s[p + k] == e.line@[e.spos + k]
            &&& c[p + n] == '\x1b' && s[p + n] == '\x1b'
        }),
{
    let w = e.lineno_width();
    let g = w + 13;
    let n = (e.epos - e.spos) as nat;
    lemma_repeat_char(' ', w + 1);
    lemma_repeat_char(' ', e.spos as nat);
    lemma_repeat_char('^', n);
    let c = e.caret_row_spec();
    let s = e.source_row_spec();
    assert(empty_gutter(w).len() == g);
    assert(number_gutter(e.lineno as nat).len() == g);
    assert(c.subrange(0, g as int) =~= empty_gutter(w));
    assert(s.subrange(0, g as int) =~= number_gutter(e.lineno as nat));
    let p = g + e.spos + 9;
    assert(c.subrange(g + e.spos, p) =~= s.subrange(g + e.spos, p));
    assert forall|k: int| 0 <= k < e.spos implies #[trigger] c[g + k] == ' ' && s[g + k] == e.line@[k] by {}
    assert forall|k: int| 0 <= k < n implies #[trigger] c[p + k] == '^' && s[p + k] == e.line@[e.spos + k] by {}
}

/// The gutter of a row without a line number.
fn empty_gutter_str(width: usize) -> (r: String)
    requires
        width < usize::MAX,
    ensures
        r@ == empty_gutter(width as nat),
{
    proof {
        reveal_strlit(" ");
        reveal_strlit("| ");
        assert(" "@ =~= seq![' ']);
    }
    let mut g = repeat_str(" ", width + 1);
    g.append("| ");
    assert(g@ =~= spaces((width + 1) as nat) + seq!['|', ' ']);
    color(g, BLUE)
}

/// `s` in bold red.
fn alert_str(s: String) -> (r: String)
    ensures
        r@ == alert(s@),
{
    bold(color(s, RED))
}

} // verus!
