//! What the terminal shows: certificate rows, boxed panels, prompt, hint and toast lines,
//! as coloured text segments. Writing them out is left to the caller.

use vstd::prelude::*;

use crate::cert::{CertView, Certificate};
use crate::text::{
    decimal, digits_value, is_digit, law_decimal_reads_back, push_char, push_decimal, push_repeated,
    repeated,
};

verus! {

/// The colours of the palette.
#[derive(Debug, Clone, Copy, PartialEq, Eq, Structural)]
pub enum Tone {
    Active,
    Warn,
    Danger,
    Dim,
    Text,
    Prompt,
}

/// A piece of text printed in one colour.
#[derive(Debug)]
pub struct Segment {
    pub text: String,
    pub tone: Tone,
}

/// What a segment is, as the contracts speak of it.
pub struct SegmentView {
    pub text: Seq<char>,
    pub tone: Tone,
}

impl View for Segment {
    type V = SegmentView;

    open spec fn view(&self) -> SegmentView {
        SegmentView { text: self.text@, tone: self.tone }
    }
}

/// The views of a sequence of segments.
pub open spec fn seg_views(s: Seq<Segment>) -> Seq<SegmentView> {
    s.map_values(|x: Segment| x@)
}

/// The views of a sequence of rows.
pub open spec fn row_views(rows: Seq<Vec<Segment>>) -> Seq<Seq<SegmentView>> {
    rows.map_values(|r: Vec<Segment>| seg_views(r@))
}

/// A segment, as a value of the contracts.
pub open spec fn seg(text: Seq<char>, tone: Tone) -> SegmentView {
    SegmentView { text, tone }
}

/// The number of characters a row prints.
pub open spec fn row_width(row: Seq<SegmentView>) -> nat
    decreases row.len(),
{
    if row.len() == 0 {
        0
    } else {
        row_width(row.drop_last()) + row.last().text.len()
    }
}

impl Segment {
    /// A segment of `text` in `tone`.
    pub fn new(text: String, tone: Tone) -> (s: Segment)
        ensures
            s@ == seg(text@, tone),
    {
        Segment { text, tone }
    }

    /// A copy of this segment.
    pub fn copy(&self) -> (s: Segment)
        ensures
            s@ == self@,
    {
        Segment { text: self.text.clone(), tone: self.tone }
    }
}

/// The status word of a certificate row.
pub open spec fn status_text(active: bool) -> Seq<char> {
    if active {
        "ACTIVE"@
    } else {
        "INACTIVE"@
    }
}

/// One certificate row, `[ACTIVE]-[12]-[my_cert.cer]`.
pub open spec fn cert_line_text(c: CertView) -> Seq<char> {
    "["@ + status_text(c.active) + "]-["@ + decimal(c.id as nat) + "]-["@ + c.name + "]"@
}

/// Formats one certificate row exactly as `[ACTIVE]-[12]-[my_cert.cer]`.
pub fn cert_line(c: &Certificate) -> (s: String)
    ensures
        s@ == cert_line_text(c@),
{
    let mut s = String::new();
    s.append("[");
    if c.active {
        s.append("ACTIVE");
    } else {
        s.append("INACTIVE");
    }
    s.append("]-[");
    push_decimal(&mut s, c.id);
    s.append("]-[");
    s.append(c.name.as_str());
    s.append("]");
    assert(s@ =~= cert_line_text(c@));
    s
}

/// The text of an empty panel.
pub open spec fn empty_panel_text() -> Seq<char> {
    "no certificates yet"@
}

/// The larger of two numbers.
pub open spec fn nat_max(a: nat, b: nat) -> nat {
    if a >= b {
        a
    } else {
        b
    }
}

/// The length of the longest line.
pub open spec fn max_len(lines: Seq<SegmentView>) -> nat
    decreases lines.len(),
{
    if lines.len() == 0 {
        0
    } else {
        nat_max(max_len(lines.drop_last()), lines.last().text.len())
    }
}

/// The inner width of a panel: its longest line, the empty-panel text, or the label and
/// two more, whichever is longest.
pub open spec fn panel_width(label: Seq<char>, lines: Seq<SegmentView>) -> nat {
    nat_max(nat_max(max_len(lines), empty_panel_text().len()), label.len() + 2)
}

/// The top border, with the label cut into it: `┌─ LABEL ───┐`.
pub open spec fn top_row(label: Seq<char>, w: nat) -> Seq<SegmentView> {
    seq![
        seg(seq!['┌', '─', ' '] + label + seq![' '], Tone::Dim),
        seg(repeated('─', (w - label.len() - 1) as nat).push('┐'), Tone::Dim),
    ]
}

/// A content row: `│ text   │`, padded to the inner width `w`.
pub open spec fn content_row(text: Seq<char>, tone: Tone, w: nat) -> Seq<SegmentView> {
    seq![
        seg(seq!['│', ' '], Tone::Dim),
        seg(text, tone),
        seg(repeated(' ', (w - text.len()) as nat), Tone::Text),
        seg(seq![' ', '│'], Tone::Dim),
    ]
}

/// The bottom border: `└─────┘`.
pub open spec fn bottom_row(w: nat) -> Seq<SegmentView> {
    seq![seg(seq!['└'] + repeated('─', w + 2) + seq!['┘'], Tone::Dim)]
}

/// The rows of a panel: top border, one content row per line (or the empty-panel text
/// where there is none), bottom border.
pub open spec fn panel_rows(label: Seq<char>, lines: Seq<SegmentView>) -> Seq<Seq<SegmentView>> {
    let w = panel_width(label, lines);
    let body = if lines.len() == 0 {
        seq![content_row(empty_panel_text(), Tone::Dim, w)]
    } else {
        Seq::new(lines.len(), |i: int| content_row(lines[i].text, lines[i].tone, w))
    };
    seq![top_row(label, w)] + body + seq![bottom_row(w)]
}

proof fn lemma_max_len_bound(lines: Seq<SegmentView>, i: int)
    requires
        0 <= i < lines.len(),
    ensures
        lines[i].text.len() <= max_len(lines),
    decreases lines.len(),
{
    if i < lines.len() - 1 {
        lemma_max_len_bound(lines.drop_last(), i);
    }
}

proof fn lemma_max_len_limit(lines: Seq<SegmentView>, k: nat)
    requires
        forall|i: int| 0 <= i < lines.len() ==> #[trigger] lines[i].text.len() <= k,
    ensures
        max_len(lines) <= k,
    decreases lines.len(),
{
    if lines.len() > 0 {
        lemma_max_len_limit(lines.drop_last(), k);
    }
}

fn dim(text: String) -> (s: Segment)
    ensures
        s@ == seg(text@, Tone::Dim),
{
    Segment { text, tone: Tone::Dim }
}

fn content(text: String, tone: Tone, w: usize) -> (row: Vec<Segment>)
    requires
        text@.len() <= w,
    ensures
        seg_views(row@) == content_row(text@, tone, w as nat),
{
    let pad = w - text.as_str().unicode_len();
    let mut left = String::new();
    push_char(&mut left, '│');
    push_char(&mut left, ' ');
    let mut gap = String::new();
    push_repeated(&mut gap, ' ', pad);
    let mut right = String::new();
    push_char(&mut right, ' ');
    push_char(&mut right, '│');
    let mut row: Vec<Segment> = Vec::new();
    row.push(dim(left));
    row.push(Segment::new(text, tone));
    row.push(Segment::new(gap, Tone::Text));
    row.push(dim(right));
    assert(gap@ =~= repeated(' ', (w - text@.len()) as nat));
    assert(left@ =~= seq!['│', ' ']);
    assert(right@ =~= seq![' ', '│']);
    assert(seg_views(row@) =~~= content_row(text@, tone, w as nat));
    row
}

/// The rows of a boxed panel with `label` cut into its top border, sized to fit its
/// longest line. Every row (top border, content, bottom border) is exactly `w + 4`
/// characters wide, `w` being the panel's inner width.
pub fn draw_panel(label: &str, lines: &Vec<Segment>) -> (rows: Vec<Vec<Segment>>)
    requires
        label@.len() <= usize::MAX - 4,
        forall|i: int| 0 <= i < lines@.len() ==> #[trigger] lines@[i].text@.len() <= usize::MAX - 4,
    ensures
        row_views(rows@) == panel_rows(label@, seg_views(lines@)),
        forall|r: int|
            0 <= r < rows@.len() ==> #[trigger] row_width(seg_views(rows@[r]@)) == panel_width(
                label@,
                seg_views(lines@),
            ) + 4,
        forall|i: int|
            0 <= i < lines@.len() ==> #[trigger] lines@[i].text@.len() <= panel_width(label@, seg_views(lines@)),
{
    let ghost ls = seg_views(lines@);
    let empty_text = "no certificates yet";
    let n = lines.len();
    let mut content_max: usize = 0;
    let mut i: usize = 0;
    while i < n
        invariant
            n == lines@.len(),
            ls == seg_views(lines@),
            i <= n,
            content_max == max_len(ls.take(i as int)),
            content_max <= usize::MAX - 4,
            forall|k: int| 0 <= k < lines@.len() ==> #[trigger] lines@[k].text@.len() <= usize::MAX - 4,
        decreases n - i,
    {
        let l = lines[i].text.as_str().unicode_len();
        assert(ls.take(i + 1).drop_last() =~= ls.take(i as int));
        if l > content_max {
            content_max = l;
        }
        i = i + 1;
    }
    assert(ls.take(n as int) =~= ls);
    let empty_len = empty_text.unicode_len();
    proof {
        reveal_strlit("no certificates yet");
    }
    if empty_len > content_max {
        content_max = empty_len;
    }
    let label_len = label.unicode_len();
    let w = if content_max > label_len + 2 {
        content_max
    } else {
        label_len + 2
    };
    assert(w == panel_width(label@, ls));
    let mut rows: Vec<Vec<Segment>> = Vec::new();
    // top border
    let mut prefix = String::new();
    push_char(&mut prefix, '┌');
    push_char(&mut prefix, '─');
    push_char(&mut prefix, ' ');
    prefix.append(label);
    push_char(&mut prefix, ' ');
    let fill_len = if w > label_len + 1 {
        w - (label_len + 1)
    } else {
        0
    };
    let fill_len = if fill_len > 1 {
        fill_len
    } else {
        1
    };
    let mut fill = String::new();
    push_repeated(&mut fill, '─', fill_len);
    push_char(&mut fill, '┐');
    let mut top: Vec<Segment> = Vec::new();
    top.push(dim(prefix));
    top.push(dim(fill));
    assert(prefix@ =~= seq!['┌', '─', ' '] + label@ + seq![' ']);
    assert(fill@ =~= repeated('─', (w - label@.len() - 1) as nat).push('┐'));
    assert(seg_views(top@) =~~= top_row(label@, w as nat));
    rows.push(top);
    // content
    if n == 0 {
        rows.push(content(String::from_str(empty_text), Tone::Dim, w));
    }
    let mut j: usize = 0;
    while j < n
        invariant
            n == lines@.len(),
            ls == seg_views(lines@),
            j <= n,
            w == panel_width(label@, ls),
            w <= usize::MAX - 2,
            rows@.len() == (if n == 0 { 2 } else { 1 + j }),
            seg_views(rows@[0]@) == top_row(label@, w as nat),
            n == 0 ==> seg_views(rows@[1]@) == content_row(empty_panel_text(), Tone::Dim, w as nat),
            n > 0 ==> forall|k: int|
                0 <= k < j ==> #[trigger] seg_views(rows@[k + 1]@) == content_row(
                    ls[k].text,
                    ls[k].tone,
                    w as nat,
                ),
        decreases n - j,
    {
        proof {
            lemma_max_len_bound(ls, j as int);
        }
        let line = lines[j].copy();
        let tone = line.tone;
        rows.push(content(line.text, tone, w));
        j = j + 1;
    }
    // bottom border
    let mut bottom = String::new();
    push_char(&mut bottom, '└');
    push_repeated(&mut bottom, '─', w + 2);
    push_char(&mut bottom, '┘');
    let mut last: Vec<Segment> = Vec::new();
    last.push(dim(bottom));
    assert(bottom@ =~= seq!['└'] + repeated('─', (w + 2) as nat) + seq!['┘']);
    assert(seg_views(last@) =~~= bottom_row(w as nat));
    rows.push(last);
    proof {
        let pr = panel_rows(label@, ls);
        let rv = row_views(rows@);
        assert(rv.len() == pr.len());
        assert forall|r: int| 0 <= r < rv.len() implies #[trigger] rv[r] == pr[r] by {
            if r == 0 {
            } else if r == rv.len() - 1 {
            } else if n > 0 {
                assert(seg_views(rows@[(r - 1) + 1]@) == content_row(ls[r - 1].text, ls[r - 1].tone, w as nat));
            }
        }
        assert(rv =~= pr);
        law_panel_rows_same_width(label@, ls);
        assert forall|r: int| 0 <= r < rows@.len() implies #[trigger] row_width(seg_views(rows@[r]@))
            == panel_width(label@, ls) + 4 by {
            assert(rv[r] == seg_views(rows@[r]@));
        }
        assert forall|i: int| 0 <= i < lines@.len() implies #[trigger] lines@[i].text@.len() <= panel_width(
            label@,
            ls,
        ) by {
            assert(ls[i].text == lines@[i].text@);
        }
    }
    rows
}

/// The prompt line: `$ ` and the command.
pub open spec fn prompt_segments(cmd: Seq<char>) -> Seq<SegmentView> {
    seq![seg(seq!['$', ' '], Tone::Prompt), seg(cmd, Tone::Text)]
}

/// The segments of the prompt line, `$ certificate-manager`.
pub fn print_prompt(cmd: &str) -> (row: Vec<Segment>)
    ensures
        seg_views(row@) == prompt_segments(cmd@),
{
    let mut dollar = String::new();
    push_char(&mut dollar, '$');
    push_char(&mut dollar, ' ');
    let mut row: Vec<Segment> = Vec::new();
    row.push(Segment::new(dollar, Tone::Prompt));
    row.push(Segment::new(String::from_str(cmd), Tone::Text));
    assert(dollar@ =~= seq!['$', ' ']);
    assert(seg_views(row@) =~~= prompt_segments(cmd@));
    row
}

/// The segments of the hint line, printed after a blank line.
pub fn print_hint(text: &str) -> (row: Vec<Segment>)
    ensures
        seg_views(row@) == seq![seg(text@, Tone::Dim)],
{
    let mut row: Vec<Segment> = Vec::new();
    row.push(dim(String::from_str(text)));
    assert(seg_views(row@) =~= seq![seg(text@, Tone::Dim)]);
    row
}

/// The toast line: `[TAG]` in the danger or the active colour, then a space and the rest.
pub open spec fn toast_segments(tag: Seq<char>, rest: Seq<char>, is_danger: bool) -> Seq<SegmentView> {
    seq![
        seg(seq!['['] + tag + seq![']'], if is_danger { Tone::Danger } else { Tone::Active }),
        seg(seq![' '] + rest, Tone::Text),
    ]
}

/// The segments of the toast line, printed after a blank line.
pub fn print_toast(tag: &str, rest: &str, is_danger: bool) -> (row: Vec<Segment>)
    ensures
        seg_views(row@) == toast_segments(tag@, rest@, is_danger),
{
    let mut head = String::new();
    push_char(&mut head, '[');
    head.append(tag);
    push_char(&mut head, ']');
    let mut tail = String::new();
    push_char(&mut tail, ' ');
    tail.append(rest);
    let tone = if is_danger {
        Tone::Danger
    } else {
        Tone::Active
    };
    let mut row: Vec<Segment> = Vec::new();
    row.push(Segment::new(head, tone));
    row.push(Segment::new(tail, Tone::Text));
    assert(head@ =~= seq!['['] + tag@ + seq![']']);
    assert(tail@ =~= seq![' '] + rest@);
    assert(seg_views(row@) =~~= toast_segments(tag@, rest@, is_danger));
    row
}

/// Every row of a panel is exactly its inner width plus four characters wide, and the
/// inner width fits every line.
pub proof fn law_panel_rows_same_width(label: Seq<char>, lines: Seq<SegmentView>)
    ensures
        forall|r: int|
            0 <= r < panel_rows(label, lines).len() ==> #[trigger] row_width(panel_rows(label, lines)[r])
                == panel_width(label, lines) + 4,
        forall|i: int| 0 <= i < lines.len() ==> #[trigger] lines[i].text.len() <= panel_width(label, lines),
        panel_rows(label, lines).len() == (if lines.len() == 0 { 3 } else { lines.len() + 2 }),
{
    let w = panel_width(label, lines);
    let rows = panel_rows(label, lines);
    assert forall|i: int| 0 <= i < lines.len() implies #[trigger] lines[i].text.len() <= w by {
        lemma_max_len_bound(lines, i);
    }
    assert forall|r: int| 0 <= r < rows.len() implies #[trigger] row_width(rows[r]) == w + 4 by {
        reveal_with_fuel(row_width, 5);
        if r == 0 {
            let t = top_row(label, w);
            assert(t.drop_last().drop_last() =~= Seq::<SegmentView>::empty());
            assert(row_width(t) == w + 4);
        } else if r == rows.len() - 1 {
            let b = bottom_row(w);
            assert(b.drop_last() =~= Seq::<SegmentView>::empty());
        } else {
            let text = if lines.len() == 0 { empty_panel_text() } else { lines[r - 1].text };
            let tone = if lines.len() == 0 { Tone::Dim } else { lines[r - 1].tone };
            assert(rows[r] == content_row(text, tone, w));
            let c = content_row(text, tone, w);
            assert(c.drop_last().drop_last().drop_last().drop_last() =~= Seq::<SegmentView>::empty());
        }
    }
}

/// A certificate row reads `[STATUS]-[ID]-[NAME]`: the status word (`ACTIVE` or
/// `INACTIVE`), the returned digits, which read back as the certificate's id, and the name.
pub proof fn law_cert_line_fields(c: CertView) -> (id_digits: Seq<char>)
    ensures
        cert_line_text(c) == "["@ + (if c.active {
            "ACTIVE"@
        } else {
            "INACTIVE"@
        }) + "]-["@ + id_digits + "]-["@ + c.name + "]"@,
        id_digits.len() > 0,
        forall|i: int| 0 <= i < id_digits.len() ==> is_digit(#[trigger] id_digits[i]),
        digits_value(id_digits) == c.id,
{
    law_decimal_reads_back(c.id as nat);
    decimal(c.id as nat)
}

/// Rows of certificates with different ids differ, whatever their status and names.
pub proof fn law_cert_line_tells_ids_apart(a: CertView, b: CertView)
    requires
        a.id != b.id,
    ensures
        cert_line_text(a) != cert_line_text(b),
{
    let da = law_cert_line_fields(a);
    let db = law_cert_line_fields(b);
    reveal_strlit("[");
    reveal_strlit("]-[");
    reveal_strlit("]");
    reveal_strlit("ACTIVE");
    reveal_strlit("INACTIVE");
    let ta = cert_line_text(a);
    let tb = cert_line_text(b);
    if ta == tb {
        let sa = status_text(a.active);
        let sb = status_text(b.active);
        assert(ta[1] == sa[0]);
        assert(tb[1] == sb[0]);
        assert(a.active == b.active);
        let l: int = (1 + sa.len() + 3) as int;
        let pre = "["@ + sa + "]-["@;
        assert(pre.len() == l);
        assert(ta == pre + da + ("]-["@ + a.name + "]"@));
        assert(tb == pre + db + ("]-["@ + b.name + "]"@));
        if da.len() < db.len() {
            assert(ta[l + da.len()] == ']');
            assert(tb[l + da.len()] == db[da.len() as int]);
            assert(is_digit(db[da.len() as int]));
        } else if db.len() < da.len() {
            assert(tb[l + db.len()] == ']');
            assert(ta[l + db.len()] == da[db.len() as int]);
            assert(is_digit(da[db.len() as int]));
        } else {
            assert forall|i: int| 0 <= i < da.len() implies da[i] == db[i] by {
                assert(ta[l + i] == da[i]);
                assert(tb[l + i] == db[i]);
            }
            assert(da =~= db);
        }
    }
}

/// A panel shows its label in its top border and its lines in order, one per row between
/// the borders, each in its own colour and padded with spaces; an empty panel shows the
/// empty-panel text instead.
pub proof fn law_panel_content(label: Seq<char>, lines: Seq<SegmentView>)
    ensures
        ({
            let rows = panel_rows(label, lines);
            let w = panel_width(label, lines);
            &&& rows[0][0].text == seq!['┌', '─', ' '] + label + seq![' ']
            &&& rows[rows.len() - 1].len() == 1
            &&& forall|i: int|
                0 <= i < lines.len() ==> #[trigger] rows[i + 1][1] == lines[i] && rows[i + 1][0].text
                    == seq!['│', ' '] && rows[i + 1][3].text == seq![' ', '│'] && rows[i + 1][2].text
                    == Seq::new((w - lines[i].text.len()) as nat, |_k: int| ' ')
            &&& lines.len() == 0 ==> rows.len() == 3 && rows[1][1] == seg(empty_panel_text(), Tone::Dim)
        }),
{
}

/// The prompt shows `$ ` and the command; the toast shows the tag in brackets, in the
/// danger colour for a danger and the active colour otherwise, then the rest after a space.
pub proof fn law_prompt_and_toast(cmd: Seq<char>, tag: Seq<char>, rest: Seq<char>, is_danger: bool)
    ensures
        prompt_segments(cmd).len() == 2,
        prompt_segments(cmd)[0].text == seq!['$', ' '],
        prompt_segments(cmd)[1] == seg(cmd, Tone::Text),
        toast_segments(tag, rest, is_danger).len() == 2,
        toast_segments(tag, rest, is_danger)[0].text == seq!['['] + tag + seq![']'],
        toast_segments(tag, rest, is_danger)[0].tone == (if is_danger { Tone::Danger } else { Tone::Active }),
        toast_segments(tag, rest, is_danger)[1] == seg(seq![' '] + rest, Tone::Text),
{
}

} // verus!
