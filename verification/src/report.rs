//! The reporter: decimal rendering, terminal-width padding and truncation,
//! descending sort, and assembly of the two tables (per file, per language)
//! or of the single quiet-mode total line.

use crate::aggregate::{Aggregator, FileRecord, LangTotal};
use vstd::prelude::*;

verus! {

/// `s` repeated `n` times.
pub open spec fn rep(s: Seq<char>, n: nat) -> Seq<char>
    decreases n,
{
    if n == 0 {
        Seq::empty()
    } else {
        rep(s, (n - 1) as nat) + s
    }
}

/// The character of one decimal digit.
pub open spec fn digit_char(d: nat) -> char {
    if d == 0 {
        '0'
    } else if d == 1 {
        '1'
    } else if d == 2 {
        '2'
    } else if d == 3 {
        '3'
    } else if d == 4 {
        '4'
    } else if d == 5 {
        '5'
    } else if d == 6 {
        '6'
    } else if d == 7 {
        '7'
    } else if d == 8 {
        '8'
    } else {
        '9'
    }
}

/// The decimal digit characters of `n`, most significant first.
pub open spec fn dec_digits(n: nat) -> Seq<char>
    decreases n,
{
    if n < 10 {
        seq![digit_char(n)]
    } else {
        dec_digits(n / 10) + seq![digit_char(n % 10)]
    }
}

pub open spec fn is_digit_char(c: char) -> bool {
    c == '0' || c == '1' || c == '2' || c == '3' || c == '4' || c == '5' || c == '6' || c == '7'
        || c == '8' || c == '9'
}

/// The decimal rendering of a number is at least one character and holds
/// decimal digits only — in particular no newline and no blank: printed
/// alone, it is exactly one line holding a single non-negative integer.
pub proof fn lemma_digits_shape(n: nat)
    ensures
        dec_digits(n).len() >= 1,
        forall|i: int| 0 <= i < dec_digits(n).len() ==> is_digit_char(#[trigger] dec_digits(n)[i]),
    decreases n,
{
    if n >= 10 {
        lemma_digits_shape(n / 10);
    }
}

/// A one-character string for digit `d`.
fn digit_str(d: usize) -> (r: &'static str)
    requires
        d < 10,
    ensures
        r@ == seq![digit_char(d as nat)],
{
    proof {
        reveal_strlit("0");
        reveal_strlit("1");
        reveal_strlit("2");
        reveal_strlit("3");
        reveal_strlit("4");
        reveal_strlit("5");
        reveal_strlit("6");
        reveal_strlit("7");
        reveal_strlit("8");
        reveal_strlit("9");
    }
    let r = match d {
        0 => "0",
        1 => "1",
        2 => "2",
        3 => "3",
        4 => "4",
        5 => "5",
        6 => "6",
        7 => "7",
        8 => "8",
        _ => "9",
    };
    proof {
        assert(r@ =~= seq![digit_char(d as nat)]);
    }
    r
}

/// Renders `n` in decimal.
pub fn digits(n: usize) -> (r: String)
    ensures
        r@ == dec_digits(n as nat),
    decreases n,
{
    if n < 10 {
        digit_str(n).to_owned()
    } else {
        let mut s = digits(n / 10);
        s.append(digit_str(n % 10));
        s
    }
}

/// Appends `part` to `s`, `count` times.
fn append_rep(s: &mut String, part: &str, count: usize)
    ensures
        final(s)@ == old(s)@ + rep(part@, count as nat),
{
    proof {
        assert(old(s)@ + rep(part@, 0) =~= old(s)@);
    }
    let mut k: usize = 0;
    while k < count
        invariant
            k <= count,
            s@ == old(s)@ + rep(part@, k as nat),
        decreases count - k,
    {
        s.append(part);
        proof {
            assert(old(s)@ + rep(part@, (k + 1) as nat) =~= (old(s)@ + rep(part@, k as nat))
                + part@);
        }
        k = k + 1;
    }
}

/// Length of a separator rule: one character short of the terminal width.
pub open spec fn rule_len(width: usize) -> nat {
    if width >= 1 {
        (width - 1) as nat
    } else {
        0
    }
}

/// A separator rule of `part` repeated to `rule_len(width)`.
pub fn rule_line(part: &str, width: usize) -> (r: String)
    ensures
        r@ == rep(part@, rule_len(width)),
{
    let n: usize = if width >= 1 {
        width - 1
    } else {
        0
    };
    let mut s = String::new();
    append_rep(&mut s, part, n);
    proof {
        assert(s@ =~= rep(part@, rule_len(width)));
    }
    s
}

/// `t` left-aligned in a field of `len` blanks; a longer `t` stays as it is.
pub open spec fn pad_spec(t: Seq<char>, len: nat) -> Seq<char> {
    if t.len() >= len {
        t
    } else {
        t + rep(" "@, (len - t.len()) as nat)
    }
}

/// Pads `label` with blanks up to `len` characters.
pub fn pad_label(label: &String, len: usize) -> (r: String)
    ensures
        r@ == pad_spec(label@, len as nat),
{
    let mut s = label.clone();
    let cur = s.as_str().unicode_len();
    if cur < len {
        append_rep(&mut s, " ", len - cur);
    }
    s
}

/// The last `len` characters of `t` (all of a shorter `t`): a path that
/// does not fit keeps its tail, typically the file name.
pub open spec fn tail_spec(t: Seq<char>, len: nat) -> Seq<char> {
    if t.len() <= len {
        t
    } else {
        t.subrange(t.len() - len, t.len() as int)
    }
}

/// Truncates `label` from the left to at most `len` characters.
pub fn tail_chars(label: &String, len: usize) -> (r: String)
    ensures
        r@ == tail_spec(label@, len as nat),
{
    let n = label.as_str().unicode_len();
    if n <= len {
        label.clone()
    } else {
        label.as_str().substring_char(n - len, n).to_owned()
    }
}

/// The label field width that leaves room for the count and one blank
/// within `width` columns.
pub open spec fn avail_spec(count: usize, width: usize) -> nat {
    let d = dec_digits(count as nat).len();
    if width >= 2 && width - 2 >= d {
        (width - 2 - d) as nat
    } else {
        0
    }
}

/// The label field width of a row showing `count`.
pub fn avail_width(count: usize, width: usize) -> (r: usize)
    ensures
        r == avail_spec(count, width),
{
    let num = digits(count);
    let nl = num.as_str().unicode_len();
    if width >= 2 && width - 2 >= nl {
        width - 2 - nl
    } else {
        0
    }
}

/// One table row: the label left-aligned in its field, one blank, then the
/// count — so the count ends flush at the terminal width when the label
/// fits.
pub open spec fn row_spec(label: Seq<char>, count: usize, width: usize) -> Seq<char> {
    pad_spec(label, avail_spec(count, width)) + seq![' '] + dec_digits(count as nat)
}

/// Formats one row of a table.
pub fn format_row(label: &String, count: usize, width: usize) -> (r: String)
    ensures
        r@ == row_spec(label@, count, width),
{
    let num = digits(count);
    let nl = num.as_str().unicode_len();
    let avail: usize = if width >= 2 && width - 2 >= nl {
        width - 2 - nl
    } else {
        0
    };
    let mut s = pad_label(label, avail);
    s.append(" ");
    s.append(num.as_str());
    proof {
        reveal_strlit(" ");
        assert(" "@ =~= seq![' ']);
        assert(s@ =~= row_spec(label@, count, width));
    }
    s
}

/// One line of either table before formatting: a label and a line count.
pub struct Row {
    pub label: String,
    pub lines: usize,
}

/// Rows in non-increasing order of line count.
pub open spec fn rows_sorted_desc(s: Seq<Row>) -> bool {
    forall|p: int, q: int|
        #![trigger s[p].lines, s[q].lines]
        0 <= p <= q < s.len() ==> s[p].lines >= s[q].lines
}

/// Sorts rows by line count, largest first, keeping exactly the same rows.
pub fn sort_rows_desc(v: &mut Vec<Row>)
    ensures
        rows_sorted_desc(final(v)@),
        final(v)@.to_multiset() == old(v)@.to_multiset(),
{
    let n = v.len();
    if n <= 1 {
        return ;
    }
    let mut i: usize = 1;
    while i < n
        invariant
            1 <= i <= n,
            n == v@.len(),
            rows_sorted_desc(v@.subrange(0, i as int)),
            v@.to_multiset() == old(v)@.to_multiset(),
        decreases n - i,
    {
        let key = v[i].lines;
        let ghost w = v@;
        let mut j: usize = 0;
        while j < i && v[j].lines >= key
            invariant
                j <= i,
                i < n,
                n == v@.len(),
                v@ == w,
                key == w[i as int].lines,
                forall|p: int| 0 <= p < j ==> #[trigger] w[p].lines >= key,
            decreases i - j,
        {
            j = j + 1;
        }
        let x = v.remove(i);
        v.insert(j, x);
        proof {
            assert(v@ =~= w.subrange(0, j as int) + seq![w[i as int]] + w.subrange(
                j as int,
                i as int,
            ) + w.subrange(i + 1, n as int));
            assert forall|p: int, q: int|
                #![trigger w[p].lines, w[q].lines]
                0 <= p <= q < i implies w[p].lines >= w[q].lines by {
                assert(w.subrange(0, i as int)[p] == w[p]);
                assert(w.subrange(0, i as int)[q] == w[q]);
            }
            assert forall|p: int, q: int|
                #![trigger v@[p].lines, v@[q].lines]
                0 <= p <= q < i + 1 implies v@[p].lines >= v@[q].lines by {
                if p < j {
                    assert(v@[p] == w[p]);
                } else if p == j {
                    assert(v@[p] == w[i as int]);
                } else {
                    assert(v@[p] == w[p - 1]);
                }
                if q < j {
                    assert(v@[q] == w[q]);
                } else if q == j {
                    assert(v@[q] == w[i as int]);
                } else {
                    assert(v@[q] == w[q - 1]);
                }
                if j < i {
                    assert(w[j as int].lines < key);
                }
            }
            assert(rows_sorted_desc(v@.subrange(0, i + 1)));
            assert(v@ == w.remove(i as int).insert(j as int, w[i as int]));
            vstd::seq_lib::to_multiset_remove(w, i as int);
            vstd::seq_lib::to_multiset_insert(w.remove(i as int), j as int, w[i as int]);
            vstd::seq_lib::to_multiset_contains(w, w[i as int]);
            assert(w.contains(w[i as int]));
            assert(w.to_multiset().count(w[i as int]) > 0);
            assert(w.to_multiset().remove(w[i as int]).insert(w[i as int]) =~= w.to_multiset());
        }
        i = i + 1;
    }
    proof {
        assert(v@.subrange(0, n as int) =~= v@);
    }
}

/// The rows of the per-file table, one per record, in record order.
pub open spec fn rows_of_records(rs: Seq<FileRecord>) -> Seq<Row> {
    rs.map_values(|r: FileRecord| Row { label: r.path, lines: r.lines })
}

/// The rows of the per-language table, one per total, in entry order.
pub open spec fn rows_of_totals(ts: Seq<LangTotal>) -> Seq<Row> {
    ts.map_values(|t: LangTotal| Row { label: t.name, lines: t.lines })
}

fn rows_from_records(rs: &Vec<FileRecord>) -> (out: Vec<Row>)
    ensures
        out@ == rows_of_records(rs@),
{
    let n = rs.len();
    let mut out: Vec<Row> = Vec::new();
    proof {
        assert(out@ =~= rows_of_records(rs@).subrange(0, 0));
    }
    let mut i: usize = 0;
    while i < n
        invariant
            i <= n,
            n == rs@.len(),
            out@ == rows_of_records(rs@).subrange(0, i as int),
        decreases n - i,
    {
        out.push(Row { label: rs[i].path.clone(), lines: rs[i].lines });
        proof {
            assert(out@ =~= rows_of_records(rs@).subrange(0, i + 1));
        }
        i = i + 1;
    }
    proof {
        assert(rows_of_records(rs@).subrange(0, n as int) =~= rows_of_records(rs@));
    }
    out
}

fn rows_from_totals(ts: &Vec<LangTotal>) -> (out: Vec<Row>)
    ensures
        out@ == rows_of_totals(ts@),
{
    let n = ts.len();
    let mut out: Vec<Row> = Vec::new();
    proof {
        assert(out@ =~= rows_of_totals(ts@).subrange(0, 0));
    }
    let mut i: usize = 0;
    while i < n
        invariant
            i <= n,
            n == ts@.len(),
            out@ == rows_of_totals(ts@).subrange(0, i as int),
        decreases n - i,
    {
        out.push(Row { label: ts[i].name.clone(), lines: ts[i].lines });
        proof {
            assert(out@ =~= rows_of_totals(ts@).subrange(0, i + 1));
        }
        i = i + 1;
    }
    proof {
        assert(rows_of_totals(ts@).subrange(0, n as int) =~= rows_of_totals(ts@));
    }
    out
}

/// One line of the per-file table: the path truncated from the left to the
/// field, then the count.
pub open spec fn file_row(r: Row, width: usize) -> Seq<char> {
    row_spec(tail_spec(r.label@, avail_spec(r.lines, width)), r.lines, width)
}

/// The per-file table lines for `rows` in order: one line per row with a
/// positive count, zero-line rows elided from display.
pub open spec fn file_lines_spec(rows: Seq<Row>, width: usize) -> Seq<Seq<char>>
    decreases rows.len(),
{
    if rows.len() == 0 {
        Seq::empty()
    } else {
        file_lines_spec(rows.drop_last(), width) + if rows.last().lines > 0 {
            seq![file_row(rows.last(), width)]
        } else {
            Seq::<Seq<char>>::empty()
        }
    }
}

/// The per-language table lines for `rows` in order: every language that
/// saw a file is shown, zero totals included.
pub open spec fn lang_lines_spec(rows: Seq<Row>, width: usize) -> Seq<Seq<char>> {
    rows.map_values(|r: Row| row_spec(r.label@, r.lines, width))
}

/// The per-file section header.
pub open spec fn files_header(n: usize) -> Seq<char> {
    "Files ("@ + dec_digits(n as nat) + ")"@
}

/// The whole verbose report, given the two tables already sorted: banner,
/// file section, language section, and the grand-total line.
pub open spec fn report_spec(
    frows: Seq<Row>,
    lrows: Seq<Row>,
    nfiles: usize,
    grand: usize,
    width: usize,
) -> Seq<Seq<char>> {
    seq![
        "code-lines v0.1.0"@,
        Seq::<char>::empty(),
        files_header(nfiles),
        rep("="@, rule_len(width)),
    ] + file_lines_spec(frows, width) + seq![
        Seq::<char>::empty(),
        "Languages"@,
        rep("="@, rule_len(width)),
    ] + lang_lines_spec(lrows, width) + seq![
        rep("-"@, rule_len(width)),
        Seq::<char>::empty(),
        row_spec("Total:"@, grand, width),
    ]
}

fn push_line(out: &mut Vec<String>, s: String)
    ensures
        final(out).deep_view() == old(out).deep_view().push(s@),
{
    out.push(s);
    proof {
        assert(out.deep_view() =~= old(out).deep_view().push(s@));
    }
}

/// Renders the verbose report of an aggregator's state: both tables sorted
/// by line count, largest first (rows of equal count in an order this
/// contract leaves open), every line shaped to the given terminal width.
pub fn render_report(agg: &Aggregator, width: usize) -> (out: Vec<String>)
    ensures
        exists|fr: Seq<Row>, lr: Seq<Row>|
            {
                &&& fr.to_multiset() == rows_of_records(agg.records@).to_multiset()
                &&& rows_sorted_desc(fr)
                &&& lr.to_multiset() == rows_of_totals(agg.totals@).to_multiset()
                &&& rows_sorted_desc(lr)
                &&& out.deep_view() == report_spec(
                    fr,
                    lr,
                    agg.records@.len() as usize,
                    agg.total,
                    width,
                )
            },
{
    let mut frows = rows_from_records(&agg.records);
    sort_rows_desc(&mut frows);
    let mut lrows = rows_from_totals(&agg.totals);
    sort_rows_desc(&mut lrows);
    let nfiles = agg.records.len();
    let mut out: Vec<String> = Vec::new();
    push_line(&mut out, "code-lines v0.1.0".to_owned());
    push_line(&mut out, String::new());
    let mut hdr = "Files (".to_owned();
    hdr.append(digits(nfiles).as_str());
    hdr.append(")");
    push_line(&mut out, hdr);
    push_line(&mut out, rule_line("=", width));
    let ghost head = seq![
        "code-lines v0.1.0"@,
        Seq::<char>::empty(),
        files_header(nfiles),
        rep("="@, rule_len(width)),
    ];
    proof {
        assert(out.deep_view() =~= head);
        assert(file_lines_spec(frows@.subrange(0, 0), width) =~= Seq::<Seq<char>>::empty());
        assert(out.deep_view() =~= head + file_lines_spec(frows@.subrange(0, 0), width));
    }
    let nf = frows.len();
    let mut i: usize = 0;
    while i < nf
        invariant
            i <= nf,
            nf == frows@.len(),
            out.deep_view() == head + file_lines_spec(frows@.subrange(0, i as int), width),
        decreases nf - i,
    {
        let lines = frows[i].lines;
        proof {
            assert(frows@.subrange(0, i + 1).drop_last() =~= frows@.subrange(0, i as int));
            assert(frows@.subrange(0, i + 1).last() == frows@[i as int]);
        }
        if lines > 0 {
            let a = avail_width(lines, width);
            let t = tail_chars(&frows[i].label, a);
            let line = format_row(&t, lines, width);
            assert(line@ == file_row(frows@[i as int], width));
            push_line(&mut out, line);
        }
        proof {
            assert(out.deep_view() =~= head + file_lines_spec(frows@.subrange(0, i + 1), width));
        }
        i = i + 1;
    }
    let ghost fileblock = file_lines_spec(frows@, width);
    proof {
        assert(frows@.subrange(0, nf as int) =~= frows@);
    }
    push_line(&mut out, String::new());
    push_line(&mut out, "Languages".to_owned());
    push_line(&mut out, rule_line("=", width));
    let ghost head2 = head + fileblock + seq![
        Seq::<char>::empty(),
        "Languages"@,
        rep("="@, rule_len(width)),
    ];
    proof {
        assert(out.deep_view() =~= head2);
        assert(lang_lines_spec(lrows@.subrange(0, 0), width) =~= Seq::<Seq<char>>::empty());
        assert(out.deep_view() =~= head2 + lang_lines_spec(lrows@.subrange(0, 0), width));
    }
    let ln = lrows.len();
    let mut k: usize = 0;
    while k < ln
        invariant
            k <= ln,
            ln == lrows@.len(),
            out.deep_view() == head2 + lang_lines_spec(lrows@.subrange(0, k as int), width),
        decreases ln - k,
    {
        let line = format_row(&lrows[k].label, lrows[k].lines, width);
        push_line(&mut out, line);
        proof {
            assert(lang_lines_spec(lrows@.subrange(0, k + 1), width) =~= lang_lines_spec(
                lrows@.subrange(0, k as int),
                width,
            ).push(row_spec(lrows@[k as int].label@, lrows@[k as int].lines, width)));
            assert(out.deep_view() =~= head2 + lang_lines_spec(lrows@.subrange(0, k + 1), width));
        }
        k = k + 1;
    }
    proof {
        assert(lrows@.subrange(0, ln as int) =~= lrows@);
    }
    push_line(&mut out, rule_line("-", width));
    push_line(&mut out, String::new());
    let total_label = "Total:".to_owned();
    let total_row = format_row(&total_label, agg.total, width);
    push_line(&mut out, total_row);
    proof {
        assert(out.deep_view() =~= report_spec(
            frows@,
            lrows@,
            agg.records@.len() as usize,
            agg.total,
            width,
        ));
    }
    out
}

} // verus!
