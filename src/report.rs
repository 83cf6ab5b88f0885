//! The text shown for a scan: each report, then a summary of the total.
use vstd::prelude::*;

use crate::scan::{string_of_chars, texts};
use crate::tree::{reports_view, FileReport, ReportView};

verus! {

/// Each line followed by a line break.
pub open spec fn lines_text(ls: Seq<Seq<char>>) -> Seq<char>
    decreases ls.len(),
{
    if ls.len() == 0 {
        Seq::empty()
    } else {
        lines_text(ls.drop_last()) + ls.last() + seq!['\n']
    }
}

/// The text of a sequence of reports: for each, the file name on a line of
/// its own, then each of its tasks on a line of its own.
pub open spec fn report_text(rs: Seq<ReportView>) -> Seq<char>
    decreases rs.len(),
{
    if rs.len() == 0 {
        Seq::empty()
    } else {
        report_text(rs.drop_last()) + rs.last().0 + seq!['\n'] + lines_text(rs.last().1)
    }
}

/// The decimal digit for `d`.
pub open spec fn digit_char(d: nat) -> char {
    seq!['0', '1', '2', '3', '4', '5', '6', '7', '8', '9'][d as int]
}

/// `n` written in decimal, without leading zeros.
pub open spec fn decimal(n: nat) -> Seq<char>
    decreases n,
{
    if n < 10 {
        seq![digit_char(n)]
    } else {
        decimal(n / 10).push(digit_char(n % 10))
    }
}

/// The line that sums up a scan.
pub open spec fn summary_text(total: nat) -> Seq<char> {
    if total == 0 {
        "You have no to-do's"@
    } else if total == 1 {
        "You have "@ + decimal(total) + " to-do"@
    } else {
        "You have "@ + decimal(total) + " to-dos"@
    }
}

fn digit(d: u64) -> (c: char)
    requires
        d < 10,
    ensures
        c == digit_char(d as nat),
{
    if d == 0 {
        '0'
    } else if d == 1 {
        '1'
    } else if d == 2 {
        '2'
    } else if d == 3 {
        '3'
    } else if d == 4 {
        '4'
    } else if d == 5 {
        '5'
    } else if d == 6 {
        '6'
    } else if d == 7 {
        '7'
    } else if d == 8 {
        '8'
    } else {
        '9'
    }
}

pub(crate) fn decimal_chars(n: u64) -> (r: Vec<char>)
    ensures
        r@ == decimal(n as nat),
    decreases n,
{
    if n < 10 {
        let mut v: Vec<char> = Vec::new();
        v.push(digit(n));
        assert(v@ =~= seq![digit_char(n as nat)]);
        v
    } else {
        let mut v = decimal_chars(n / 10);
        v.push(digit(n % 10));
        v
    }
}

/// `n` written in decimal.
pub fn decimal_string(n: u64) -> (r: String)
    ensures
        r@ == decimal(n as nat),
{
    let v = decimal_chars(n);
    string_of_chars(&v)
}

/// The line that sums up a scan with `total` open tasks.
pub fn summary_line(total: u64) -> (r: String)
    ensures
        r@ == summary_text(total as nat),
{
    if total == 0 {
        return String::from_str("You have no to-do's");
    }
    let mut s = String::from_str("You have ");
    let d = decimal_string(total);
    s.append(d.as_str());
    if total == 1 {
        s.append(" to-do");
    } else {
        s.append(" to-dos");
    }
    s
}

/// The text shown for the reports of a scan, in order.
pub fn render_reports(reports: &Vec<FileReport>) -> (r: String)
    ensures
        r@ == report_text(reports_view(reports@)),
{
    let mut out = String::new();
    let mut i: usize = 0;
    while i < reports.len()
        invariant
            i <= reports.len(),
            out@ == report_text(reports_view(reports@.take(i as int))),
        decreases reports.len() - i,
    {
        proof {
            reveal_strlit("\n");
        }
        let rep = &reports[i];
        let ghost before = out@;
        out.append(rep.name.as_str());
        out.append("\n");
        let mut j: usize = 0;
        assert(texts(rep.tasks@.take(0)) =~= Seq::<Seq<char>>::empty());
        assert(lines_text(texts(rep.tasks@.take(0))) =~= Seq::<char>::empty());
        assert(out@ =~= before + rep.name@ + seq!['\n']);
        assert(out@ =~= before + rep.name@ + seq!['\n'] + lines_text(
            texts(rep.tasks@.take(0)),
        ));
        while j < rep.tasks.len()
            invariant
                i < reports.len(),
                *rep == reports@[i as int],
                j <= rep.tasks.len(),
                out@ == before + rep.name@ + seq!['\n'] + lines_text(
                    texts(rep.tasks@.take(j as int)),
                ),
            decreases rep.tasks.len() - j,
        {
            proof {
                reveal_strlit("\n");
            }
            let ghost mid = out@;
            out.append(rep.tasks[j].as_str());
            out.append("\n");
            assert(out@ =~= mid + rep.tasks@[j as int]@ + seq!['\n']);
            proof {
                assert(texts(rep.tasks@.take(j + 1)).drop_last() =~= texts(
                    rep.tasks@.take(j as int),
                ));
                assert(texts(rep.tasks@.take(j + 1)).last() == rep.tasks@[j as int]@);
                assert(out@ =~= before + rep.name@ + seq!['\n'] + lines_text(
                    texts(rep.tasks@.take(j + 1)),
                ));
            }
            j = j + 1;
        }
        proof {
            assert(rep.tasks@.take(j as int) =~= rep.tasks@);
            assert(reports_view(reports@.take(i + 1)).drop_last() =~= reports_view(
                reports@.take(i as int),
            ));
            assert(reports_view(reports@.take(i + 1)).last() == rep@);
            assert(out@ =~= report_text(reports_view(reports@.take(i + 1))));
        }
        i = i + 1;
    }
    assert(reports@.take(i as int) =~= reports@);
    out
}

} // verus!
