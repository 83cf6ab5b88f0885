//! Where the daily note and the project notes live, and what is written when
//! one is created.
use vstd::prelude::*;

use chrono::Datelike;

use crate::report::{decimal, decimal_chars};
use crate::scan::string_of_chars;

verus! {

/// A calendar date of the proleptic Gregorian calendar.
#[derive(Clone, Copy, Debug, PartialEq, Eq, Structural)]
pub struct Date {
    pub year: i32,
    pub month: u32,
    pub day: u32,
}

/// A leap year of the Gregorian calendar.
pub open spec fn is_leap_year(y: int) -> bool {
    (y % 4 == 0 && y % 100 != 0) || y % 400 == 0
}

/// The number of days of month `m` (1 to 12) of year `y`.
pub open spec fn days_in_month(y: int, m: int) -> int {
    if m == 2 {
        if is_leap_year(y) {
            29
        } else {
            28
        }
    } else if m == 4 || m == 6 || m == 9 || m == 11 {
        30
    } else {
        31
    }
}

impl Date {
    /// The month and the day name an existing day.
    pub open spec fn wf(&self) -> bool {
        1 <= self.month <= 12 && 1 <= self.day <= days_in_month(self.year as int, self.month as int)
    }
}

/// Which kind of note is asked for.
pub enum NoteRequest {
    /// Today's note, with the date and its weekday counted from Monday.
    Daily { date: Date, weekday: u32 },
    /// The note of a project, by the name given.
    Project { name: String },
}

/// Where a note lives, under the notes root, and what a new one starts with.
pub struct NoteTarget {
    pub dir: String,
    pub file_name: String,
    pub header: Option<String>,
}

/// What to do to open a note.
pub enum NoteAction {
    /// The file is there: open it as it is.
    Open,
    /// The file is missing: create it with these contents, then open it.
    Create { contents: String },
}

/// `n` in decimal, with zeros in front up to `w` digits.
pub open spec fn padded(n: nat, w: nat) -> Seq<char> {
    let d = decimal(n);
    if d.len() >= w {
        d
    } else {
        Seq::new((w - d.len()) as nat, |i: int| '0') + d
    }
}

/// The year as `%Y` writes it: four digits, with a sign outside 0 to 9999.
pub open spec fn year_text(y: int) -> Seq<char> {
    if 0 <= y <= 9999 {
        padded(y as nat, 4)
    } else if y < 0 {
        seq!['-'] + padded((-y) as nat, 4)
    } else {
        seq!['+'] + padded(y as nat, 4)
    }
}

/// The date as `YYYY-MM-DD`.
pub open spec fn date_text(d: Date) -> Seq<char> {
    year_text(d.year as int) + seq!['-'] + padded(d.month as nat, 2) + seq!['-'] + padded(
        d.day as nat,
        2,
    )
}

/// The English abbreviation of a weekday counted from Monday.
pub open spec fn weekday_abbrev(w: nat) -> Seq<char> {
    if w == 0 {
        "Mon"@
    } else if w == 1 {
        "Tue"@
    } else if w == 2 {
        "Wed"@
    } else if w == 3 {
        "Thu"@
    } else if w == 4 {
        "Fri"@
    } else if w == 5 {
        "Sat"@
    } else {
        "Sun"@
    }
}

/// The first line of a new daily note, followed by an empty line.
pub open spec fn daily_header_text(d: Date, weekday: nat) -> Seq<char> {
    "# "@ + weekday_abbrev(weekday) + " "@ + date_text(d) + "\n\n"@
}

/// The directory, file name and initial header of the note asked for.
pub open spec fn target_of(req: NoteRequest) -> (Seq<char>, Seq<char>, Option<Seq<char>>) {
    match req {
        NoteRequest::Daily { date, weekday } => (
            "daily"@,
            date_text(date) + ".md"@,
            Some(daily_header_text(date, weekday as nat)),
        ),
        NoteRequest::Project { name } => ("projects"@, name@ + ".md"@, None),
    }
}

impl View for NoteTarget {
    type V = (Seq<char>, Seq<char>, Option<Seq<char>>);

    open spec fn view(&self) -> (Seq<char>, Seq<char>, Option<Seq<char>>) {
        (
            self.dir@,
            self.file_name@,
            match self.header {
                Some(h) => Some(h@),
                None => None,
            },
        )
    }
}

/// Relies on chrono's `Local::now`: today's local date, which chrono keeps a
/// valid calendar date, and its weekday counted from Monday.
#[verifier::external_body]
fn local_today() -> (r: (Date, u32))
    ensures
        r.0.wf(),
        r.1 < 7,
{
    let now = chrono::Local::now();
    (
        Date { year: now.year(), month: now.month(), day: now.day() },
        now.weekday().num_days_from_monday(),
    )
}

/// The request for today's daily note.
pub fn today_request() -> (r: NoteRequest)
    ensures
        r matches NoteRequest::Daily { date, weekday } && date.wf() && weekday < 7,
{
    let (date, weekday) = local_today();
    NoteRequest::Daily { date, weekday }
}

fn padded_chars(n: u64, w: usize) -> (r: Vec<char>)
    ensures
        r@ == padded(n as nat, w as nat),
{
    let d = decimal_chars(n);
    if d.len() >= w {
        return d;
    }
    let mut r: Vec<char> = Vec::new();
    let k = w - d.len();
    while r.len() < k
        invariant
            r.len() <= k,
            forall|i: int| 0 <= i < r.len() ==> r@[i] == '0',
        decreases k - r.len(),
    {
        r.push('0');
    }
    let ghost zeros = r@;
    let mut d2 = d;
    r.append(&mut d2);
    assert(zeros =~= Seq::new(k as nat, |i: int| '0'));
    r
}

/// The date as `YYYY-MM-DD`, the year as `%Y` writes it.
pub fn date_string(d: &Date) -> (r: String)
    ensures
        r@ == date_text(*d),
{
    let y = d.year as i64;
    let mut cs: Vec<char> = Vec::new();
    if 0 <= y && y <= 9999 {
        cs = padded_chars(y as u64, 4);
    } else {
        if y < 0 {
            cs.push('-');
        } else {
            cs.push('+');
        }
        let a: u64 = if y < 0 {
            (-y) as u64
        } else {
            y as u64
        };
        let mut p = padded_chars(a, 4);
        cs.append(&mut p);
    }
    assert(cs@ == year_text(d.year as int));
    cs.push('-');
    let mut m = padded_chars(d.month as u64, 2);
    cs.append(&mut m);
    cs.push('-');
    let mut dd = padded_chars(d.day as u64, 2);
    cs.append(&mut dd);
    assert(cs@ =~= date_text(*d));
    string_of_chars(&cs)
}

fn weekday_str(w: u32) -> (r: &'static str)
    ensures
        r@ == weekday_abbrev(w as nat),
{
    if w == 0 {
        "Mon"
    } else if w == 1 {
        "Tue"
    } else if w == 2 {
        "Wed"
    } else if w == 3 {
        "Thu"
    } else if w == 4 {
        "Fri"
    } else if w == 5 {
        "Sat"
    } else {
        "Sun"
    }
}

/// The first line of a new daily note and the empty line after it.
pub fn daily_header(d: &Date, weekday: u32) -> (r: String)
    ensures
        r@ == daily_header_text(*d, weekday as nat),
{
    let mut s = String::from_str("# ");
    s.append(weekday_str(weekday));
    s.append(" ");
    let ds = date_string(d);
    s.append(ds.as_str());
    s.append("\n\n");
    s
}

/// Where the note asked for lives and what a new one starts with. The
/// project name is used as given.
pub fn resolve(req: &NoteRequest) -> (r: NoteTarget)
    ensures
        r@ == target_of(*req),
{
    match req {
        NoteRequest::Daily { date, weekday } => {
            let mut file_name = date_string(date);
            file_name.append(".md");
            let header = daily_header(date, *weekday);
            NoteTarget { dir: String::from_str("daily"), file_name, header: Some(header) }
        },
        NoteRequest::Project { name } => {
            let mut file_name = name.clone();
            file_name.append(".md");
            NoteTarget { dir: String::from_str("projects"), file_name, header: None }
        },
    }
}

/// What a note's contents are at creation: the header, or nothing.
pub open spec fn initial_contents(t: (Seq<char>, Seq<char>, Option<Seq<char>>)) -> Seq<char> {
    match t.2 {
        Some(h) => h,
        None => Seq::empty(),
    }
}

/// Opens a note that exists as it is; creates a missing one with its header.
pub fn plan(target: &NoteTarget, exists: bool) -> (r: NoteAction)
    ensures
        exists ==> r is Open,
        !exists ==> (r matches NoteAction::Create { contents } && contents@ == initial_contents(
            target@,
        )),
{
    if exists {
        NoteAction::Open
    } else {
        match &target.header {
            Some(h) => NoteAction::Create { contents: h.clone() },
            None => NoteAction::Create { contents: String::new() },
        }
    }
}

/// Asking twice for the daily note of one date gives the same place both
/// times. (That nothing is written to a note that exists is what `plan`
/// ensures.)
pub proof fn lemma_daily_idempotent(d: Date, w1: u32, w2: u32)
    ensures
        target_of(NoteRequest::Daily { date: d, weekday: w1 }).0 == target_of(
            NoteRequest::Daily { date: d, weekday: w2 },
        ).0,
        target_of(NoteRequest::Daily { date: d, weekday: w1 }).1 == target_of(
            NoteRequest::Daily { date: d, weekday: w2 },
        ).1,
{
}

} // verus!
