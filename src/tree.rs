//! The walk over a snapshot of a notes tree: which files are read, which
//! produce a report, and the total count of open tasks.
use vstd::prelude::*;

use crate::scan::{open_tasks, scan_text, texts};
use crate::task::chars_of;

verus! {

/// One entry of a directory listing, as it was found on disk.
pub enum Entry {
    /// A directory with its entries in listing order.
    Dir { entries: Vec<Entry> },
    /// A regular file: its name and, where it could be read as text, its
    /// contents.
    File { name: String, contents: Option<String> },
    /// Anything else, or a path that does not exist.
    Other,
}

/// The open tasks of one markdown file.
pub struct FileReport {
    pub name: String,
    pub tasks: Vec<String>,
}

/// What a report shows: the file name and the task texts.
pub type ReportView = (Seq<char>, Seq<Seq<char>>);

impl View for FileReport {
    type V = ReportView;

    open spec fn view(&self) -> ReportView {
        (self.name@, texts(self.tasks@))
    }
}

/// The reports of a scan, in the order they are shown, and the total count of
/// open tasks.
pub struct ScanResult {
    pub reports: Vec<FileReport>,
    pub total: u64,
}

/// What a sequence of reports shows.
pub open spec fn reports_view(v: Seq<FileReport>) -> Seq<ReportView> {
    v.map_values(|r: FileReport| r@)
}

/// A file takes part in a scan when its extension is exactly `md`: the name
/// ends in `.md` and has something before that dot.
pub open spec fn is_markdown_name(name: Seq<char>) -> bool {
    name.len() > 3 && name[name.len() - 3] == '.' && name[name.len() - 2] == 'm' && name[name.len()
        - 1] == 'd'
}

/// The number of open tasks that a file contributes.
pub open spec fn file_count(name: Seq<char>, contents: Option<Seq<char>>) -> nat {
    match contents {
        Some(c) if is_markdown_name(name) => open_tasks(c).len(),
        _ => 0,
    }
}

/// The report of a file, if it has one: only a markdown file that was read and
/// holds at least one open task has one.
pub open spec fn file_reports(name: Seq<char>, contents: Option<Seq<char>>) -> Seq<ReportView> {
    match contents {
        Some(c) if is_markdown_name(name) && open_tasks(c).len() > 0 => seq![(name, open_tasks(c))],
        _ => Seq::empty(),
    }
}

/// The text of an optional string.
pub open spec fn opt_view(o: Option<String>) -> Option<Seq<char>> {
    match o {
        Some(s) => Some(s@),
        None => None,
    }
}

/// The total count of open tasks in the tree under `e`; zero unless `e` is a
/// directory.
pub open spec fn entry_count(e: Entry) -> nat
    decreases e,
{
    match e {
        Entry::Dir { entries } => list_count(entries@),
        _ => 0,
    }
}

/// The total count of open tasks under the entries of one directory.
pub open spec fn list_count(es: Seq<Entry>) -> nat
    decreases es,
{
    if es.len() == 0 {
        0
    } else {
        list_count(es.drop_last()) + match es.last() {
            Entry::Dir { .. } => entry_count(es.last()),
            Entry::File { name, contents } => file_count(name@, opt_view(contents)),
            Entry::Other => 0,
        }
    }
}

/// The reports of the tree under `e`, in the order they are shown: for a
/// directory, those of its subdirectories in listing order, then those of its
/// own files in listing order.
pub open spec fn entry_reports(e: Entry) -> Seq<ReportView>
    decreases e,
{
    match e {
        Entry::Dir { entries } => subdir_reports(entries@) + own_reports(entries@),
        _ => Seq::empty(),
    }
}

/// The reports of the subdirectories among `es`, in order.
pub open spec fn subdir_reports(es: Seq<Entry>) -> Seq<ReportView>
    decreases es,
{
    if es.len() == 0 {
        Seq::empty()
    } else {
        subdir_reports(es.drop_last()) + match es.last() {
            Entry::Dir { .. } => entry_reports(es.last()),
            _ => Seq::empty(),
        }
    }
}

/// The reports of the files among `es`, in order.
pub open spec fn own_reports(es: Seq<Entry>) -> Seq<ReportView>
    decreases es.len(),
{
    if es.len() == 0 {
        Seq::empty()
    } else {
        own_reports(es.drop_last()) + match es.last() {
            Entry::File { name, contents } => file_reports(name@, opt_view(contents)),
            _ => Seq::empty(),
        }
    }
}

/// `n`, or the largest `u64` where `n` is larger.
pub open spec fn capped(n: int) -> int {
    if n > u64::MAX {
        u64::MAX as int
    } else {
        n
    }
}

/// Whether a file name has the extension `md`.
pub fn has_markdown_extension(name: &str) -> (r: bool)
    ensures
        r == is_markdown_name(name@),
{
    let cs = chars_of(name);
    let n = cs.len();
    n > 3 && cs[n - 3] == '.' && cs[n - 2] == 'm' && cs[n - 1] == 'd'
}

/// The report of one file, where it has one, and the count it contributes.
pub fn scan_file(name: &String, contents: &Option<String>) -> (r: (Option<FileReport>, u64))
    ensures
        r.1 == file_count(name@, opt_view(*contents)),
        match r.0 {
            Some(rep) => seq![rep@] == file_reports(name@, opt_view(*contents)),
            None => file_reports(name@, opt_view(*contents)) == Seq::<ReportView>::empty(),
        },
{
    if !has_markdown_extension(name.as_str()) {
        return (None, 0);
    }
    match contents {
        Some(c) => {
            let tasks = scan_text(c.as_str());
            let n = tasks.len() as u64;
            assert(texts(tasks@).len() == tasks@.len());
            if n > 0 {
                (Some(FileReport { name: name.clone(), tasks }), n)
            } else {
                (None, 0)
            }
        },
        None => (None, 0),
    }
}

/// Scans the tree under `e`. Nothing is found under an entry that is not a
/// directory. The total saturates at the largest `u64`.
pub fn scan_entry(e: &Entry) -> (r: ScanResult)
    ensures
        reports_view(r.reports@) == entry_reports(*e),
        r.total == capped(entry_count(*e) as int),
    decreases e,
{
    match e {
        Entry::Dir { entries } => {
            let mut reports: Vec<FileReport> = Vec::new();
            let mut own: Vec<FileReport> = Vec::new();
            let mut total: u64 = 0;
            let mut i: usize = 0;
            while i < entries.len()
                invariant
                    *e == (Entry::Dir { entries: *entries }),
                    i <= entries.len(),
                    reports_view(reports@) == subdir_reports(entries@.take(i as int)),
                    reports_view(own@) == own_reports(entries@.take(i as int)),
                    total == capped(list_count(entries@.take(i as int)) as int),
                decreases entries.len() - i,
            {
                let ghost before = entries@.take(i as int);
                proof {
                    assert(entries@.take(i + 1).drop_last() =~= before);
                }
                let ghost rv = reports@;
                let ghost ov = own@;
                match &entries[i] {
                    Entry::Dir { .. } => {
                        proof {
                            broadcast use vstd::std_specs::vec::axiom_vec_index_decreases;

                            assert(decreases_to!(*e => (*e)->entries));
                            assert(decreases_to!(*e => entries@[i as int]));
                        }
                        let mut sub = scan_entry(&entries[i]);
                        let ghost sv = sub.reports@;
                        reports.append(&mut sub.reports);
                        total = total.saturating_add(sub.total);
                        assert(reports_view(reports@) =~= reports_view(rv) + reports_view(sv));
                        assert(reports_view(own@) =~= reports_view(ov));
                    },
                    Entry::File { name, contents } => {
                        let (rep, n) = scan_file(name, contents);
                        total = total.saturating_add(n);
                        match rep {
                            Some(rep) => {
                                own.push(rep);
                                assert(reports_view(own@) =~= reports_view(ov) + seq![rep@]);
                            },
                            None => {
                                assert(reports_view(own@) =~= reports_view(ov) + Seq::<
                                    ReportView,
                                >::empty());
                            },
                        }
                        assert(reports_view(reports@) =~= reports_view(rv) + Seq::<
                            ReportView,
                        >::empty());
                    },
                    Entry::Other => {
                        assert(reports_view(reports@) =~= reports_view(rv) + Seq::<
                            ReportView,
                        >::empty());
                        assert(reports_view(own@) =~= reports_view(ov) + Seq::<
                            ReportView,
                        >::empty());
                    },
                }
                i = i + 1;
            }
            let ghost rv = reports@;
            let ghost ov = own@;
            reports.append(&mut own);
            assert(entries@.take(i as int) =~= entries@);
            assert(reports_view(reports@) =~= reports_view(rv) + reports_view(ov));
            ScanResult { reports, total }
        },
        _ => ScanResult { reports: Vec::new(), total: 0 },
    }
}

/// The number of tasks over a sequence of reports.
pub open spec fn total_tasks(rs: Seq<ReportView>) -> nat
    decreases rs.len(),
{
    if rs.len() == 0 {
        0
    } else {
        total_tasks(rs.drop_last()) + rs.last().1.len()
    }
}

/// Every report lists at least one task.
pub open spec fn all_nonempty(rs: Seq<ReportView>) -> bool {
    forall|i: int| 0 <= i < rs.len() ==> (#[trigger] rs[i]).1.len() > 0
}

/// No markdown file lies anywhere under `e`.
pub open spec fn no_markdown(e: Entry) -> bool
    decreases e,
{
    match e {
        Entry::Dir { entries } => no_markdown_in(entries@),
        _ => true,
    }
}

/// No markdown file lies anywhere under the entries `es`.
pub open spec fn no_markdown_in(es: Seq<Entry>) -> bool
    decreases es,
{
    if es.len() == 0 {
        true
    } else {
        no_markdown_in(es.drop_last()) && match es.last() {
            Entry::Dir { .. } => no_markdown(es.last()),
            Entry::File { name, .. } => !is_markdown_name(name@),
            Entry::Other => true,
        }
    }
}

proof fn lemma_total_concat(a: Seq<ReportView>, b: Seq<ReportView>)
    ensures
        total_tasks(a + b) == total_tasks(a) + total_tasks(b),
    decreases b.len(),
{
    if b.len() > 0 {
        lemma_total_concat(a, b.drop_last());
        assert((a + b).drop_last() =~= a + b.drop_last());
    } else {
        assert(a + b =~= a);
    }
}

proof fn lemma_file_sum(name: Seq<char>, contents: Option<Seq<char>>)
    ensures
        file_count(name, contents) == total_tasks(file_reports(name, contents)),
        all_nonempty(file_reports(name, contents)),
{
    let rs = file_reports(name, contents);
    if let Some(c) = contents {
        if is_markdown_name(name) && open_tasks(c).len() > 0 {
            assert(rs == seq![(name, open_tasks(c))]);
            assert(rs.drop_last() =~= Seq::<ReportView>::empty());
            assert(total_tasks(rs.drop_last()) == 0);
            assert(rs.last().1 == open_tasks(c));
        }
    }
}

proof fn lemma_list_sum(es: Seq<Entry>)
    ensures
        list_count(es) == total_tasks(subdir_reports(es)) + total_tasks(own_reports(es)),
        all_nonempty(subdir_reports(es)),
        all_nonempty(own_reports(es)),
    decreases es,
{
    if es.len() > 0 {
        let init = es.drop_last();
        lemma_list_sum(init);
        match es.last() {
            Entry::Dir { .. } => {
                lemma_entry_sum(es.last());
                lemma_total_concat(subdir_reports(init), entry_reports(es.last()));
                lemma_total_concat(own_reports(init), Seq::empty());
                assert(own_reports(init) + Seq::<ReportView>::empty() =~= own_reports(init));
            },
            Entry::File { name, contents } => {
                lemma_file_sum(name@, opt_view(contents));
                lemma_total_concat(own_reports(init), file_reports(name@, opt_view(contents)));
                lemma_total_concat(subdir_reports(init), Seq::empty());
                assert(subdir_reports(init) + Seq::<ReportView>::empty() =~= subdir_reports(
                    init,
                ));
            },
            Entry::Other => {
                lemma_total_concat(own_reports(init), Seq::empty());
                lemma_total_concat(subdir_reports(init), Seq::empty());
                assert(own_reports(init) + Seq::<ReportView>::empty() =~= own_reports(init));
                assert(subdir_reports(init) + Seq::<ReportView>::empty() =~= subdir_reports(
                    init,
                ));
            },
        }
    }
}

proof fn lemma_entry_sum(e: Entry)
    ensures
        entry_count(e) == total_tasks(entry_reports(e)),
        all_nonempty(entry_reports(e)),
    decreases e,
{
    if let Entry::Dir { entries } = e {
        lemma_list_sum(entries@);
        lemma_total_concat(subdir_reports(entries@), own_reports(entries@));
    }
}

/// The total of a scan is the sum of the task counts of its reports, and a
/// file without open tasks has no report: every report lists at least one
/// task.
pub proof fn lemma_total_is_sum_of_reports(e: Entry)
    ensures
        entry_count(e) == total_tasks(entry_reports(e)),
        forall|i: int|
            0 <= i < entry_reports(e).len() ==> (#[trigger] entry_reports(e)[i]).1.len() > 0,
{
    lemma_entry_sum(e);
}

proof fn lemma_no_markdown_list(es: Seq<Entry>)
    requires
        no_markdown_in(es),
    ensures
        list_count(es) == 0,
        subdir_reports(es) == Seq::<ReportView>::empty(),
        own_reports(es) == Seq::<ReportView>::empty(),
    decreases es,
{
    if es.len() > 0 {
        lemma_no_markdown_list(es.drop_last());
        if es.last() is Dir {
            lemma_no_markdown_no_reports(es.last());
        }
        assert(subdir_reports(es) =~= Seq::<ReportView>::empty());
        assert(own_reports(es) =~= Seq::<ReportView>::empty());
    }
}

/// A tree without a markdown file anywhere yields no report and a total of
/// zero.
pub proof fn lemma_no_markdown_no_reports(e: Entry)
    requires
        no_markdown(e),
    ensures
        entry_reports(e) == Seq::<ReportView>::empty(),
        entry_count(e) == 0,
    decreases e,
{
    if let Entry::Dir { entries } = e {
        lemma_no_markdown_list(entries@);
        assert(entry_reports(e) =~= Seq::<ReportView>::empty());
    }
}

/// A path that is not a directory (one that does not exist, among others)
/// yields no report and a total of zero.
pub proof fn lemma_not_a_dir_no_reports(e: Entry)
    requires
        !(e is Dir),
    ensures
        entry_reports(e) == Seq::<ReportView>::empty(),
        entry_count(e) == 0,
{
}

} // verus!
