//! The outcome of scanning one file, and how the verdicts of successive
//! tables are folded into it.

use vstd::prelude::*;
use crate::digest::Digests;
use crate::text::{decimal, push_decimal, push_str, views};

verus! {

/// The outcome of scanning one file. Each variant holds the file's path.
#[derive(Debug, PartialEq, Eq)]
pub enum ScanResult {
    /// No table matched.
    Clean(String),
    /// The file has no bytes.
    Empty(String),
    /// At least one table matched; the names of the matched signatures, in
    /// the order in which the tables were consulted.
    Invalid { path: String, name: Vec<String> },
    /// The file could not be read.
    Error { path: String, desc: String },
}

/// The mathematical value of a [`ScanResult`].
pub enum Outcome {
    Clean(Seq<char>),
    Empty(Seq<char>),
    Invalid(Seq<char>, Seq<Seq<char>>),
    Error(Seq<char>, Seq<char>),
}

impl Outcome {
    pub open spec fn path(self) -> Seq<char> {
        match self {
            Outcome::Clean(p) => p,
            Outcome::Empty(p) => p,
            Outcome::Invalid(p, _) => p,
            Outcome::Error(p, _) => p,
        }
    }
}

impl View for ScanResult {
    type V = Outcome;

    open spec fn view(&self) -> Outcome {
        match self {
            ScanResult::Clean(p) => Outcome::Clean(p@),
            ScanResult::Empty(p) => Outcome::Empty(p@),
            ScanResult::Invalid { path, name } => Outcome::Invalid(path@, views(name@)),
            ScanResult::Error { path, desc } => Outcome::Error(path@, desc@),
        }
    }
}

/// The view of an optional string.
pub open spec fn opt_view(o: Option<String>) -> Option<Seq<char>> {
    match o {
        Some(s) => Some(s@),
        None => None,
    }
}

/// Folds one table's verdict into the running outcome: a match is appended
/// to the names of an outcome that is already `Invalid`, and otherwise
/// starts one; no match leaves the outcome as it was.
pub open spec fn accumulate_spec(res: Outcome, found: Option<Seq<char>>) -> Outcome {
    match found {
        None => res,
        Some(n) => match res {
            Outcome::Invalid(p, names) => Outcome::Invalid(p, names.push(n)),
            _ => Outcome::Invalid(res.path(), seq![n]),
        },
    }
}

impl ScanResult {
    /// The path that the outcome is about.
    pub fn path(&self) -> (r: &String)
        ensures
            r@ == self@.path(),
    {
        match self {
            ScanResult::Clean(p) => p,
            ScanResult::Empty(p) => p,
            ScanResult::Invalid { path, name: _ } => path,
            ScanResult::Error { path, desc: _ } => path,
        }
    }

    /// Folds one table's verdict, `found`, into this outcome.
    pub fn accumulate(self, found: Option<String>) -> (r: ScanResult)
        ensures
            r@ == accumulate_spec(self@, opt_view(found)),
    {
        match found {
            None => self,
            Some(n) => match self {
                ScanResult::Invalid { path, name } => {
                    let mut name = name;
                    let ghost before = views(name@);
                    name.push(n);
                    assert(views(name@) =~= before.push(n@));
                    ScanResult::Invalid { path, name }
                },
                other => {
                    let path = other.path().clone();
                    let name = vec![n];
                    assert(views(name@) =~= seq![n@]);
                    ScanResult::Invalid { path, name }
                },
            },
        }
    }
}

/// A signature table that a scanned file is matched against.
pub trait Scan {
    /// The name of the first signature, in table order, that a file with
    /// digests `d` and `size` bytes matches.
    spec fn spec_find(&self, d: Digests, size: u64) -> Option<Seq<char>>;

    /// Looks up the first signature that a file with digests `d` and `size`
    /// bytes matches.
    fn find(&self, d: &Digests, size: u64) -> (r: Option<String>)
        ensures
            opt_view(r) == self.spec_find(*d, size),
    ;

    /// Consults this table for a file with digests `d` and `size` bytes, and
    /// folds its verdict into the running outcome `res`.
    fn scan(&self, d: &Digests, size: u64, res: ScanResult) -> (r: ScanResult)
        ensures
            r@ == accumulate_spec(res@, self.spec_find(*d, size)),
    {
        res.accumulate(self.find(d, size))
    }
}

/// `names` joined with `, `.
pub open spec fn join_spec(names: Seq<Seq<char>>) -> Seq<char>
    decreases names.len(),
{
    if names.len() == 0 {
        Seq::empty()
    } else if names.len() == 1 {
        names[0]
    } else {
        join_spec(names.drop_last()) + ", "@ + names.last()
    }
}

/// The one-line report of an outcome. The count of matched names is
/// followed by a fixed `/2`, the number of table formats.
pub open spec fn report_spec(o: Outcome) -> Seq<char> {
    match o {
        Outcome::Clean(p) => p + ": OK"@,
        Outcome::Empty(p) => p + ": Empty file"@,
        Outcome::Invalid(p, names) => p + ": Invalid: "@ + join_spec(names) + " FOUND("@
            + decimal(names.len()) + "/2)"@,
        Outcome::Error(p, desc) => p + ": Error: "@ + desc,
    }
}

impl ScanResult {
    /// The one-line report of this outcome.
    pub fn to_string(&self) -> (r: String)
        ensures
            r@ == report_spec(self@),
    {
        match self {
            ScanResult::Clean(p) => {
                let mut s = p.clone();
                push_str(&mut s, ": OK");
                s
            },
            ScanResult::Empty(p) => {
                let mut s = p.clone();
                push_str(&mut s, ": Empty file");
                s
            },
            ScanResult::Invalid { path, name } => {
                let mut s = path.clone();
                push_str(&mut s, ": Invalid: ");
                let ghost head = s@;
                let mut i: usize = 0;
                while i < name.len()
                    invariant
                        0 <= i <= name@.len(),
                        s@ == head + join_spec(views(name@).take(i as int)),
                    decreases name@.len() - i,
                {
                    proof {
                        assert(views(name@).take(i + 1).drop_last() =~= views(name@).take(i as int));
                    }
                    if i > 0 {
                        push_str(&mut s, ", ");
                    } else {
                        assert(views(name@).take(0) =~= Seq::<Seq<char>>::empty());
                    }
                    push_str(&mut s, name[i].as_str());
                    assert(s@ =~= head + join_spec(views(name@).take(i + 1)));
                    i = i + 1;
                }
                assert(views(name@).take(name@.len() as int) =~= views(name@));
                push_str(&mut s, " FOUND(");
                push_decimal(&mut s, name.len() as u64);
                push_str(&mut s, "/2)");
                assert(s@ =~= report_spec(self@));
                s
            },
            ScanResult::Error { path, desc } => {
                let mut s = path.clone();
                push_str(&mut s, ": Error: ");
                push_str(&mut s, desc.as_str());
                s
            },
        }
    }
}

/// The current time, in seconds since the Unix epoch.
/// Relies on `chrono::Local::now` and `DateTime::timestamp`.
#[verifier::external_body]
fn now_timestamp() -> (r: i64) {
    chrono::Local::now().timestamp()
}

/// Counters over one run of the scanner.
#[derive(Clone, Copy, Debug, PartialEq, Eq)]
pub struct Summary {
    /// Signatures in the loaded tables.
    pub known: u64,
    pub scanned_dirs: u64,
    /// Files that were read, matched or not.
    pub scanned_files: u64,
    /// Files that some table matched.
    pub infected: u64,
    /// Bytes of the files that were read.
    pub data_scanned: u64,
    /// Seconds from the start of the run to its end, zero if the clock went back.
    pub time: u64,
    /// Start and end of the run, in seconds since the Unix epoch.
    pub start_date: i64,
    pub end_date: i64,
}

/// The elapsed time as the run report writes it.
pub open spec fn display_time_spec(seconds: nat) -> Seq<char> {
    let minutes = seconds / 60;
    let hours = minutes / 60;
    let days = hours / 24;
    if minutes == 0 {
        decimal(seconds) + " seconds"@
    } else if hours == 0 {
        decimal(seconds) + " sec ("@ + decimal(minutes) + " m "@ + decimal(seconds % 60) + " s)"@
    } else if days == 0 {
        decimal(seconds) + " sec ("@ + decimal(hours) + " h "@ + decimal(minutes % 60) + " m "@
            + decimal(seconds % 60) + " s)"@
    } else {
        decimal(seconds) + " sec ("@ + decimal(days) + " d "@ + decimal(hours % 24) + " h "@
            + decimal(minutes % 60) + " m "@ + decimal(seconds % 60) + " s)"@
    }
}

/// The counters after one more scanned file with outcome `o` and `size`
/// bytes: a file that could not be read counts nowhere.
pub open spec fn updated(before: Summary, o: Outcome, size: u64) -> Summary {
    match o {
        Outcome::Error(_, _) => before,
        Outcome::Invalid(_, _) => Summary {
            scanned_files: sat_add(before.scanned_files, 1),
            infected: sat_add(before.infected, 1),
            data_scanned: sat_add(before.data_scanned, size),
            ..before
        },
        _ => Summary {
            scanned_files: sat_add(before.scanned_files, 1),
            data_scanned: sat_add(before.data_scanned, size),
            ..before
        },
    }
}

/// Addition that stops at `u64::MAX`.
pub open spec fn sat_add(a: u64, b: u64) -> u64 {
    if a + b > u64::MAX {
        u64::MAX
    } else {
        (a + b) as u64
    }
}

impl Summary {
    /// A summary of a run that starts now, with every counter at zero.
    pub fn new() -> (s: Summary)
        ensures
            s.known == 0,
            s.scanned_dirs == 0,
            s.scanned_files == 0,
            s.infected == 0,
            s.data_scanned == 0,
            s.time == 0,
            s.end_date == s.start_date,
    {
        let now = now_timestamp();
        Summary {
            known: 0,
            scanned_dirs: 0,
            scanned_files: 0,
            infected: 0,
            data_scanned: 0,
            time: 0,
            start_date: now,
            end_date: now,
        }
    }

    /// Ends the run now, and records its length.
    pub fn end(&mut self)
        ensures
            final(self).time == (if final(self).end_date >= old(self).start_date {
                (final(self).end_date - old(self).start_date) as u64
            } else {
                0
            }),
            final(self).start_date == old(self).start_date,
            final(self).known == old(self).known,
            final(self).scanned_dirs == old(self).scanned_dirs,
            final(self).scanned_files == old(self).scanned_files,
            final(self).infected == old(self).infected,
            final(self).data_scanned == old(self).data_scanned,
    {
        self.end_date = now_timestamp();
        self.time = if self.end_date >= self.start_date {
            (self.end_date as i128 - self.start_date as i128) as u64
        } else {
            0
        };
    }

    /// The length of the run, in seconds and in days, hours, minutes and
    /// seconds.
    pub fn display_time(&self) -> (r: String)
        ensures
            r@ == display_time_spec(self.time as nat),
    {
        let seconds = self.time;
        let minutes = seconds / 60;
        let hours = minutes / 60;
        let days = hours / 24;
        let mut s = String::new();
        push_decimal(&mut s, seconds);
        if minutes == 0 {
            push_str(&mut s, " seconds");
        } else {
            push_str(&mut s, " sec (");
            if hours == 0 {
                push_decimal(&mut s, minutes);
            } else {
                if days == 0 {
                    push_decimal(&mut s, hours);
                } else {
                    push_decimal(&mut s, days);
                    push_str(&mut s, " d ");
                    push_decimal(&mut s, hours % 24);
                }
                push_str(&mut s, " h ");
                push_decimal(&mut s, minutes % 60);
            }
            push_str(&mut s, " m ");
            push_decimal(&mut s, seconds % 60);
            push_str(&mut s, " s)");
        }
        assert(s@ =~= display_time_spec(self.time as nat));
        s
    }

    /// Counts one scanned file with outcome `res` and `size` bytes.
    pub fn update(&mut self, res: &ScanResult, size: u64)
        ensures
            *final(self) == updated(*old(self), res@, size),
    {
        match res {
            ScanResult::Error { path: _, desc: _ } => {},
            ScanResult::Invalid { path: _, name: _ } => {
                self.scanned_files = self.scanned_files.saturating_add(1);
                self.infected = self.infected.saturating_add(1);
                self.data_scanned = self.data_scanned.saturating_add(size);
            },
            _ => {
                self.scanned_files = self.scanned_files.saturating_add(1);
                self.data_scanned = self.data_scanned.saturating_add(size);
            },
        }
    }
}

} // verus!
