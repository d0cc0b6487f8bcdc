//! The database: at most one signature table per format, and the scan of
//! one file against the loaded tables.

pub mod hdb;
pub mod hsb;

use vstd::prelude::*;
use crate::digest::{md5_hex, sha1_hex, sha256_hex, Digests};
use crate::scan::{accumulate_spec, sat_add, updated, Outcome, Scan, ScanResult, Summary};
use crate::text::lines_spec;
use hdb::HDB;
use hsb::HSB;

verus! {

/// Why a line of a signature table was refused.
#[derive(Clone, Copy, Debug, PartialEq, Eq, Structural)]
pub enum ParseError {
    /// The line does not have the number of fields that its format allows.
    FieldCount,
    /// The size field is not an unsigned decimal number that fits in 64 bits.
    InvalidSize,
    /// A fourth field is present but is not the token that waives the size.
    InvalidSentinel,
}

/// The two table formats, told apart by the table file's extension.
#[derive(Clone, Copy, Debug, PartialEq, Eq, Structural)]
pub enum DBType {
    HDB,
    HSB,
}

/// The format of a table file with extension `ext`, if it is one.
pub fn get_db_type(ext: &str) -> (r: Option<DBType>)
    ensures
        r == (if ext@ == hdb::EXT@ {
            Some(DBType::HDB)
        } else if ext@ == hsb::EXT@ {
            Some(DBType::HSB)
        } else {
            None::<DBType>
        }),
{
    let e = ext.to_owned();
    if e == hdb::EXT.to_owned() {
        Some(DBType::HDB)
    } else if e == hsb::EXT.to_owned() {
        Some(DBType::HSB)
    } else {
        None
    }
}

/// What is written for a file that could not be read.
pub open spec fn unreadable() -> Seq<char> {
    "unable to read file"@
}

/// The outcome of scanning the file at `path`, whose contents are
/// `contents`, or `None` where it could not be read, against the
/// single-hash table `hdb` and then the dual-hash table `hsb`, each where it
/// is loaded. An empty file is `Empty` before any table is consulted.
pub open spec fn scan_spec(
    hdb: Option<Seq<(Seq<char>, u64, Seq<char>)>>,
    hsb: Option<Seq<(Seq<char>, Option<u64>, Seq<char>)>>,
    path: Seq<char>,
    contents: Option<Seq<u8>>,
) -> Outcome {
    match contents {
        None => Outcome::Error(path, unreadable()),
        Some(b) => if b.len() == 0 {
            Outcome::Empty(path)
        } else {
            let size = b.len() as u64;
            let after_hdb = match hdb {
                Some(es) => accumulate_spec(Outcome::Clean(path), hdb::lookup_spec(es, md5_hex(b), size)),
                None => Outcome::Clean(path),
            };
            match hsb {
                Some(es) => accumulate_spec(
                    after_hdb,
                    hsb::lookup_spec(es, sha1_hex(b), sha256_hex(b), size),
                ),
                None => after_hdb,
            }
        },
    }
}

/// The contents of a file as the scan sees them.
pub open spec fn contents_view(contents: Option<&[u8]>) -> Option<Seq<u8>> {
    match contents {
        Some(b) => Some(b@),
        None => None,
    }
}

/// An empty file is `Empty`, whatever the tables hold: no table is
/// consulted for it.
pub proof fn lemma_empty_file(
    hdb: Option<Seq<(Seq<char>, u64, Seq<char>)>>,
    hsb: Option<Seq<(Seq<char>, Option<u64>, Seq<char>)>>,
    path: Seq<char>,
    contents: Seq<u8>,
)
    requires
        contents.len() == 0,
    ensures
        scan_spec(hdb, hsb, path, Some(contents)) == Outcome::Empty(path),
{
}

/// Where the single-hash table matches a file with name `first` and the
/// dual-hash table then matches it with name `second`, the outcome is
/// `Invalid` with both names, in that order.
pub proof fn lemma_accumulation(
    hdb: Seq<(Seq<char>, u64, Seq<char>)>,
    hsb: Seq<(Seq<char>, Option<u64>, Seq<char>)>,
    path: Seq<char>,
    contents: Seq<u8>,
    first: Seq<char>,
    second: Seq<char>,
)
    requires
        contents.len() > 0,
        hdb::lookup_spec(hdb, md5_hex(contents), contents.len() as u64) == Some(first),
        hsb::lookup_spec(hsb, sha1_hex(contents), sha256_hex(contents), contents.len() as u64)
            == Some(second),
    ensures
        scan_spec(Some(hdb), Some(hsb), path, Some(contents)) == Outcome::Invalid(
            path,
            seq![first, second],
        ),
{
    assert(seq![first].push(second) =~= seq![first, second]);
}

/// Scanning depends on the tables alone: two databases with the same tables
/// give the same outcome for the same file, and since a scan leaves the
/// tables as they were, scanning a file twice gives the same outcome twice.
pub proof fn lemma_scan_repeatable(a: DB, b: DB, path: Seq<char>, contents: Option<Seq<u8>>)
    requires
        a.hdb == b.hdb,
        a.hsb == b.hsb,
    ensures
        a.spec_scan(path, contents) == b.spec_scan(path, contents),
{
}

/// The signature tables, at most one of each format, and the counters of
/// the run.
pub struct DB {
    pub hdb: Option<HDB>,
    pub hsb: Option<HSB>,
    pub summary: Summary,
}

impl DB {
    /// The loaded single-hash table.
    pub open spec fn hdb_view(&self) -> Option<Seq<(Seq<char>, u64, Seq<char>)>> {
        match self.hdb {
            Some(t) => Some(t@),
            None => None,
        }
    }

    /// The loaded dual-hash table.
    pub open spec fn hsb_view(&self) -> Option<Seq<(Seq<char>, Option<u64>, Seq<char>)>> {
        match self.hsb {
            Some(t) => Some(t@),
            None => None,
        }
    }

    /// The outcome of scanning a file against the loaded tables.
    pub open spec fn spec_scan(&self, path: Seq<char>, contents: Option<Seq<u8>>) -> Outcome {
        scan_spec(self.hdb_view(), self.hsb_view(), path, contents)
    }

    /// A database with no tables, at the start of a run.
    pub fn new() -> (db: DB)
        ensures
            db.hdb is None,
            db.hsb is None,
            db.summary.known == 0,
            db.summary.scanned_dirs == 0,
            db.summary.scanned_files == 0,
            db.summary.infected == 0,
            db.summary.data_scanned == 0,
    {
        DB { hdb: None, hsb: None, summary: Summary::new() }
    }

    /// Loads the table of format `kind` whose file holds `contents`. It
    /// takes the place of a table of the same format loaded before, and its
    /// entries are added to the known signatures. Where a line does not
    /// parse, nothing changes and the error of the first such line is
    /// returned.
    pub fn load(&mut self, kind: DBType, contents: &str) -> (r: Result<(), ParseError>)
        ensures
            match kind {
                DBType::HDB => match hdb::table_spec(lines_spec(contents@)) {
                    Ok(es) => {
                        &&& r is Ok
                        &&& final(self).hdb_view() == Some(es)
                        &&& final(self).hsb == old(self).hsb
                        &&& final(self).summary == Summary {
                            known: sat_add(old(self).summary.known, es.len() as u64),
                            ..old(self).summary
                        }
                    },
                    Err(e) => r == Err::<(), ParseError>(e) && *final(self) == *old(self),
                },
                DBType::HSB => match hsb::table_spec(lines_spec(contents@)) {
                    Ok(es) => {
                        &&& r is Ok
                        &&& final(self).hsb_view() == Some(es)
                        &&& final(self).hdb == old(self).hdb
                        &&& final(self).summary == Summary {
                            known: sat_add(old(self).summary.known, es.len() as u64),
                            ..old(self).summary
                        }
                    },
                    Err(e) => r == Err::<(), ParseError>(e) && *final(self) == *old(self),
                },
            },
    {
        match kind {
            DBType::HDB => {
                let t = HDB::from(contents)?;
                let n = t.entries.len() as u64;
                self.summary.known = self.summary.known.saturating_add(n);
                self.hdb = Some(t);
            },
            DBType::HSB => {
                let t = HSB::from(contents)?;
                let n = t.entries.len() as u64;
                self.summary.known = self.summary.known.saturating_add(n);
                self.hsb = Some(t);
            },
        }
        Ok(())
    }

    /// The outcome of scanning the file at `path` whose contents are
    /// `contents`, or `None` where it could not be read. The digests are
    /// computed once, and only for a file that is not empty.
    pub fn classify(&self, path: &str, contents: Option<&[u8]>) -> (r: ScanResult)
        ensures
            r@ == self.spec_scan(path@, contents_view(contents)),
    {
        let b = match contents {
            None => {
                let desc = "unable to read file".to_owned();
                return ScanResult::Error { path: path.to_owned(), desc };
            },
            Some(b) => b,
        };
        if b.len() == 0 {
            return ScanResult::Empty(path.to_owned());
        }
        let size = b.len() as u64;
        let d = Digests::compute(b);
        let mut res = ScanResult::Clean(path.to_owned());
        match &self.hdb {
            Some(t) => {
                res = t.scan(&d, size, res);
            },
            None => {},
        }
        match &self.hsb {
            Some(t) => {
                res = t.scan(&d, size, res);
            },
            None => {},
        }
        res
    }

    /// Scans one file, as [`DB::classify`] does, and counts it in the summary.
    pub fn scan(&mut self, path: &str, contents: Option<&[u8]>) -> (r: ScanResult)
        ensures
            r@ == old(self).spec_scan(path@, contents_view(contents)),
            final(self).hdb == old(self).hdb,
            final(self).hsb == old(self).hsb,
            final(self).summary == updated(
                old(self).summary,
                r@,
                match contents {
                    Some(b) => b@.len() as u64,
                    None => 0,
                },
            ),
    {
        let res = self.classify(path, contents);
        let size = match contents {
            Some(b) => b.len() as u64,
            None => 0,
        };
        self.summary.update(&res, size);
        res
    }
}

} // verus!
