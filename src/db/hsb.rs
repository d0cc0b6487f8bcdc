//! The dual-hash table format: `<sha1 or sha256>:<size>:<name>` on each
//! line, or `<hash>:<size>:<name>:73` for a signature that matches a file of
//! any size.

use vstd::prelude::*;
use crate::db::ParseError;
use crate::digest::Digests;
use crate::scan::{opt_view, Scan};
use crate::text::{lines, lines_spec, parse_u64, split, split_spec, u64_of, views};

verus! {

/// The file extension of a table in this format.
pub const EXT: &'static str = "hsb";

/// The fourth field that waives the size check.
pub open spec fn wildcard() -> Seq<char> {
    seq!['7', '3']
}

/// One signature: the SHA-1 or SHA-256 digest of a file, its exact size or
/// `None` where any size matches, and a name.
#[derive(Debug, PartialEq, Eq)]
pub struct Entry {
    pub sha: String,
    pub size: Option<u64>,
    pub name: String,
}

impl View for Entry {
    type V = (Seq<char>, Option<u64>, Seq<char>);

    open spec fn view(&self) -> (Seq<char>, Option<u64>, Seq<char>) {
        (self.sha@, self.size, self.name@)
    }
}

/// The entry that one line describes: three `:`-separated fields, the
/// second an unsigned decimal size; or four, the fourth the wildcard token,
/// and then the size field is not read.
pub open spec fn parse_spec(line: Seq<char>) -> Result<(Seq<char>, Option<u64>, Seq<char>), ParseError> {
    let f = split_spec(line, ':');
    if f.len() == 3 {
        match u64_of(f[1]) {
            Some(n) => Ok((f[0], Some(n), f[2])),
            None => Err(ParseError::InvalidSize),
        }
    } else if f.len() == 4 {
        if f[3] == wildcard() {
            Ok((f[0], None, f[2]))
        } else {
            Err(ParseError::InvalidSentinel)
        }
    } else {
        Err(ParseError::FieldCount)
    }
}

/// A line of four fields whose fourth is not the wildcard token does not
/// parse.
pub proof fn lemma_bad_sentinel(line: Seq<char>)
    requires
        split_spec(line, ':').len() == 4,
        split_spec(line, ':')[3] != wildcard(),
    ensures
        parse_spec(line) == Err::<(Seq<char>, Option<u64>, Seq<char>), _>(ParseError::InvalidSentinel),
{
}

/// The entries of a table whose lines are `ls`, or the error of its first
/// line that does not parse.
pub open spec fn table_spec(ls: Seq<Seq<char>>) -> Result<Seq<(Seq<char>, Option<u64>, Seq<char>)>, ParseError>
    decreases ls.len(),
{
    if ls.len() == 0 {
        Ok(Seq::empty())
    } else {
        match table_spec(ls.drop_last()) {
            Err(e) => Err(e),
            Ok(es) => match parse_spec(ls.last()) {
                Err(e) => Err(e),
                Ok(x) => Ok(es.push(x)),
            },
        }
    }
}

/// Whether a file with SHA-1 digest `sha1`, SHA-256 digest `sha256` and
/// `size` bytes matches `e`.
pub open spec fn entry_matches(
    e: (Seq<char>, Option<u64>, Seq<char>),
    sha1: Seq<char>,
    sha256: Seq<char>,
    size: u64,
) -> bool {
    &&& (e.0 == sha1 || e.0 == sha256)
    &&& match e.1 {
        None => true,
        Some(s) => s == size,
    }
}

/// The name of the first entry of `es` that the file matches.
pub open spec fn lookup_spec(
    es: Seq<(Seq<char>, Option<u64>, Seq<char>)>,
    sha1: Seq<char>,
    sha256: Seq<char>,
    size: u64,
) -> Option<Seq<char>>
    decreases es.len(),
{
    if es.len() == 0 {
        None
    } else if entry_matches(es[0], sha1, sha256, size) {
        Some(es[0].2)
    } else {
        lookup_spec(es.drop_first(), sha1, sha256, size)
    }
}

impl Entry {
    pub fn new(sha: &str, size: Option<u64>, name: &str) -> (e: Entry)
        ensures
            e@ == (sha@, size, name@),
    {
        Entry { sha: sha.to_owned(), size, name: name.to_owned() }
    }

    /// Parses one line of a table.
    pub fn from_str(s: &str) -> (r: Result<Entry, ParseError>)
        ensures
            match r {
                Ok(e) => parse_spec(s@) == Ok::<_, ParseError>(e@),
                Err(err) => parse_spec(s@) == Err::<(Seq<char>, Option<u64>, Seq<char>), _>(err),
            },
    {
        let parts = split(s, ':');
        if parts.len() == 3 {
            match parse_u64(parts[1].as_str()) {
                Some(size) => Ok(Entry::new(parts[0].as_str(), Some(size), parts[2].as_str())),
                None => Err(ParseError::InvalidSize),
            }
        } else if parts.len() == 4 {
            let token = "73".to_owned();
            proof {
                reveal_strlit("73");
                assert(token@ =~= wildcard());
            }
            if parts[3] == token {
                Ok(Entry::new(parts[0].as_str(), None, parts[2].as_str()))
            } else {
                Err(ParseError::InvalidSentinel)
            }
        } else {
            Err(ParseError::FieldCount)
        }
    }
}

/// A table of dual-hash signatures, in the order of its file.
#[derive(Debug, PartialEq, Eq)]
pub struct HSB {
    pub entries: Vec<Entry>,
}

impl View for HSB {
    type V = Seq<(Seq<char>, Option<u64>, Seq<char>)>;

    open spec fn view(&self) -> Seq<(Seq<char>, Option<u64>, Seq<char>)> {
        self.entries@.map_values(|e: Entry| e@)
    }
}

impl HSB {
    /// An empty table.
    pub fn new() -> (t: HSB)
        ensures
            t@.len() == 0,
    {
        HSB { entries: Vec::new() }
    }

    /// Builds a table from the text of a table file: every line must parse,
    /// and the first that does not fails the whole table.
    pub fn from(contents: &str) -> (r: Result<HSB, ParseError>)
        ensures
            match r {
                Ok(t) => table_spec(lines_spec(contents@)) == Ok::<_, ParseError>(t@),
                Err(e) => table_spec(lines_spec(contents@)) == Err::<Seq<(Seq<char>, Option<u64>, Seq<char>)>, _>(e),
            },
    {
        let ls = lines(contents);
        let mut t = HSB::new();
        let mut i: usize = 0;
        assert(views(ls@).take(0) =~= Seq::<Seq<char>>::empty());
        assert(t@ =~= Seq::<(Seq<char>, Option<u64>, Seq<char>)>::empty());
        while i < ls.len()
            invariant
                0 <= i <= ls@.len(),
                views(ls@) == lines_spec(contents@),
                table_spec(views(ls@).take(i as int)) == Ok::<_, ParseError>(t@),
            decreases ls@.len() - i,
        {
            proof {
                assert(views(ls@).take(i + 1).drop_last() =~= views(ls@).take(i as int));
            }
            match Entry::from_str(ls[i].as_str()) {
                Ok(e) => {
                    let ghost before = t@;
                    t.entries.push(e);
                    assert(t@ =~= before.push(e@));
                },
                Err(err) => {
                    proof {
                        lemma_table_error_stays(views(ls@), i as int + 1);
                    }
                    return Err(err);
                },
            }
            i = i + 1;
        }
        assert(views(ls@).take(ls@.len() as int) =~= views(ls@));
        Ok(t)
    }
}

/// Once a prefix of the lines fails, the whole table fails with its error.
pub proof fn lemma_table_error_stays(ls: Seq<Seq<char>>, k: int)
    requires
        0 <= k <= ls.len(),
        table_spec(ls.take(k)) is Err,
    ensures
        table_spec(ls) == table_spec(ls.take(k)),
    decreases ls.len(),
{
    if k < ls.len() {
        assert(ls.drop_last().take(k) =~= ls.take(k));
        lemma_table_error_stays(ls.drop_last(), k);
    } else {
        assert(ls.take(k) =~= ls);
    }
}

impl Scan for HSB {
    open spec fn spec_find(&self, d: Digests, size: u64) -> Option<Seq<char>> {
        lookup_spec(self@, d.sha1@, d.sha256@, size)
    }

    fn find(&self, d: &Digests, size: u64) -> (r: Option<String>) {
        let mut i: usize = 0;
        assert(self@.skip(0) =~= self@);
        while i < self.entries.len()
            invariant
                0 <= i <= self@.len(),
                lookup_spec(self@, d.sha1@, d.sha256@, size) == lookup_spec(self@.skip(i as int), d.sha1@, d.sha256@, size),
            decreases self@.len() - i,
        {
            let e = &self.entries[i];
            assert(self@.skip(i as int)[0] == e@);
            let size_ok = match e.size {
                None => true,
                Some(s) => s == size,
            };
            if (e.sha == d.sha1 || e.sha == d.sha256) && size_ok {
                return Some(e.name.clone());
            }
            assert(self@.skip(i as int).drop_first() =~= self@.skip(i + 1));
            i = i + 1;
        }
        None
    }
}

} // verus!
