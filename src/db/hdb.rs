//! The single-hash table format: `<md5>:<size>:<name>` on each line.

use vstd::prelude::*;
use crate::db::ParseError;
use crate::digest::Digests;
use crate::scan::{opt_view, Scan};
use crate::text::{
    decimal, lemma_decimal_reads_back, lemma_split_concat, lemma_split_free,
    lemma_split_pieces_free, lines, lines_spec, parse_u64, push_decimal, push_str, split, split_spec,
    u64_of, views,
};

verus! {

/// The file extension of a table in this format.
pub const EXT: &'static str = "hdb";

/// One signature: the MD5 digest of a file, its exact size and a name.
#[derive(Debug, PartialEq, Eq)]
pub struct Entry {
    pub md5: String,
    pub size: u64,
    pub name: String,
}

impl View for Entry {
    type V = (Seq<char>, u64, Seq<char>);

    open spec fn view(&self) -> (Seq<char>, u64, Seq<char>) {
        (self.md5@, self.size, self.name@)
    }
}

/// The entry that one line describes: exactly three `:`-separated fields,
/// the second an unsigned decimal size.
pub open spec fn parse_spec(line: Seq<char>) -> Result<(Seq<char>, u64, Seq<char>), ParseError> {
    let f = split_spec(line, ':');
    if f.len() != 3 {
        Err(ParseError::FieldCount)
    } else {
        match u64_of(f[1]) {
            Some(n) => Ok((f[0], n, f[2])),
            None => Err(ParseError::InvalidSize),
        }
    }
}

/// The line that writes the entry `e`.
pub open spec fn line_spec(e: (Seq<char>, u64, Seq<char>)) -> Seq<char> {
    e.0 + seq![':'] + decimal(e.1 as nat) + seq![':'] + e.2
}

/// A line that parses is written back, by [`Entry::to_line`], as a line
/// that parses to the same entry.
pub proof fn lemma_round_trip(line: Seq<char>)
    requires
        parse_spec(line) is Ok,
    ensures
        parse_spec(line_spec(parse_spec(line)->Ok_0)) == parse_spec(line),
{
    let f = split_spec(line, ':');
    let e = parse_spec(line)->Ok_0;
    lemma_split_pieces_free(line, ':');
    assert(forall|i: int| 0 <= i < f[0].len() ==> f[0][i] != ':');
    assert(forall|i: int| 0 <= i < f[2].len() ==> f[2][i] != ':');
    let n = decimal(e.1 as nat);
    lemma_decimal_reads_back(e.1 as nat);
    lemma_split_free(f[0], ':');
    lemma_split_free(n, ':');
    lemma_split_free(f[2], ':');
    lemma_split_concat(n, f[2], ':');
    let rest = n + seq![':'] + f[2];
    assert(line_spec(e) =~= f[0] + seq![':'] + rest);
    lemma_split_concat(f[0], rest, ':');
    let g = split_spec(line_spec(e), ':');
    assert(g =~= seq![f[0], n, f[2]]);
    assert(crate::text::unsigned_digits(n) == n);
}

/// The entries of a table whose lines are `ls`, or the error of its first
/// line that does not parse.
pub open spec fn table_spec(ls: Seq<Seq<char>>) -> Result<Seq<(Seq<char>, u64, Seq<char>)>, ParseError>
    decreases ls.len(),
{
    if ls.len() == 0 {
        Ok(Seq::empty())
    } else {
        match table_spec(ls.drop_last()) {
            Err(e) => Err(e),
            Ok(es) => match parse_spec(ls.last()) {
                Err(e) => Err(e),
                Ok(x) => Ok(es.push(x)),
            },
        }
    }
}

/// Whether a file with MD5 digest `md5` and `size` bytes matches `e`.
pub open spec fn entry_matches(e: (Seq<char>, u64, Seq<char>), md5: Seq<char>, size: u64) -> bool {
    e.0 == md5 && e.1 == size
}

/// The name of the first entry of `es` that the file matches.
pub open spec fn lookup_spec(es: Seq<(Seq<char>, u64, Seq<char>)>, md5: Seq<char>, size: u64) -> Option<Seq<char>>
    decreases es.len(),
{
    if es.len() == 0 {
        None
    } else if entry_matches(es[0], md5, size) {
        Some(es[0].2)
    } else {
        lookup_spec(es.drop_first(), md5, size)
    }
}

impl Entry {
    pub fn new(md5: &str, size: u64, name: &str) -> (e: Entry)
        ensures
            e@ == (md5@, size, name@),
    {
        Entry { md5: md5.to_owned(), size, name: name.to_owned() }
    }

    /// The line that writes this entry.
    pub fn to_line(&self) -> (r: String)
        ensures
            r@ == line_spec(self@),
    {
        let mut s = self.md5.clone();
        push_str(&mut s, ":");
        push_decimal(&mut s, self.size);
        push_str(&mut s, ":");
        push_str(&mut s, self.name.as_str());
        proof {
            reveal_strlit(":");
        }
        assert(s@ =~= line_spec(self@));
        s
    }

    /// Parses one line of a table.
    pub fn from_str(s: &str) -> (r: Result<Entry, ParseError>)
        ensures
            match r {
                Ok(e) => parse_spec(s@) == Ok::<_, ParseError>(e@),
                Err(err) => parse_spec(s@) == Err::<(Seq<char>, u64, Seq<char>), _>(err),
            },
    {
        let parts = split(s, ':');
        if parts.len() != 3 {
            return Err(ParseError::FieldCount);
        }
        match parse_u64(parts[1].as_str()) {
            Some(size) => Ok(Entry::new(parts[0].as_str(), size, parts[2].as_str())),
            None => Err(ParseError::InvalidSize),
        }
    }
}

/// A table of single-hash signatures, in the order of its file.
#[derive(Debug, PartialEq, Eq)]
pub struct HDB {
    pub entries: Vec<Entry>,
}

impl View for HDB {
    type V = Seq<(Seq<char>, u64, Seq<char>)>;

    open spec fn view(&self) -> Seq<(Seq<char>, u64, Seq<char>)> {
        self.entries@.map_values(|e: Entry| e@)
    }
}

impl HDB {
    /// An empty table.
    pub fn new() -> (t: HDB)
        ensures
            t@.len() == 0,
    {
        HDB { entries: Vec::new() }
    }

    /// Builds a table from the text of a table file: every line must parse,
    /// and the first that does not fails the whole table.
    pub fn from(contents: &str) -> (r: Result<HDB, ParseError>)
        ensures
            match r {
                Ok(t) => table_spec(lines_spec(contents@)) == Ok::<_, ParseError>(t@),
                Err(e) => table_spec(lines_spec(contents@)) == Err::<Seq<(Seq<char>, u64, Seq<char>)>, _>(e),
            },
    {
        let ls = lines(contents);
        let mut t = HDB::new();
        let mut i: usize = 0;
        assert(views(ls@).take(0) =~= Seq::<Seq<char>>::empty());
        assert(t@ =~= Seq::<(Seq<char>, u64, Seq<char>)>::empty());
        while i < ls.len()
            invariant
                0 <= i <= ls@.len(),
                views(ls@) == lines_spec(contents@),
                table_spec(views(ls@).take(i as int)) == Ok::<_, ParseError>(t@),
            decreases ls@.len() - i,
        {
            proof {
                assert(views(ls@).take(i + 1).drop_last() =~= views(ls@).take(i as int));
            }
            match Entry::from_str(ls[i].as_str()) {
                Ok(e) => {
                    let ghost before = t@;
                    t.entries.push(e);
                    assert(t@ =~= before.push(e@));
                },
                Err(err) => {
                    proof {
                        lemma_table_error_stays(views(ls@), i as int + 1);
                    }
                    return Err(err);
                },
            }
            i = i + 1;
        }
        assert(views(ls@).take(ls@.len() as int) =~= views(ls@));
        Ok(t)
    }
}

/// Once a prefix of the lines fails, the whole table fails with its error.
pub proof fn lemma_table_error_stays(ls: Seq<Seq<char>>, k: int)
    requires
        0 <= k <= ls.len(),
        table_spec(ls.take(k)) is Err,
    ensures
        table_spec(ls) == table_spec(ls.take(k)),
    decreases ls.len(),
{
    if k < ls.len() {
        assert(ls.drop_last().take(k) =~= ls.take(k));
        lemma_table_error_stays(ls.drop_last(), k);
    } else {
        assert(ls.take(k) =~= ls);
    }
}

impl Scan for HDB {
    open spec fn spec_find(&self, d: Digests, size: u64) -> Option<Seq<char>> {
        lookup_spec(self@, d.md5@, size)
    }

    fn find(&self, d: &Digests, size: u64) -> (r: Option<String>) {
        let mut i: usize = 0;
        assert(self@.skip(0) =~= self@);
        while i < self.entries.len()
            invariant
                0 <= i <= self@.len(),
                lookup_spec(self@, d.md5@, size) == lookup_spec(self@.skip(i as int), d.md5@, size),
            decreases self@.len() - i,
        {
            let e = &self.entries[i];
            assert(self@.skip(i as int)[0] == e@);
            if e.md5 == d.md5 && e.size == size {
                return Some(e.name.clone());
            }
            assert(self@.skip(i as int).drop_first() =~= self@.skip(i + 1));
            i = i + 1;
        }
        None
    }
}

} // verus!
