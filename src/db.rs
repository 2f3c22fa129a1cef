//! Locating a database and walking the packages of its archive.
//!
//! The walk is a state machine: the caller opens the archive and reads its
//! entries, and hands each happening to [`Packages::step`], which decides what
//! the next item of the package sequence is.

use crate::error::{push_text, Error, Result};
use crate::package::Package;
use crate::parser::{error_is, parse_package};
use crate::text::{chars_of, decode_text, string_of};
use vstd::prelude::*;
use vstd::utf8::{decode_utf8, valid_utf8};

verus! {

/// The directory that databases are looked up under by default.
pub const DEFAULT_DB_DIR: &'static str = "/var/lib/pacman";

/// A name for what `str::to_lowercase` makes of a text.
pub uninterp spec fn lower_of(s: Seq<char>) -> Seq<char>;

/// Relies on `str::to_lowercase`: the result depends on the characters alone.
#[verifier::external_body]
fn lowercase(s: &str) -> (r: String)
    ensures
        r@ == lower_of(s@),
{
    s.to_lowercase()
}

/// `part` placed under `dir`, with one `/` between them.
pub open spec fn join_path(dir: Seq<char>, part: Seq<char>) -> Seq<char> {
    if dir.len() == 0 || dir.last() == '/' {
        dir + part
    } else {
        dir + seq!['/'] + part
    }
}

/// Where the database `name` lives under `dir`: `<dir>/sync/<name>.db`.
pub open spec fn db_path(dir: Seq<char>, name: Seq<char>) -> Seq<char> {
    join_path(join_path(dir, "sync"@), name + ".db"@)
}

fn join(dir: &str, part: &str) -> (r: String)
    ensures
        r@ == join_path(dir@, part@),
{
    let d = chars_of(dir);
    let mut r = dir.to_owned();
    if d.len() != 0 && d[d.len() - 1] != '/' {
        push_text(&mut r, "/");
        proof {
            reveal_strlit("/");
        }
    }
    push_text(&mut r, part);
    r
}

fn resolve(dir: &str, name: &str) -> (r: String)
    ensures
        r@ == db_path(dir@, name@),
{
    let sync = join(dir, "sync");
    let mut file = name.to_owned();
    push_text(&mut file, ".db");
    join(sync.as_str(), file.as_str())
}

/// The model of a [`Database`].
pub struct DatabaseModel {
    pub name: Seq<char>,
    pub dir: Seq<char>,
    pub path: Seq<char>,
}

/// A package database: its name, the directory searched and the archive path.
pub struct Database {
    name: String,
    dir: String,
    path: String,
}

impl View for Database {
    type V = DatabaseModel;

    closed spec fn view(&self) -> DatabaseModel {
        DatabaseModel { name: self.name@, dir: self.dir@, path: self.path@ }
    }
}

impl Default for Database {
    fn default() -> (r: Database)
        ensures
            r@.name == Seq::<char>::empty(),
            r@.dir == DEFAULT_DB_DIR@,
            r@.path == Seq::<char>::empty(),
    {
        Database { name: String::new(), dir: DEFAULT_DB_DIR.to_owned(), path: String::new() }
    }
}

impl Database {
    /// Sets the directory to search for databases; the archive path is
    /// resolved again under it.
    pub fn with_dir(self, dir: &str) -> (r: Database)
        ensures
            r@.name == self@.name,
            r@.dir == dir@,
            r@.path == db_path(dir@, self@.name),
    {
        let path = resolve(dir, self.name.as_str());
        Database { name: self.name, dir: dir.to_owned(), path }
    }

    /// Loads the database `name`, lower-cased, from the default directory.
    /// `is_file` tells whether a path names an existing file; the database is
    /// not found when it says no of the resolved path.
    pub fn load<F: Fn(&str) -> bool>(name: &str, is_file: F) -> (r: Result<Database>)
        requires
            forall|p: &str| is_file.requires((p,)),
        ensures
            match r {
                Ok(db) => {
                    &&& db@.name == lower_of(name@)
                    &&& db@.dir == DEFAULT_DB_DIR@
                    &&& db@.path == db_path(DEFAULT_DB_DIR@, lower_of(name@))
                    &&& exists|p: &str| p@ == db@.path && is_file.ensures((p,), true)
                },
                Err(e) => {
                    &&& e matches Error::DatabaseNotFound(n) && n@ == lower_of(name@)
                    &&& exists|p: &str|
                        p@ == db_path(DEFAULT_DB_DIR@, lower_of(name@)) && is_file.ensures(
                            (p,),
                            false,
                        )
                },
            },
    {
        let name = lowercase(name);
        let path = resolve(DEFAULT_DB_DIR, name.as_str());
        let found = is_file(path.as_str());
        if !found {
            return Err(Error::DatabaseNotFound(name));
        }
        Ok(Database { name, dir: DEFAULT_DB_DIR.to_owned(), path })
    }

    pub fn name(&self) -> (r: &str)
        ensures
            r@ == self@.name,
    {
        self.name.as_str()
    }

    pub fn dir(&self) -> (r: &str)
        ensures
            r@ == self@.dir,
    {
        self.dir.as_str()
    }

    pub fn path(&self) -> (r: &str)
        ensures
            r@ == self@.path,
    {
        self.path.as_str()
    }

    /// A package sequence over this database's archive, not yet opened.
    pub fn packages(&self) -> (r: Result<Packages>)
        ensures
            r matches Ok(p) && p@.path == self@.path && p@.stage == Stage::Unopened,
    {
        Ok(Packages { path: self.path.clone(), stage: Stage::Unopened })
    }
}

/// Where a package sequence stands.
#[derive(Debug, Clone, Copy, PartialEq, Eq, Structural)]
pub enum Stage {
    /// The archive has not been opened yet.
    Unopened,
    /// Entries are being read.
    Streaming,
    /// The sequence has ended; nothing more comes.
    Exhausted,
}

/// What the reader of the archive reports to a package sequence.
#[derive(Debug, Clone)]
pub enum ArchiveEvent {
    /// The archive file was opened and its decompression set up.
    Opened,
    /// The archive file could not be opened or decompressed.
    OpenFailed,
    /// The walk over the archive's entries could not be set up or went on no further.
    WalkFailed,
    /// An entry, with its path and its content.
    Entry(String, Vec<u8>),
    /// There are no more entries.
    End,
}

/// The suffix of the path of a package's descriptive record.
pub open spec fn desc_suffix() -> Seq<char> {
    "/desc"@
}

/// A path names a package's descriptive record: `<directory>/desc`.
pub open spec fn is_desc_path(p: Seq<char>) -> bool {
    p.len() >= desc_suffix().len() && p.subrange(p.len() - desc_suffix().len(), p.len() as int)
        == desc_suffix()
}

/// The package directory of a descriptive record's path.
pub open spec fn package_dir(p: Seq<char>) -> Seq<char> {
    p.subrange(0, p.len() - desc_suffix().len())
}

/// The stage that follows `s` on the event `e`.
pub open spec fn next_stage(s: Stage, e: ArchiveEvent) -> Stage {
    match (s, e) {
        (Stage::Unopened, ArchiveEvent::Opened) => Stage::Streaming,
        (Stage::Unopened, ArchiveEvent::OpenFailed) => Stage::Exhausted,
        (Stage::Unopened, ArchiveEvent::WalkFailed) => Stage::Exhausted,
        (Stage::Streaming, ArchiveEvent::WalkFailed) => Stage::Exhausted,
        (Stage::Streaming, ArchiveEvent::End) => Stage::Exhausted,
        _ => s,
    }
}

/// What the sequence yields for the event `e` in stage `s`.
pub enum Outcome {
    /// No item.
    Nothing,
    /// The archive could not be opened.
    LoadFailed,
    /// The walk over the entries failed.
    WalkFailed,
    /// A descriptive record that is not valid UTF-8, in the given directory.
    NotText(Seq<char>),
    /// The record built from a descriptive record's text.
    Record(core::result::Result<crate::package::PackageModel, crate::parser::Fault>),
}

pub open spec fn outcome(s: Stage, e: ArchiveEvent) -> Outcome {
    match (s, e) {
        (Stage::Unopened, ArchiveEvent::OpenFailed) => Outcome::LoadFailed,
        (Stage::Unopened, ArchiveEvent::WalkFailed) => Outcome::WalkFailed,
        (Stage::Streaming, ArchiveEvent::WalkFailed) => Outcome::WalkFailed,
        (Stage::Streaming, ArchiveEvent::Entry(p, b)) => if !is_desc_path(p@) {
            Outcome::Nothing
        } else if !valid_utf8(b@) {
            Outcome::NotText(package_dir(p@))
        } else {
            Outcome::Record(parse_package(decode_utf8(b@)))
        },
        _ => Outcome::Nothing,
    }
}

/// `r` is the item that `o` describes, for a sequence over the archive at `path`.
pub open spec fn yields(r: Option<Result<Package>>, o: Outcome, path: Seq<char>) -> bool {
    match o {
        Outcome::Nothing => r is None,
        Outcome::LoadFailed => r matches Some(Err(Error::DatabaseLoad(q))) && q@ == path,
        Outcome::WalkFailed => r matches Some(Err(Error::DatabaseIteration(q))) && q@ == path,
        Outcome::NotText(d) => r matches Some(Err(Error::PackageUtf8Conversion(q))) && q@ == d,
        Outcome::Record(Ok(m)) => r matches Some(Ok(p)) && p@ == m,
        Outcome::Record(Err(f)) => r matches Some(Err(e)) && error_is(e, f),
    }
}

/// The stage after the events `es`, from stage `s`.
pub open spec fn run_stage(s: Stage, es: Seq<ArchiveEvent>) -> Stage
    decreases es.len(),
{
    if es.len() == 0 {
        s
    } else {
        run_stage(next_stage(s, es[0]), es.drop_first())
    }
}

/// Once ended, a package sequence stays ended and yields nothing, whatever
/// happens after.
pub proof fn law_exhausted_is_terminal(es: Seq<ArchiveEvent>)
    ensures
        run_stage(Stage::Exhausted, es) == Stage::Exhausted,
        forall|i: int| 0 <= i < es.len() ==> outcome(Stage::Exhausted, #[trigger] es[i]) is Nothing,
    decreases es.len(),
{
    if es.len() > 0 {
        law_exhausted_is_terminal(es.drop_first());
    }
}

/// The model of a [`Packages`] sequence.
pub struct PackagesModel {
    pub path: Seq<char>,
    pub stage: Stage,
}

/// The lazy sequence of the packages of one database archive.
pub struct Packages {
    path: String,
    stage: Stage,
}

impl View for Packages {
    type V = PackagesModel;

    closed spec fn view(&self) -> PackagesModel {
        PackagesModel { path: self.path@, stage: self.stage }
    }
}

fn ends_with_desc(p: &Vec<char>) -> (r: bool)
    ensures
        r == is_desc_path(p@),
{
    let suffix = chars_of("/desc");
    if p.len() < suffix.len() {
        return false;
    }
    let start = p.len() - suffix.len();
    let mut i: usize = 0;
    while i < suffix.len()
        invariant
            suffix@ == desc_suffix(),
            start + suffix.len() == p.len(),
            i <= suffix.len(),
            forall|j: int| 0 <= j < i ==> p@[start + j] == suffix@[j],
        decreases suffix.len() - i,
    {
        if p[start + i] != suffix[i] {
            assert(p@.subrange(start as int, p.len() as int)[i as int] != desc_suffix()[i as int]);
            return false;
        }
        i += 1;
    }
    assert(p@.subrange(start as int, p.len() as int) =~= desc_suffix());
    true
}

impl Packages {
    /// The archive path that this sequence reads.
    pub fn path(&self) -> (r: &str)
        ensures
            r@ == self@.path,
    {
        self.path.as_str()
    }

    pub fn stage(&self) -> (r: Stage)
        ensures
            r == self@.stage,
    {
        self.stage
    }

    /// Whether the content of the entry at `entry_path` is wanted: the
    /// sequence is reading entries and the path names a descriptive record.
    pub fn wants(&self, entry_path: &str) -> (r: bool)
        ensures
            r == (self@.stage == Stage::Streaming && is_desc_path(entry_path@)),
    {
        let p = chars_of(entry_path);
        self.stage == Stage::Streaming && ends_with_desc(&p)
    }

    /// Takes one event of the archive reader and returns the item that it
    /// makes, if any.
    pub fn step(&mut self, event: ArchiveEvent) -> (r: Option<Result<Package>>)
        ensures
            final(self)@.path == old(self)@.path,
            final(self)@.stage == next_stage(old(self)@.stage, event),
            yields(r, outcome(old(self)@.stage, event), old(self)@.path),
    {
        match (self.stage, event) {
            (Stage::Unopened, ArchiveEvent::Opened) => {
                self.stage = Stage::Streaming;
                None
            },
            (Stage::Unopened, ArchiveEvent::OpenFailed) => {
                self.stage = Stage::Exhausted;
                Some(Err(Error::DatabaseLoad(self.path.clone())))
            },
            (Stage::Unopened, ArchiveEvent::WalkFailed) | (
                Stage::Streaming,
                ArchiveEvent::WalkFailed,
            ) => {
                self.stage = Stage::Exhausted;
                Some(Err(Error::DatabaseIteration(self.path.clone())))
            },
            (Stage::Streaming, ArchiveEvent::End) => {
                self.stage = Stage::Exhausted;
                None
            },
            (Stage::Streaming, ArchiveEvent::Entry(path, bytes)) => {
                let p = chars_of(path.as_str());
                if !ends_with_desc(&p) {
                    return None;
                }
                proof {
                    reveal_strlit("/desc");
                }
                match decode_text(bytes) {
                    None => Some(Err(Error::PackageUtf8Conversion(string_of(&p, 0, p.len() - 5)))),
                    Some(text) => Some(Package::try_from(text.as_str())),
                }
            },
            _ => None,
        }
    }
}

} // verus!
