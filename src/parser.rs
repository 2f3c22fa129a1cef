//! The record grammar and the record builder.
//!
//! A record is a run of blocks. Before each block any whitespace is skipped.
//! A block starts with a header line, `%` then one or more ASCII letters or
//! digits then `%`, and goes on with one or more value lines: non-blank lines,
//! each ended by a line feed, with one carriage return before that line feed
//! left out. A blank line or the end of the text closes the run of values.
//! Tokenizing stops, without an error, where no further block can be read.

use crate::error::{Error, Result};
use crate::package::{empty_model, strings_view, Package, PackageModel};
use crate::text::{chars_of, string_of};
use vstd::prelude::*;

verus! {

pub open spec fn is_space(c: char) -> bool {
    c == ' ' || c == '\t' || c == '\r' || c == '\n'
}

pub open spec fn is_key_char(c: char) -> bool {
    ('a' <= c && c <= 'z') || ('A' <= c && c <= 'Z') || ('0' <= c && c <= '9')
}

/// The first position at or after `p` whose character is not whitespace, or
/// the end of the text.
pub open spec fn skip_space(t: Seq<char>, p: int) -> int
    decreases t.len() - p,
{
    if 0 <= p < t.len() && is_space(t[p]) {
        skip_space(t, p + 1)
    } else {
        p
    }
}

/// The position of the first line feed at or after `p`, or the end of the text.
pub open spec fn line_end(t: Seq<char>, p: int) -> int
    decreases t.len() - p,
{
    if 0 <= p < t.len() && t[p] != '\n' {
        line_end(t, p + 1)
    } else {
        p
    }
}

/// The line that starts at `p`, without its line feed and without one
/// carriage return just before it.
pub open spec fn line_at(t: Seq<char>, p: int) -> Seq<char> {
    let e = line_end(t, p);
    if e > p && t[e - 1] == '\r' {
        t.subrange(p, e - 1)
    } else {
        t.subrange(p, e)
    }
}

pub open spec fn is_blank(l: Seq<char>) -> bool {
    forall|i: int| 0 <= i < l.len() ==> is_space(#[trigger] l[i])
}

/// A line is a header when it is `%`, one or more key characters, `%`.
pub open spec fn is_header(l: Seq<char>) -> bool {
    &&& l.len() >= 3
    &&& l[0] == '%'
    &&& l[l.len() - 1] == '%'
    &&& forall|i: int| 1 <= i < l.len() - 1 ==> is_key_char(#[trigger] l[i])
}

/// The key of a header line.
pub open spec fn header_key(l: Seq<char>) -> Seq<char> {
    l.subrange(1, l.len() - 1)
}

/// A complete line (one ended by a line feed) starts at `p`.
pub open spec fn full_line_at(t: Seq<char>, p: int) -> bool {
    0 <= p && line_end(t, p) < t.len()
}

pub open spec fn header_at(t: Seq<char>, p: int) -> bool {
    full_line_at(t, p) && is_header(line_at(t, p))
}

pub open spec fn value_line_at(t: Seq<char>, p: int) -> bool {
    full_line_at(t, p) && !is_blank(line_at(t, p))
}

/// The run of value lines that starts at `p`, and the position just after it.
pub open spec fn value_run(t: Seq<char>, p: int) -> (Seq<Seq<char>>, int)
    decreases t.len() - p,
    via value_run_decreases
{
    if value_line_at(t, p) {
        let rest = value_run(t, line_end(t, p) + 1);
        (seq![line_at(t, p)] + rest.0, rest.1)
    } else {
        (seq![], p)
    }
}

#[via_fn]
proof fn value_run_decreases(t: Seq<char>, p: int) {
    if value_line_at(t, p) {
        lemma_line_end_bounds(t, p);
    }
}

/// A token's model: the key as written and the values in order.
pub type TokenModel = (Seq<char>, Seq<Seq<char>>);

/// The tokens that the text yields from position `p` on.
pub open spec fn tokens_from(t: Seq<char>, p: int) -> Seq<TokenModel>
    decreases t.len() - p,
    via tokens_from_decreases
{
    let s = skip_space(t, p);
    if p >= 0 && header_at(t, s) {
        let run = value_run(t, line_end(t, s) + 1);
        if run.0.len() > 0 {
            seq![(header_key(line_at(t, s)), run.0)] + tokens_from(t, run.1)
        } else {
            seq![]
        }
    } else {
        seq![]
    }
}

#[via_fn]
proof fn tokens_from_decreases(t: Seq<char>, p: int) {
    let s = skip_space(t, p);
    if p >= 0 && header_at(t, s) {
        lemma_skip_space_bounds(t, p);
        lemma_line_end_bounds(t, s);
        lemma_value_run_bounds(t, line_end(t, s) + 1);
    }
}

/// The tokens of a whole text.
pub open spec fn tokens(t: Seq<char>) -> Seq<TokenModel> {
    tokens_from(t, 0)
}

pub proof fn lemma_skip_space_bounds(t: Seq<char>, p: int)
    requires
        0 <= p,
    ensures
        p <= skip_space(t, p),
        p <= t.len() ==> skip_space(t, p) <= t.len(),
        skip_space(t, p) < t.len() ==> !is_space(t[skip_space(t, p)]),
    decreases t.len() - p,
{
    if 0 <= p < t.len() && is_space(t[p]) {
        lemma_skip_space_bounds(t, p + 1);
    }
}

pub proof fn lemma_line_end_bounds(t: Seq<char>, p: int)
    requires
        0 <= p,
    ensures
        p <= line_end(t, p),
        p <= t.len() ==> line_end(t, p) <= t.len(),
        line_end(t, p) < t.len() ==> t[line_end(t, p)] == '\n',
        forall|i: int| p <= i < line_end(t, p) ==> t[i] != '\n',
    decreases t.len() - p,
{
    if 0 <= p < t.len() && t[p] != '\n' {
        lemma_line_end_bounds(t, p + 1);
    }
}

pub proof fn lemma_value_run_bounds(t: Seq<char>, p: int)
    requires
        0 <= p,
    ensures
        p <= value_run(t, p).1,
        p <= t.len() ==> value_run(t, p).1 <= t.len(),
    decreases t.len() - p,
{
    if value_line_at(t, p) {
        lemma_line_end_bounds(t, p);
        lemma_value_run_bounds(t, line_end(t, p) + 1);
    }
}

/// One block of a record: its key as written and its values in order.
#[derive(Debug, Clone, PartialEq, Eq)]
pub struct Token {
    pub name: String,
    pub values: Vec<String>,
}

impl Token {
    pub open spec fn model(&self) -> TokenModel {
        (self.name@, strings_view(self.values))
    }
}

fn skip_space_at(t: &Vec<char>, p: usize) -> (r: usize)
    requires
        p <= t.len(),
    ensures
        r == skip_space(t@, p as int),
        p <= r <= t.len(),
{
    let mut i: usize = p;
    while i < t.len() && (t[i] == ' ' || t[i] == '\t' || t[i] == '\r' || t[i] == '\n')
        invariant
            p <= i <= t.len(),
            skip_space(t@, i as int) == skip_space(t@, p as int),
        decreases t.len() - i,
    {
        i += 1;
    }
    i
}

fn line_end_at(t: &Vec<char>, p: usize) -> (r: usize)
    requires
        p <= t.len(),
    ensures
        r == line_end(t@, p as int),
        p <= r <= t.len(),
{
    let mut i: usize = p;
    while i < t.len() && t[i] != '\n'
        invariant
            p <= i <= t.len(),
            line_end(t@, i as int) == line_end(t@, p as int),
        decreases t.len() - i,
    {
        i += 1;
    }
    i
}

/// The end of the line that starts at `p`, and the end of its content.
fn line_bounds(t: &Vec<char>, p: usize) -> (r: (usize, usize))
    requires
        p <= t.len(),
    ensures
        r.0 == line_end(t@, p as int),
        p <= r.1 <= r.0 <= t.len(),
        t@.subrange(p as int, r.1 as int) == line_at(t@, p as int),
{
    let e = line_end_at(t, p);
    if e > p && t[e - 1] == '\r' {
        (e, e - 1)
    } else {
        (e, e)
    }
}

fn is_blank_range(t: &Vec<char>, a: usize, b: usize) -> (r: bool)
    requires
        a <= b <= t.len(),
    ensures
        r == is_blank(t@.subrange(a as int, b as int)),
{
    let mut i: usize = a;
    while i < b
        invariant
            a <= i <= b <= t.len(),
            forall|j: int| a <= j < i ==> is_space(#[trigger] t@[j]),
        decreases b - i,
    {
        if !(t[i] == ' ' || t[i] == '\t' || t[i] == '\r' || t[i] == '\n') {
            assert(!is_space(t@.subrange(a as int, b as int)[i - a]));
            return false;
        }
        i += 1;
    }
    assert forall|j: int| 0 <= j < b - a implies is_space(
        #[trigger] t@.subrange(a as int, b as int)[j],
    ) by {
        assert(t@.subrange(a as int, b as int)[j] == t@[a + j]);
    }
    true
}

fn is_header_range(t: &Vec<char>, a: usize, b: usize) -> (r: bool)
    requires
        a <= b <= t.len(),
    ensures
        r == is_header(t@.subrange(a as int, b as int)),
{
    let ghost l = t@.subrange(a as int, b as int);
    if b - a < 3 || t[a] != '%' || t[b - 1] != '%' {
        return false;
    }
    let mut i: usize = a + 1;
    while i < b - 1
        invariant
            a + 1 <= i <= b - 1,
            b <= t.len(),
            l == t@.subrange(a as int, b as int),
            forall|j: int| a + 1 <= j < i ==> is_key_char(#[trigger] t@[j]),
        decreases b - i,
    {
        let c = t[i];
        if !(('a' <= c && c <= 'z') || ('A' <= c && c <= 'Z') || ('0' <= c && c <= '9')) {
            assert(!is_key_char(l[i - a]));
            return false;
        }
        i += 1;
    }
    assert forall|j: int| 1 <= j < l.len() - 1 implies is_key_char(#[trigger] l[j]) by {
        assert(l[j] == t@[a + j]);
    }
    true
}

/// Reads the blocks of one record, one at a time.
pub struct Tokenizer {
    text: Vec<char>,
    pos: usize,
}

impl Tokenizer {
    pub closed spec fn wf(&self) -> bool {
        self.pos <= self.text.len()
    }

    /// The tokens still to come.
    pub closed spec fn remaining(&self) -> Seq<TokenModel> {
        tokens_from(self.text@, self.pos as int)
    }

    pub fn from(data: &str) -> (r: Tokenizer)
        ensures
            r.wf(),
            r.remaining() == tokens(data@),
    {
        Tokenizer { text: chars_of(data), pos: 0 }
    }

    /// The next token, or `None` once no further block can be read; after
    /// `None` nothing more comes.
    pub fn next(&mut self) -> (r: Option<Token>)
        requires
            old(self).wf(),
        ensures
            final(self).wf(),
            match r {
                Some(tok) => old(self).remaining() == seq![tok.model()] + final(self).remaining(),
                None => old(self).remaining() == Seq::<TokenModel>::empty()
                    && final(self).remaining() == Seq::<TokenModel>::empty(),
            },
    {
        let ghost t = self.text@;
        let ghost from = self.pos as int;
        let len = self.text.len();
        proof {
            lemma_tokens_at_end(t);
        }
        let s = skip_space_at(&self.text, self.pos);
        let (e, c) = line_bounds(&self.text, s);
        if e >= len || !is_header_range(&self.text, s, c) {
            self.pos = len;
            return None;
        }
        let name = string_of(&self.text, s + 1, c - 1);
        let ghost start = e + 1;
        let mut values: Vec<String> = Vec::new();
        let mut p: usize = e + 1;
        proof {
            lemma_line_end_bounds(t, s as int);
        }
        loop
            invariant
                t == self.text@,
                len == t.len(),
                start <= p <= len,
                value_run(t, start as int) == (strings_view(values) + value_run(t, p as int).0,
                    value_run(t, p as int).1),
            ensures
                t == self.text@,
                start <= p <= len,
                value_run(t, start as int) == (strings_view(values), p as int),
            decreases len - p,
        {
            let (le, lc) = line_bounds(&self.text, p);
            if le >= len || is_blank_range(&self.text, p, lc) {
                assert(value_run(t, p as int) == (Seq::<Seq<char>>::empty(), p as int));
                assert(strings_view(values) + Seq::<Seq<char>>::empty() == strings_view(values));
                break;
            }
            let v = string_of(&self.text, p, lc);
            let ghost before = strings_view(values);
            values.push(v);
            proof {
                assert(strings_view(values) == before.push(v@));
                let rest = value_run(t, le + 1);
                assert(value_run(t, p as int) == (seq![v@] + rest.0, rest.1));
                assert(before + (seq![v@] + rest.0) == before.push(v@) + rest.0);
            }
            p = le + 1;
        }
        proof {
            let l = line_at(t, s as int);
            assert(header_key(l) =~= t.subrange(s + 1, c - 1));
            assert(header_at(t, s as int));
        }
        if values.len() == 0 {
            self.pos = len;
            return None;
        }
        self.pos = p;
        Some(Token { name, values })
    }
}

proof fn lemma_tokens_at_end(t: Seq<char>)
    ensures
        tokens_from(t, t.len() as int) == Seq::<TokenModel>::empty(),
{
    assert(skip_space(t, t.len() as int) == t.len());
    assert(line_end(t, t.len() as int) == t.len());
}

/// The recognized keys, each naming the field that it fills.
#[derive(Debug, Clone, Copy, PartialEq, Eq)]
pub enum Field {
    Name,
    Base,
    Filename,
    Version,
    Desc,
    Url,
    CSize,
    ISize,
    Arch,
    Md5Sum,
    Sha256Sum,
    PgpSig,
    BuildDate,
    Packager,
    License,
    Provides,
    Depends,
    MakeDepends,
    OptionalDepends,
    CheckDepends,
}

/// A character with ASCII capitals taken to lower case, as a code point.
pub open spec fn fold_case(c: char) -> u32 {
    if 'A' <= c && c <= 'Z' {
        (c as u32 + 32) as u32
    } else {
        c as u32
    }
}

/// `key` spells the lower-case `word`, ignoring the case of ASCII letters.
pub open spec fn key_is(key: Seq<char>, word: Seq<char>) -> bool {
    &&& key.len() == word.len()
    &&& forall|i: int| 0 <= i < key.len() ==> fold_case(#[trigger] key[i]) == word[i] as u32
}

/// The field that a key names, if it is a recognized one.
pub open spec fn field_of(key: Seq<char>) -> Option<Field> {
    if key_is(key, "name"@) {
        Some(Field::Name)
    } else if key_is(key, "base"@) {
        Some(Field::Base)
    } else if key_is(key, "filename"@) {
        Some(Field::Filename)
    } else if key_is(key, "version"@) {
        Some(Field::Version)
    } else if key_is(key, "desc"@) {
        Some(Field::Desc)
    } else if key_is(key, "url"@) {
        Some(Field::Url)
    } else if key_is(key, "csize"@) {
        Some(Field::CSize)
    } else if key_is(key, "isize"@) {
        Some(Field::ISize)
    } else if key_is(key, "arch"@) {
        Some(Field::Arch)
    } else if key_is(key, "md5sum"@) {
        Some(Field::Md5Sum)
    } else if key_is(key, "sha256sum"@) {
        Some(Field::Sha256Sum)
    } else if key_is(key, "pgpsig"@) {
        Some(Field::PgpSig)
    } else if key_is(key, "builddate"@) {
        Some(Field::BuildDate)
    } else if key_is(key, "packager"@) {
        Some(Field::Packager)
    } else if key_is(key, "license"@) {
        Some(Field::License)
    } else if key_is(key, "provides"@) {
        Some(Field::Provides)
    } else if key_is(key, "depends"@) {
        Some(Field::Depends)
    } else if key_is(key, "makedepends"@) {
        Some(Field::MakeDepends)
    } else if key_is(key, "optionaldepends"@) {
        Some(Field::OptionalDepends)
    } else if key_is(key, "checkdepends"@) {
        Some(Field::CheckDepends)
    } else {
        None
    }
}

pub open spec fn is_digit(c: char) -> bool {
    '0' <= c && c <= '9'
}

/// The value of a string of decimal digits.
pub open spec fn digits_value(d: Seq<char>) -> int
    decreases d.len(),
{
    if d.len() == 0 {
        0
    } else {
        digits_value(d.drop_last()) * 10 + (d.last() as u32 - '0' as u32)
    }
}

/// The text after an optional leading `+`.
pub open spec fn unsigned_digits(s: Seq<char>) -> Seq<char> {
    if s.len() > 0 && s[0] == '+' {
        s.drop_first()
    } else {
        s
    }
}

/// The unsigned 64-bit integer that a text spells: an optional `+`, then one
/// or more decimal digits whose value fits.
pub open spec fn u64_value(s: Seq<char>) -> Option<u64> {
    let d = unsigned_digits(s);
    if d.len() > 0 && (forall|i: int| 0 <= i < d.len() ==> is_digit(#[trigger] d[i]))
        && digits_value(d) <= u64::MAX {
        Some(digits_value(d) as u64)
    } else {
        None
    }
}

/// Relies on `str::parse::<u64>`: it accepts exactly an optional `+` followed
/// by decimal digits whose value fits in a `u64`, and returns that value.
#[verifier::external_body]
fn parse_u64(s: &str) -> (r: Option<u64>)
    ensures
        r == u64_value(s@),
{
    s.parse::<u64>().ok()
}

/// Why building a record stopped.
pub enum Fault {
    PropertyMissing(Seq<char>),
    ParseSize,
}

/// `e` reports the failure `f`.
pub open spec fn error_is(e: Error, f: Fault) -> bool {
    match f {
        Fault::PropertyMissing(k) => e matches Error::PackagePropertyMissing(n) && n@ == k,
        Fault::ParseSize => e is PackageParseSize,
    }
}

/// The record `p` with field `f` filled from the non-empty values `vs`: a
/// text field takes the first value, a size the integer that it spells, a
/// list all of them.
pub open spec fn set_field(p: PackageModel, f: Field, vs: Seq<Seq<char>>) -> core::result::Result<PackageModel, Fault> {
    match f {
        Field::Name => Ok(PackageModel { name: vs[0], ..p }),
        Field::Base => Ok(PackageModel { base: vs[0], ..p }),
        Field::Filename => Ok(PackageModel { filename: vs[0], ..p }),
        Field::Version => Ok(PackageModel { version: vs[0], ..p }),
        Field::Desc => Ok(PackageModel { desc: vs[0], ..p }),
        Field::Url => Ok(PackageModel { url: vs[0], ..p }),
        Field::CSize => match u64_value(vs[0]) {
            Some(n) => Ok(PackageModel { size: n, ..p }),
            None => Err(Fault::ParseSize),
        },
        Field::ISize => match u64_value(vs[0]) {
            Some(n) => Ok(PackageModel { isize: n, ..p }),
            None => Err(Fault::ParseSize),
        },
        Field::Arch => Ok(PackageModel { arch: vs[0], ..p }),
        Field::Md5Sum => Ok(PackageModel { md5sum: vs[0], ..p }),
        Field::Sha256Sum => Ok(PackageModel { sha256sum: vs[0], ..p }),
        Field::PgpSig => Ok(PackageModel { pgpsig: vs[0], ..p }),
        Field::BuildDate => Ok(PackageModel { build_date: vs[0], ..p }),
        Field::Packager => Ok(PackageModel { packager: vs[0], ..p }),
        Field::License => Ok(PackageModel { licenses: vs, ..p }),
        Field::Provides => Ok(PackageModel { provides: vs, ..p }),
        Field::Depends => Ok(PackageModel { depends: vs, ..p }),
        Field::MakeDepends => Ok(PackageModel { make_depends: vs, ..p }),
        Field::OptionalDepends => Ok(PackageModel { optional_depends: vs, ..p }),
        Field::CheckDepends => Ok(PackageModel { check_depends: vs, ..p }),
    }
}

/// One token applied to the record `p`.
pub open spec fn apply_token(p: PackageModel, tok: TokenModel) -> core::result::Result<PackageModel, Fault> {
    match field_of(tok.0) {
        None => Err(Fault::PropertyMissing(tok.0)),
        Some(f) => if tok.1.len() == 0 {
            Ok(p)
        } else {
            set_field(p, f, tok.1)
        },
    }
}

/// The tokens applied in order to `p`, stopping at the first failure.
pub open spec fn build_from(p: PackageModel, toks: Seq<TokenModel>) -> core::result::Result<PackageModel, Fault>
    decreases toks.len(),
{
    if toks.len() == 0 {
        Ok(p)
    } else {
        match apply_token(p, toks[0]) {
            Ok(q) => build_from(q, toks.drop_first()),
            Err(e) => Err(e),
        }
    }
}

/// The record that a text describes.
pub open spec fn parse_package(t: Seq<char>) -> core::result::Result<PackageModel, Fault> {
    build_from(empty_model(), tokens(t))
}

fn key_is_word(key: &Vec<char>, word: &str) -> (r: bool)
    ensures
        r == key_is(key@, word@),
{
    let w = chars_of(word);
    if key.len() != w.len() {
        return false;
    }
    let mut i: usize = 0;
    while i < key.len()
        invariant
            i <= key.len() == w.len(),
            w@ == word@,
            forall|j: int| 0 <= j < i ==> fold_case(#[trigger] key@[j]) == w@[j] as u32,
        decreases key.len() - i,
    {
        let c = key[i];
        let folded: u32 = if 'A' <= c && c <= 'Z' { c as u32 + 32 } else { c as u32 };
        if folded != w[i] as u32 {
            return false;
        }
        i += 1;
    }
    true
}

fn field_for(key: &Vec<char>) -> (r: Option<Field>)
    ensures
        r == field_of(key@),
{
    if key_is_word(key, "name") {
        Some(Field::Name)
    } else if key_is_word(key, "base") {
        Some(Field::Base)
    } else if key_is_word(key, "filename") {
        Some(Field::Filename)
    } else if key_is_word(key, "version") {
        Some(Field::Version)
    } else if key_is_word(key, "desc") {
        Some(Field::Desc)
    } else if key_is_word(key, "url") {
        Some(Field::Url)
    } else if key_is_word(key, "csize") {
        Some(Field::CSize)
    } else if key_is_word(key, "isize") {
        Some(Field::ISize)
    } else if key_is_word(key, "arch") {
        Some(Field::Arch)
    } else if key_is_word(key, "md5sum") {
        Some(Field::Md5Sum)
    } else if key_is_word(key, "sha256sum") {
        Some(Field::Sha256Sum)
    } else if key_is_word(key, "pgpsig") {
        Some(Field::PgpSig)
    } else if key_is_word(key, "builddate") {
        Some(Field::BuildDate)
    } else if key_is_word(key, "packager") {
        Some(Field::Packager)
    } else if key_is_word(key, "license") {
        Some(Field::License)
    } else if key_is_word(key, "provides") {
        Some(Field::Provides)
    } else if key_is_word(key, "depends") {
        Some(Field::Depends)
    } else if key_is_word(key, "makedepends") {
        Some(Field::MakeDepends)
    } else if key_is_word(key, "optionaldepends") {
        Some(Field::OptionalDepends)
    } else if key_is_word(key, "checkdepends") {
        Some(Field::CheckDepends)
    } else {
        None
    }
}

impl Package {
    fn apply(&mut self, tok: Token) -> (r: Result<()>)
        ensures
            match apply_token(old(self)@, tok.model()) {
                Ok(m) => r is Ok && final(self)@ == m,
                Err(f) => r matches Err(e) && error_is(e, f),
            },
    {
        let key = chars_of(tok.name.as_str());
        let field = match field_for(&key) {
            Some(f) => f,
            None => return Err(Error::PackagePropertyMissing(tok.name)),
        };
        let mut values = tok.values;
        if values.len() == 0 {
            return Ok(());
        }
        let ghost vs = strings_view(values);
        assert(vs[0] == values@[0]@);
        match field {
            Field::Name => self.name = values.remove(0),
            Field::Base => self.base = values.remove(0),
            Field::Filename => self.filename = values.remove(0),
            Field::Version => self.version = values.remove(0),
            Field::Desc => self.desc = values.remove(0),
            Field::Url => self.url = values.remove(0),
            Field::CSize => match parse_u64(values[0].as_str()) {
                Some(n) => self.size = n,
                None => return Err(Error::PackageParseSize),
            },
            Field::ISize => match parse_u64(values[0].as_str()) {
                Some(n) => self.isize = n,
                None => return Err(Error::PackageParseSize),
            },
            Field::Arch => self.arch = values.remove(0),
            Field::Md5Sum => self.md5sum = values.remove(0),
            Field::Sha256Sum => self.sha256sum = values.remove(0),
            Field::PgpSig => self.pgpsig = values.remove(0),
            Field::BuildDate => self.build_date = values.remove(0),
            Field::Packager => self.packager = values.remove(0),
            Field::License => self.licenses = values,
            Field::Provides => self.provides = values,
            Field::Depends => self.depends = values,
            Field::MakeDepends => self.make_depends = values,
            Field::OptionalDepends => self.optional_depends = values,
            Field::CheckDepends => self.check_depends = values,
        }
        Ok(())
    }

    /// Builds a record from a text: its tokens, applied in order to the empty
    /// record.
    pub fn try_from(data: &str) -> (r: Result<Package>)
        ensures
            match parse_package(data@) {
                Ok(m) => r matches Ok(p) && p@ == m,
                Err(f) => r matches Err(e) && error_is(e, f),
            },
    {
        let mut pkg = Package::default();
        let mut tokens = Tokenizer::from(data);
        loop
            invariant
                tokens.wf(),
                parse_package(data@) == build_from(pkg@, tokens.remaining()),
            decreases tokens.remaining().len(),
        {
            let ghost before = tokens.remaining();
            match tokens.next() {
                None => return Ok(pkg),
                Some(tok) => {
                    assert(before.drop_first() == tokens.remaining());
                    pkg.apply(tok)?;
                },
            }
        }
    }
}

/// The text of one block with a single value: `%key%`, a line feed, the
/// value, a line feed.
pub open spec fn block_text(key: Seq<char>, v: Seq<char>) -> Seq<char> {
    seq!['%'] + key + seq!['%', '\n'] + v + seq!['\n']
}

proof fn lemma_line_end_at(t: Seq<char>, p: int, e: int)
    requires
        0 <= p <= e < t.len(),
        t[e] == '\n',
        forall|i: int| p <= i < e ==> t[i] != '\n',
    ensures
        line_end(t, p) == e,
    decreases e - p,
{
    if p < e {
        lemma_line_end_at(t, p + 1, e);
    }
}

/// A text made of one single-value block builds the empty record with only
/// the key's field filled from that value (for a size, the integer that it
/// spells).
pub proof fn law_single_block(key: Seq<char>, v: Seq<char>)
    requires
        key.len() > 0,
        forall|i: int| 0 <= i < key.len() ==> is_key_char(#[trigger] key[i]),
        field_of(key) is Some,
        !is_blank(v),
        forall|i: int| 0 <= i < v.len() ==> #[trigger] v[i] != '\n',
        v.len() > 0 ==> v.last() != '\r',
    ensures
        tokens(block_text(key, v)) == seq![(key, seq![v])],
        parse_package(block_text(key, v)) == set_field(empty_model(), field_of(key)->0, seq![v]),
{
    let t = block_text(key, v);
    let k = key.len() as int;
    let n = t.len() as int;
    assert(n == k + v.len() + 4);
    assert(t[0] == '%');
    assert(skip_space(t, 0) == 0);
    assert forall|i: int| 0 <= i < k + 2 implies t[i] != '\n' by {
        if 1 <= i <= k {
            assert(t[i] == key[i - 1]);
        }
    }
    lemma_line_end_at(t, 0, k + 2);
    let h = line_at(t, 0);
    assert(h =~= seq!['%'] + key + seq!['%']);
    assert(is_header(h)) by {
        assert forall|i: int| 1 <= i < h.len() - 1 implies is_key_char(#[trigger] h[i]) by {
            assert(h[i] == key[i - 1]);
        }
    }
    assert(header_key(h) =~= key);
    let a = k + 3;
    assert forall|i: int| a <= i < n - 1 implies t[i] != '\n' by {
        assert(t[i] == v[i - a]);
    }
    lemma_line_end_at(t, a, n - 1);
    assert(line_at(t, a) =~= v);
    assert(line_end(t, n) == n);
    assert(value_run(t, n) == (Seq::<Seq<char>>::empty(), n));
    assert(value_run(t, a) == (seq![v], n)) by {
        assert(seq![v] + Seq::<Seq<char>>::empty() =~= seq![v]);
    }
    lemma_tokens_at_end(t);
    assert(tokens(t) =~= seq![(key, seq![v])]);
    let toks = seq![(key, seq![v])];
    assert(toks.drop_first() =~= Seq::<TokenModel>::empty());
    reveal_with_fuel(build_from, 2);
}

/// The list that field `f` holds in a record; empty for a field that is no list.
pub open spec fn list_field(m: PackageModel, f: Field) -> Seq<Seq<char>> {
    match f {
        Field::License => m.licenses,
        Field::Provides => m.provides,
        Field::Depends => m.depends,
        Field::MakeDepends => m.make_depends,
        Field::OptionalDepends => m.optional_depends,
        Field::CheckDepends => m.check_depends,
        _ => seq![],
    }
}

pub open spec fn is_list_field(f: Field) -> bool {
    f is License || f is Provides || f is Depends || f is MakeDepends || f is OptionalDepends
        || f is CheckDepends
}

/// A list key's token fills the list with all its values in order, and a
/// second token of the same key replaces that list rather than adding to it.
pub proof fn law_list_values_replace(
    p: PackageModel,
    key: Seq<char>,
    first: Seq<Seq<char>>,
    second: Seq<Seq<char>>,
)
    requires
        field_of(key) matches Some(f) && is_list_field(f),
        first.len() > 0,
        second.len() > 0,
    ensures
        build_from(p, seq![(key, first)]) matches Ok(q) && list_field(q, field_of(key)->0)
            == first,
        build_from(p, seq![(key, first), (key, second)]) matches Ok(q) && list_field(
            q,
            field_of(key)->0,
        ) == second,
{
    let one = seq![(key, first)];
    let two = seq![(key, first), (key, second)];
    assert(one.drop_first() =~= Seq::<TokenModel>::empty());
    assert(two.drop_first() =~= seq![(key, second)]);
    assert(two.drop_first().drop_first() =~= Seq::<TokenModel>::empty());
    reveal_with_fuel(build_from, 3);
}

/// The size that field `f` holds in a record; zero for a field that is no size.
pub open spec fn size_field(m: PackageModel, f: Field) -> u64 {
    match f {
        Field::CSize => m.size,
        Field::ISize => m.isize,
        _ => 0,
    }
}

/// A size key's token is accepted exactly when its first value spells an
/// unsigned 64-bit integer, which the size then holds; otherwise building
/// fails with the size error.
pub proof fn law_size_value(p: PackageModel, key: Seq<char>, vs: Seq<Seq<char>>)
    requires
        field_of(key) matches Some(f) && (f is CSize || f is ISize),
        vs.len() > 0,
    ensures
        u64_value(vs[0]) is None ==> build_from(p, seq![(key, vs)]) == Err::<PackageModel, Fault>(
            Fault::ParseSize,
        ),
        u64_value(vs[0]) matches Some(n) ==> build_from(p, seq![(key, vs)]) matches Ok(q)
            && size_field(q, field_of(key)->0) == n,
{
    let one = seq![(key, vs)];
    assert(one.drop_first() =~= Seq::<TokenModel>::empty());
    reveal_with_fuel(build_from, 2);
}

/// An unrecognized key stops the building at its token, whatever its
/// position, with the property error that holds that key as written.
pub proof fn law_unknown_key(p: PackageModel, toks: Seq<TokenModel>, i: int)
    requires
        0 <= i < toks.len(),
        field_of(toks[i].0) is None,
        build_from(p, toks.take(i)) is Ok,
    ensures
        build_from(p, toks) == Err::<PackageModel, Fault>(Fault::PropertyMissing(toks[i].0)),
    decreases i,
{
    if i > 0 {
        assert(toks.take(i)[0] == toks[0]);
        assert(toks.take(i).drop_first() =~= toks.drop_first().take(i - 1));
        let q = apply_token(p, toks[0])->Ok_0;
        law_unknown_key(q, toks.drop_first(), i - 1);
    }
}

} // verus!
