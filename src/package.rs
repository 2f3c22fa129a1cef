//! The typed package record and its mathematical model.

use vstd::prelude::*;

verus! {

/// One package's metadata, as read from its descriptive record.
#[derive(Debug, Clone, PartialEq, Eq)]
pub struct Package {
    pub name: String,
    pub base: String,
    pub filename: String,
    pub version: String,
    pub desc: String,
    pub url: String,
    pub size: u64,
    pub isize: u64,
    pub arch: String,
    pub md5sum: String,
    pub sha256sum: String,
    pub pgpsig: String,
    pub build_date: String,
    pub packager: String,
    pub licenses: Vec<String>,
    pub provides: Vec<String>,
    pub depends: Vec<String>,
    pub make_depends: Vec<String>,
    pub optional_depends: Vec<String>,
    pub check_depends: Vec<String>,
}

/// The model of a [`Package`]: each text as its characters, each list as a
/// sequence of those.
pub struct PackageModel {
    pub name: Seq<char>,
    pub base: Seq<char>,
    pub filename: Seq<char>,
    pub version: Seq<char>,
    pub desc: Seq<char>,
    pub url: Seq<char>,
    pub size: u64,
    pub isize: u64,
    pub arch: Seq<char>,
    pub md5sum: Seq<char>,
    pub sha256sum: Seq<char>,
    pub pgpsig: Seq<char>,
    pub build_date: Seq<char>,
    pub packager: Seq<char>,
    pub licenses: Seq<Seq<char>>,
    pub provides: Seq<Seq<char>>,
    pub depends: Seq<Seq<char>>,
    pub make_depends: Seq<Seq<char>>,
    pub optional_depends: Seq<Seq<char>>,
    pub check_depends: Seq<Seq<char>>,
}

/// The characters of each string of a list, in order.
pub open spec fn strings_view(v: Vec<String>) -> Seq<Seq<char>> {
    v@.map_values(|s: String| s@)
}

impl View for Package {
    type V = PackageModel;

    open spec fn view(&self) -> PackageModel {
        PackageModel {
            name: self.name@,
            base: self.base@,
            filename: self.filename@,
            version: self.version@,
            desc: self.desc@,
            url: self.url@,
            size: self.size,
            isize: self.isize,
            arch: self.arch@,
            md5sum: self.md5sum@,
            sha256sum: self.sha256sum@,
            pgpsig: self.pgpsig@,
            build_date: self.build_date@,
            packager: self.packager@,
            licenses: strings_view(self.licenses),
            provides: strings_view(self.provides),
            depends: strings_view(self.depends),
            make_depends: strings_view(self.make_depends),
            optional_depends: strings_view(self.optional_depends),
            check_depends: strings_view(self.check_depends),
        }
    }
}

/// The record with every text and list empty and both sizes zero.
pub open spec fn empty_model() -> PackageModel {
    PackageModel {
        name: seq![],
        base: seq![],
        filename: seq![],
        version: seq![],
        desc: seq![],
        url: seq![],
        size: 0,
        isize: 0,
        arch: seq![],
        md5sum: seq![],
        sha256sum: seq![],
        pgpsig: seq![],
        build_date: seq![],
        packager: seq![],
        licenses: seq![],
        provides: seq![],
        depends: seq![],
        make_depends: seq![],
        optional_depends: seq![],
        check_depends: seq![],
    }
}

impl Default for Package {
    fn default() -> (r: Package)
        ensures
            r@ == empty_model(),
    {
        let r = Package {
            name: String::new(),
            base: String::new(),
            filename: String::new(),
            version: String::new(),
            desc: String::new(),
            url: String::new(),
            size: 0,
            isize: 0,
            arch: String::new(),
            md5sum: String::new(),
            sha256sum: String::new(),
            pgpsig: String::new(),
            build_date: String::new(),
            packager: String::new(),
            licenses: Vec::new(),
            provides: Vec::new(),
            depends: Vec::new(),
            make_depends: Vec::new(),
            optional_depends: Vec::new(),
            check_depends: Vec::new(),
        };
        assert(strings_view(r.licenses) =~= seq![]);
        assert(strings_view(r.provides) =~= seq![]);
        assert(strings_view(r.depends) =~= seq![]);
        assert(strings_view(r.make_depends) =~= seq![]);
        assert(strings_view(r.optional_depends) =~= seq![]);
        assert(strings_view(r.check_depends) =~= seq![]);
        r
    }
}

} // verus!
