//! The analysis record of one input item and its sub-records.
use vstd::prelude::*;

use crate::text::{last_path_segment, last_segment};

verus! {

/// The character sequences of a list of strings.
pub open spec fn strs_view(v: Seq<String>) -> Seq<Seq<char>> {
    v.map_values(|s: String| s@)
}

/// The character sequence of an optional string.
pub open spec fn opt_view(o: Option<String>) -> Option<Seq<char>> {
    match o {
        Some(s) => Some(s@),
        None => None,
    }
}

/// One imported symbol: its library and its name.
pub struct ImportInfo {
    pub lib: String,
    pub name: String,
}

pub struct ImportView {
    pub lib: Seq<char>,
    pub name: Seq<char>,
}

impl View for ImportInfo {
    type V = ImportView;

    open spec fn view(&self) -> ImportView {
        ImportView { lib: self.lib@, name: self.name@ }
    }
}

/// A section, a segment, or the descriptor of an extracted signature.
/// `entropy` is the decimal text that the analysis tool reported.
pub struct BlockInfo {
    pub name: String,
    pub size: u64,
    pub ssdeep: Option<String>,
    pub entropy: Option<String>,
}

pub struct BlockView {
    pub name: Seq<char>,
    pub size: u64,
    pub ssdeep: Option<Seq<char>>,
    pub entropy: Option<Seq<char>>,
}

impl View for BlockInfo {
    type V = BlockView;

    open spec fn view(&self) -> BlockView {
        BlockView {
            name: self.name@,
            size: self.size,
            ssdeep: opt_view(self.ssdeep),
            entropy: opt_view(self.entropy),
        }
    }
}

/// One extracted function signature: a byte pattern and a mask of the same
/// length, in which `'0'` marks a position that is not significant.
pub struct Zignature {
    pub function: BlockInfo,
    pub bytes: String,
    pub mask: String,
    pub bbsum: u64,
    pub addr: u64,
    pub n_vars: u64,
}

pub struct ZignatureView {
    pub function: BlockView,
    pub bytes: Seq<char>,
    pub mask: Seq<char>,
    pub bbsum: u64,
    pub addr: u64,
    pub n_vars: u64,
}

impl View for Zignature {
    type V = ZignatureView;

    open spec fn view(&self) -> ZignatureView {
        ZignatureView {
            function: self.function@,
            bytes: self.bytes@,
            mask: self.mask@,
            bbsum: self.bbsum,
            addr: self.addr,
            n_vars: self.n_vars,
        }
    }
}

/// The analysis record of one input item. Each analysis step fills its own
/// fields; `error` collects a tag for each step that failed.
pub struct FileInfo {
    pub path: String,
    pub error: Vec<String>,
    pub name: String,
    pub sha256: String,
    pub magic: Vec<String>,
    pub arch: String,
    pub size: u64,
    pub format: String,
    pub bintype: String,
    pub compiler: String,
    pub lang: String,
    pub machine: String,
    pub os: String,
    pub strings: Vec<String>,
    pub imports: Vec<ImportInfo>,
    pub sections: Vec<BlockInfo>,
    pub segments: Vec<BlockInfo>,
    pub links: Vec<String>,
    pub zignatures: Vec<Zignature>,
    pub yara: String,
}

pub struct FileInfoView {
    pub path: Seq<char>,
    pub error: Seq<Seq<char>>,
    pub name: Seq<char>,
    pub sha256: Seq<char>,
    pub magic: Seq<Seq<char>>,
    pub arch: Seq<char>,
    pub size: u64,
    pub format: Seq<char>,
    pub bintype: Seq<char>,
    pub compiler: Seq<char>,
    pub lang: Seq<char>,
    pub machine: Seq<char>,
    pub os: Seq<char>,
    pub strings: Seq<Seq<char>>,
    pub imports: Seq<ImportView>,
    pub sections: Seq<BlockView>,
    pub segments: Seq<BlockView>,
    pub links: Seq<Seq<char>>,
    pub zignatures: Seq<ZignatureView>,
    pub yara: Seq<char>,
}

impl View for FileInfo {
    type V = FileInfoView;

    open spec fn view(&self) -> FileInfoView {
        FileInfoView {
            path: self.path@,
            error: strs_view(self.error@),
            name: self.name@,
            sha256: self.sha256@,
            magic: strs_view(self.magic@),
            arch: self.arch@,
            size: self.size,
            format: self.format@,
            bintype: self.bintype@,
            compiler: self.compiler@,
            lang: self.lang@,
            machine: self.machine@,
            os: self.os@,
            strings: strs_view(self.strings@),
            imports: self.imports@.map_values(|i: ImportInfo| i@),
            sections: self.sections@.map_values(|b: BlockInfo| b@),
            segments: self.segments@.map_values(|b: BlockInfo| b@),
            links: strs_view(self.links@),
            zignatures: self.zignatures@.map_values(|z: Zignature| z@),
            yara: self.yara@,
        }
    }
}

/// A record for `path` whose analysis has not started: named after the
/// path's final segment, every other field empty.
pub open spec fn fresh_record(path: Seq<char>) -> FileInfoView {
    FileInfoView {
        path: path,
        error: Seq::empty(),
        name: last_segment(path),
        sha256: Seq::empty(),
        magic: Seq::empty(),
        arch: Seq::empty(),
        size: 0,
        format: Seq::empty(),
        bintype: Seq::empty(),
        compiler: Seq::empty(),
        lang: Seq::empty(),
        machine: Seq::empty(),
        os: Seq::empty(),
        strings: Seq::empty(),
        imports: Seq::empty(),
        sections: Seq::empty(),
        segments: Seq::empty(),
        links: Seq::empty(),
        zignatures: Seq::empty(),
        yara: Seq::empty(),
    }
}

impl FileInfo {
    /// A fresh record for the item at `path`.
    pub fn new(path: String) -> (r: FileInfo)
        ensures
            r@ == fresh_record(path@),
    {
        let name = last_path_segment(path.as_str());
        let r = FileInfo {
            path,
            error: Vec::new(),
            name,
            sha256: String::new(),
            magic: Vec::new(),
            arch: String::new(),
            size: 0,
            format: String::new(),
            bintype: String::new(),
            compiler: String::new(),
            lang: String::new(),
            machine: String::new(),
            os: String::new(),
            strings: Vec::new(),
            imports: Vec::new(),
            sections: Vec::new(),
            segments: Vec::new(),
            links: Vec::new(),
            zignatures: Vec::new(),
            yara: String::new(),
        };
        proof {
            assert(strs_view(r.error@) =~= Seq::empty());
            assert(strs_view(r.magic@) =~= Seq::empty());
            assert(strs_view(r.strings@) =~= Seq::empty());
            assert(strs_view(r.links@) =~= Seq::empty());
            assert(r.imports@.map_values(|i: ImportInfo| i@) =~= Seq::empty());
            assert(r.sections@.map_values(|b: BlockInfo| b@) =~= Seq::empty());
            assert(r.segments@.map_values(|b: BlockInfo| b@) =~= Seq::empty());
            assert(r.zignatures@.map_values(|z: Zignature| z@) =~= Seq::empty());
        }
        r
    }

    /// Appends an error tag; the other fields are left as they were.
    pub fn push_error(&mut self, tag: &str)
        ensures
            final(self)@ == (FileInfoView {
                error: old(self)@.error.push(tag@),
                ..old(self)@
            }),
    {
        self.error.push(tag.to_string());
        proof {
            assert(strs_view(self.error@) =~= strs_view(old(self).error@).push(tag@));
        }
    }
}

} // verus!
