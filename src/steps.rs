//! The analysis steps: each reads the analysis tool's reply to one query
//! and fills its own fields of the record, or adds an error tag when the
//! reply is missing or has the wrong shape.
use vstd::prelude::*;
use vstd::utf8::{decode_utf8, encode_utf8, valid_utf8};

use crate::json::{member, member_of, text, text_of, unsigned, unsigned_of, Json};
use crate::mapper::{lemma_map_push, masks_match};
use crate::record::{
    opt_view,
    strs_view,
    BlockInfo,
    BlockView,
    FileInfo,
    FileInfoView,
    ImportInfo,
    ImportView,
    Zignature,
    ZignatureView,
};
use crate::text::{chars_of, string_of, remove_all, trim_text, trim_zero_pairs, trimmed, utf8_text, without, without_zero_pairs};

verus! {

/// What the pattern-matching step records when its tool gave no usable output.
pub const YARA_FAILED: &'static str = "yara processing error";

/// The value of a hexadecimal digit, either case.
pub open spec fn hex_digit(c: char) -> Option<u8> {
    let v = c as u32;
    if 0x30 <= v <= 0x39 {
        Some((v - 0x30) as u8)
    } else if 0x61 <= v <= 0x66 {
        Some((v - 0x61 + 10) as u8)
    } else if 0x41 <= v <= 0x46 {
        Some((v - 0x41 + 10) as u8)
    } else {
        None
    }
}

/// The bytes that a text of hexadecimal digit pairs denotes; `None` when the
/// text has odd length or a character that is no hexadecimal digit.
pub open spec fn hex_decoded(s: Seq<char>) -> Option<Seq<u8>> {
    if s.len() % 2 == 0 && forall|i: int| 0 <= i < s.len() ==> #[trigger] hex_digit(s[i]) is Some {
        Some(
            Seq::new(
                s.len() / 2,
                |k: int| (16 * hex_digit(s[2 * k])->0 + hex_digit(s[2 * k + 1])->0) as u8,
            ),
        )
    } else {
        None
    }
}

/// Relies on `hex::decode`: the bytes of the hexadecimal digit pairs of
/// `s`, either case; an error for odd length or a non-digit character.
#[verifier::external_body]
fn hex_decode(s: &str) -> (r: Option<Vec<u8>>)
    ensures
        match r {
            Some(b) => hex_decoded(s@) == Some(b@),
            None => hex_decoded(s@) is None,
        },
{
    hex::decode(s).ok()
}

/// A fuzzy-hash digest as the tool reports it: hex-encoded text padded with
/// zero bytes. The padding is dropped; `None` when what is left does not
/// decode to UTF-8 text.
pub open spec fn digest_of(reported: Seq<char>) -> Option<Seq<char>> {
    match hex_decoded(without_zero_pairs(reported)) {
        Some(b) => if valid_utf8(b) {
            Some(decode_utf8(b))
        } else {
            None
        },
        None => None,
    }
}

/// A reported text, `None` when it is empty.
pub open spec fn present(t: Seq<char>) -> Option<Seq<char>> {
    if t.len() == 0 {
        None
    } else {
        Some(t)
    }
}

/// Decodes a reported fuzzy-hash digest.
pub fn digest(reported: &str) -> (r: Option<String>)
    ensures
        opt_view(r) == digest_of(reported@),
{
    let t = trim_zero_pairs(reported);
    match hex_decode(t.as_str()) {
        Some(b) => utf8_text(b),
        None => None,
    }
}

fn present_text(t: String) -> (r: Option<String>)
    ensures
        opt_view(r) == present(t@),
{
    if t.as_str().is_empty() {
        None
    } else {
        Some(t)
    }
}

/// The section or segment that an entry of the tool's listing describes:
/// `None` when its name is empty or its size is no unsigned integer.
pub open spec fn block_of(j: Json) -> Option<BlockView> {
    let name = text(member(j, "name"@));
    if name.len() == 0 {
        None
    } else {
        match unsigned(member(j, "size"@)) {
            Some(size) => Some(
                BlockView {
                    name,
                    size,
                    ssdeep: digest_of(text(member(j, "ssdeep"@))),
                    entropy: present(text(member(j, "entropy"@))),
                },
            ),
            None => None,
        }
    }
}

/// The sections or segments of a listing, skipping entries that describe none.
pub open spec fn blocks_of(items: Seq<Json>) -> Seq<BlockView>
    decreases items.len(),
{
    if items.len() == 0 {
        Seq::empty()
    } else {
        let rest = blocks_of(items.drop_last());
        match block_of(items.last()) {
            Some(b) => rest.push(b),
            None => rest,
        }
    }
}

fn block_from(j: &Json) -> (r: Option<BlockInfo>)
    ensures
        match r {
            Some(b) => block_of(*j) == Some(b@),
            None => block_of(*j) is None,
        },
{
    let name = text_of(j.member("name"));
    if name.as_str().is_empty() {
        return None;
    }
    match unsigned_of(j.member("size")) {
        Some(size) => {
            let ssdeep = digest(text_of(j.member("ssdeep")).as_str());
            let entropy = present_text(text_of(j.member("entropy")));
            Some(BlockInfo { name, size, ssdeep, entropy })
        },
        None => None,
    }
}

fn blocks_from(items: &Vec<Json>, out: &mut Vec<BlockInfo>)
    ensures
        final(out)@.map_values(|b: BlockInfo| b@) == old(out)@.map_values(|b: BlockInfo| b@)
            + blocks_of(items@),
{
    let ghost start = out@.map_values(|b: BlockInfo| b@);
    let mut k: usize = 0;
    assert(start + blocks_of(items@.take(0)) =~= start);
    while k < items.len()
        invariant
            k <= items@.len(),
            start == old(out)@.map_values(|b: BlockInfo| b@),
            out@.map_values(|b: BlockInfo| b@) == start + blocks_of(items@.take(k as int)),
        decreases items.len() - k,
    {
        assert(items@.take(k + 1).drop_last() == items@.take(k as int));
        let ghost prev = out@;
        match block_from(&items[k]) {
            Some(b) => {
                out.push(b);
                proof {
                    lemma_map_push(prev, b, |b: BlockInfo| b@);
                }
                assert(out@.map_values(|b: BlockInfo| b@) =~= start + blocks_of(items@.take(k + 1)));
            },
            None => {},
        }
        k = k + 1;
    }
    assert(items@.take(items@.len() as int) == items@);
}

/// The number of bytes in the UTF-8 encoding of `t`, as `str::len` gives it.
pub open spec fn byte_len(t: Seq<char>) -> u64 {
    (encode_utf8(t).len() as usize) as u64
}

/// A mask brought to length `n`: cut when longer, padded with `'0'`
/// (not significant) when shorter.
pub open spec fn fitted_mask(mask: Seq<char>, n: nat) -> Seq<char> {
    Seq::new(
        n,
        |i: int|
            if i < mask.len() {
                mask[i]
            } else {
                '0'
            },
    )
}

/// Brings `mask` to the length of `bytes`.
pub fn fit_mask(mask: &str, bytes: &str) -> (r: String)
    ensures
        r@ == fitted_mask(mask@, bytes@.len()),
{
    let m = chars_of(mask);
    let n = bytes.unicode_len();
    let mut out: Vec<char> = Vec::new();
    let mut k: usize = 0;
    while k < n
        invariant
            m@ == mask@,
            n == bytes@.len(),
            k <= n,
            out@ == fitted_mask(mask@, bytes@.len()).take(k as int),
        decreases n - k,
    {
        if k < m.len() {
            out.push(m[k]);
        } else {
            out.push('0');
        }
        assert(out@ =~= fitted_mask(mask@, bytes@.len()).take(k + 1));
        k = k + 1;
    }
    assert(out@ =~= fitted_mask(mask@, bytes@.len()));
    string_of(out.as_slice())
}

/// The extracted signature that an entry of the tool's listing describes,
/// before its digests are queried. Its size is the byte length of the
/// pattern's text (two hexadecimal digits per byte); its mask is brought to
/// the pattern's length; missing numbers count as 0.
pub open spec fn signature_of(z: Json) -> ZignatureView {
    let bytes = text(member(z, "bytes"@));
    ZignatureView {
        function: BlockView {
            name: text(member(z, "name"@)),
            size: byte_len(bytes),
            ssdeep: None,
            entropy: None,
        },
        bytes,
        mask: fitted_mask(text(member(z, "mask"@)), bytes.len()),
        bbsum: match unsigned(member(member(z, "graph"@), "bbsum"@)) {
            Some(n) => n,
            None => 0,
        },
        addr: match unsigned(member(z, "addr"@)) {
            Some(n) => n,
            None => 0,
        },
        n_vars: match member(z, "vars"@) {
            Json::Array(v) => v@.len() as u64,
            _ => 0,
        },
    }
}

fn signature_from(z: &Json) -> (r: Zignature)
    ensures
        r@ == signature_of(*z),
{
    let bytes = text_of(z.member("bytes"));
    let size = bytes.as_str().len() as u64;
    let bbsum = match unsigned_of(member_of(z.member("graph"), "bbsum")) {
        Some(n) => n,
        None => 0,
    };
    let addr = match unsigned_of(z.member("addr")) {
        Some(n) => n,
        None => 0,
    };
    let n_vars = match z.member("vars") {
        Some(Json::Array(v)) => v.len() as u64,
        _ => 0,
    };
    let mask = fit_mask(text_of(z.member("mask")).as_str(), bytes.as_str());
    let function = BlockInfo { name: text_of(z.member("name")), size, ssdeep: None, entropy: None };
    Zignature { function, bytes, mask, bbsum, addr, n_vars }
}

/// The signatures of a listing, one per element, in order.
pub open spec fn signatures_of(items: Seq<Json>) -> Seq<ZignatureView> {
    items.map_values(|z: Json| signature_of(z))
}

/// `v` with `tag` added to its error list.
pub open spec fn with_error(v: FileInfoView, tag: Seq<char>) -> FileInfoView {
    FileInfoView { error: v.error.push(tag), ..v }
}

/// The text of each element of a listing, read from its member `key`.
pub open spec fn texts_of(items: Seq<Json>, key: Seq<char>) -> Seq<Seq<char>> {
    items.map_values(|i: Json| text(member(i, key)))
}

fn push_texts(items: &Vec<Json>, key: &str, out: &mut Vec<String>)
    ensures
        strs_view(final(out)@) == strs_view(old(out)@) + texts_of(items@, key@),
{
    let mut k: usize = 0;
    while k < items.len()
        invariant
            k <= items@.len(),
            strs_view(out@) == strs_view(old(out)@) + texts_of(items@.take(k as int), key@),
        decreases items.len() - k,
    {
        let ghost prev = out@;
        let t = text_of(items[k].member(key));
        out.push(t);
        proof {
            lemma_map_push(prev, t, |s: String| s@);
            lemma_map_push(items@.take(k as int), items@[k as int], |i: Json| text(member(i, key@)));
            assert(items@.take(k + 1) == items@.take(k as int).push(items@[k as int]));
        }
        assert(strs_view(out@) =~= strs_view(old(out)@) + texts_of(items@.take(k + 1), key@));
        k = k + 1;
    }
    assert(items@.take(items@.len() as int) == items@);
}

/// A signature given the digests that the tool replied with: both
/// trimmed, an empty entropy text counting as none.
pub open spec fn with_digests(
    z: ZignatureView,
    ssdeep: Option<Seq<char>>,
    entropy: Option<Seq<char>>,
) -> ZignatureView {
    ZignatureView {
        function: BlockView {
            ssdeep: match ssdeep {
                Some(t) => Some(trimmed(t)),
                None => None,
            },
            entropy: match entropy {
                Some(t) => present(trimmed(t)),
                None => None,
            },
            ..z.function
        },
        ..z
    }
}

/// The pattern matches as the pattern-matching tool printed them, with
/// every mention of the scanned file's path and every line break removed.
pub open spec fn yara_text(output: Seq<char>, path: Seq<char>) -> Seq<char> {
    without(without(output, path), seq!['\n'])
}

/// Cleans the pattern-matching tool's output for the file at `path`.
pub fn yara_matches(output: &str, path: &str) -> (r: String)
    ensures
        r@ == yara_text(output@, path@),
{
    let first = remove_all(output, path);
    proof {
        reveal_strlit("\n");
        assert("\n"@ =~= seq!['\n']);
    }
    remove_all(first.as_str(), "\n")
}

/// The record after the hash step on `reply`.
pub open spec fn sha256_step(v: FileInfoView, reply: Option<Json>) -> FileInfoView {
    match reply {
        Some(j) => FileInfoView { sha256: text(member(j, "sha256"@)), ..v },
        None => with_error(v, "sha256 hash"@),
    }
}

/// The record after the magic-signature step on `reply`.
pub open spec fn magic_step(v: FileInfoView, reply: Option<Json>) -> FileInfoView {
    match reply {
        Some(Json::Array(items)) => FileInfoView {
            magic: v.magic + texts_of(items@, "info"@),
            ..v
        },
        _ => with_error(v, "magic"@),
    }
}

/// The record after the binary-information step on `reply`.
pub open spec fn info_step(v: FileInfoView, reply: Option<Json>) -> FileInfoView {
    match reply {
        Some(j) => {
            let bin = member(j, "bin"@);
            FileInfoView {
                format: text(member(member(j, "core"@), "format"@)),
                arch: text(member(bin, "arch"@)),
                size: match unsigned(member(bin, "size"@)) {
                    Some(n) => n,
                    None => v.size,
                },
                bintype: text(member(bin, "bintype"@)),
                compiler: text(member(bin, "compiler"@)),
                lang: text(member(bin, "lang"@)),
                machine: text(member(bin, "machine"@)),
                os: text(member(bin, "os"@)),
                ..v
            }
        },
        None => with_error(v, "info"@),
    }
}

/// The record after the printable-strings step on `reply`.
pub open spec fn strings_step(v: FileInfoView, reply: Option<Json>) -> FileInfoView {
    match reply {
        Some(Json::Array(items)) => FileInfoView {
            strings: v.strings + texts_of(items@, "string"@),
            ..v
        },
        _ => with_error(v, "strings"@),
    }
}

/// The record after the imports step on `reply`.
pub open spec fn imports_step(v: FileInfoView, reply: Option<Json>) -> FileInfoView {
    match reply {
        Some(Json::Array(items)) => FileInfoView {
            imports: v.imports + items@.map_values(
                |i: Json| ImportView { lib: text(member(i, "lib"@)), name: text(member(i, "name"@)) },
            ),
            ..v
        },
        _ => with_error(v, "imports"@),
    }
}

/// The record after the sections step on `reply`.
pub open spec fn sections_step(v: FileInfoView, reply: Option<Json>) -> FileInfoView {
    match reply {
        Some(j) => match member(j, "sections"@) {
            Json::Array(items) => FileInfoView {
                sections: v.sections + blocks_of(items@),
                ..v
            },
            _ => v,
        },
        None => with_error(v, "sections"@),
    }
}

/// The record after the segments step on `reply`.
pub open spec fn segments_step(v: FileInfoView, reply: Option<Json>) -> FileInfoView {
    match reply {
        Some(j) => match member(j, "segments"@) {
            Json::Array(items) => FileInfoView {
                segments: v.segments + blocks_of(items@),
                ..v
            },
            _ => v,
        },
        None => with_error(v, "segments"@),
    }
}

/// The record after the links step on `reply`.
pub open spec fn links_step(v: FileInfoView, reply: Option<Json>) -> FileInfoView {
    match reply {
        Some(Json::Array(items)) => FileInfoView {
            links: v.links + items@.map_values(|i: Json| text(i)),
            ..v
        },
        _ => with_error(v, "links"@),
    }
}

/// The record after the pattern-matching step on the tool's `output`.
pub open spec fn yara_step(v: FileInfoView, output: Option<Vec<u8>>) -> FileInfoView {
    match output {
        Some(b) => if valid_utf8(b@) {
            FileInfoView { yara: yara_text(decode_utf8(b@), v.path), ..v }
        } else {
            with_error(FileInfoView { yara: YARA_FAILED@, ..v }, "yara"@)
        },
        None => with_error(FileInfoView { yara: YARA_FAILED@, ..v }, "yara"@),
    }
}

/// The record after the signature-listing step on `reply`.
pub open spec fn zignatures_step(v: FileInfoView, reply: Option<Json>) -> FileInfoView {
    match reply {
        Some(Json::Array(items)) => FileInfoView {
            zignatures: v.zignatures + signatures_of(items@),
            ..v
        },
        _ => with_error(v, "zignatures"@),
    }
}

/// The analysis tool's replies to the basic phase's queries, in the order
/// they are asked, and the pattern-matching tool's output.
pub struct BasicReplies {
    pub info: Option<Json>,
    pub sha256: Option<Json>,
    pub magic: Option<Json>,
    pub imports: Option<Json>,
    pub strings: Option<Json>,
    pub sections: Option<Json>,
    pub segments: Option<Json>,
    pub links: Option<Json>,
    pub yara: Option<Vec<u8>>,
}

/// The record after the basic phase: each of its nine steps once, in order.
pub open spec fn basic_phase(v: FileInfoView, r: BasicReplies) -> FileInfoView {
    let v1 = info_step(v, r.info);
    let v2 = sha256_step(v1, r.sha256);
    let v3 = magic_step(v2, r.magic);
    let v4 = imports_step(v3, r.imports);
    let v5 = strings_step(v4, r.strings);
    let v6 = sections_step(v5, r.sections);
    let v7 = segments_step(v6, r.segments);
    let v8 = links_step(v7, r.links);
    yara_step(v8, r.yara)
}

/// `b` extends `a` by at most `k` entries.
pub open spec fn extends_by(a: Seq<Seq<char>>, b: Seq<Seq<char>>, k: nat) -> bool {
    a.len() <= b.len() <= a.len() + k && b.subrange(0, a.len() as int) == a
}

proof fn lemma_extends_trans(a: Seq<Seq<char>>, b: Seq<Seq<char>>, c: Seq<Seq<char>>, k: nat, m: nat)
    requires
        extends_by(a, b, k),
        extends_by(b, c, m),
    ensures
        extends_by(a, c, k + m),
{
    assert(c.subrange(0, a.len() as int) =~= c.subrange(0, b.len() as int).subrange(0, a.len() as int));
}

proof fn lemma_step_extends(v: FileInfoView, w: FileInfoView)
    requires
        w.error == v.error || w.error == v.error.push(w.error.last()),
    ensures
        extends_by(v.error, w.error, 1),
{
    assert(v.error.push(w.error.last()).subrange(0, v.error.len() as int) =~= v.error);
    assert(v.error.subrange(0, v.error.len() as int) =~= v.error);
}

/// The basic phase keeps the item's path and name, keeps every error tag
/// already recorded, and adds at most one tag per step.
pub proof fn lemma_basic_phase_errors_accumulate(v: FileInfoView, r: BasicReplies)
    ensures
        extends_by(v.error, basic_phase(v, r).error, 9),
        basic_phase(v, r).path == v.path,
        basic_phase(v, r).name == v.name,
        basic_phase(v, r).zignatures == v.zignatures,
{
    let v1 = info_step(v, r.info);
    let v2 = sha256_step(v1, r.sha256);
    let v3 = magic_step(v2, r.magic);
    let v4 = imports_step(v3, r.imports);
    let v5 = strings_step(v4, r.strings);
    let v6 = sections_step(v5, r.sections);
    let v7 = segments_step(v6, r.segments);
    let v8 = links_step(v7, r.links);
    let v9 = yara_step(v8, r.yara);
    lemma_step_extends(v, v1);
    lemma_step_extends(v1, v2);
    lemma_step_extends(v2, v3);
    lemma_step_extends(v3, v4);
    lemma_step_extends(v4, v5);
    lemma_step_extends(v5, v6);
    lemma_step_extends(v6, v7);
    lemma_step_extends(v7, v8);
    lemma_step_extends(v8, v9);
    lemma_extends_trans(v.error, v1.error, v2.error, 1, 1);
    lemma_extends_trans(v.error, v2.error, v3.error, 2, 1);
    lemma_extends_trans(v.error, v3.error, v4.error, 3, 1);
    lemma_extends_trans(v.error, v4.error, v5.error, 4, 1);
    lemma_extends_trans(v.error, v5.error, v6.error, 5, 1);
    lemma_extends_trans(v.error, v6.error, v7.error, 6, 1);
    lemma_extends_trans(v.error, v7.error, v8.error, 7, 1);
    lemma_extends_trans(v.error, v8.error, v9.error, 8, 1);
}

impl FileInfo {
    /// Runs the basic phase's steps on their replies, in order: binary
    /// information, hash, magic signatures, imports, strings, sections,
    /// segments, links, pattern matches.
    pub fn anal_basic(&mut self, replies: BasicReplies)
        ensures
            final(self)@ == basic_phase(old(self)@, replies),
    {
        self.info(&replies.info);
        self.sha256(&replies.sha256);
        self.magic(&replies.magic);
        self.imports(&replies.imports);
        self.strings(&replies.strings);
        self.sections(&replies.sections);
        self.segments(&replies.segments);
        self.links(&replies.links);
        self.yara(replies.yara);
    }

    /// Records the hash digest from the reply to the file-information query.
    pub fn sha256(&mut self, reply: &Option<Json>)
        ensures
            final(self)@ == sha256_step(old(self)@, *reply),
    {
        match reply {
            Some(j) => {
                self.sha256 = text_of(j.member("sha256"));
            },
            None => self.push_error("sha256 hash"),
        }
    }

    /// Records the description of each magic signature found.
    pub fn magic(&mut self, reply: &Option<Json>)
        ensures
            final(self)@ == magic_step(old(self)@, *reply),
    {
        match reply {
            Some(Json::Array(items)) => push_texts(items, "info", &mut self.magic),
            _ => self.push_error("magic"),
        }
    }

    /// Records format, architecture, size, type, compiler, language,
    /// machine and OS from the reply to the binary-information query; the
    /// size stays as it was when the reply holds none.
    pub fn info(&mut self, reply: &Option<Json>)
        ensures
            final(self)@ == info_step(old(self)@, *reply),
    {
        match reply {
            Some(j) => {
                let bin = j.member("bin");
                self.format = text_of(member_of(j.member("core"), "format"));
                self.arch = text_of(member_of(bin, "arch"));
                match unsigned_of(member_of(bin, "size")) {
                    Some(n) => {
                        self.size = n;
                    },
                    None => {},
                }
                self.bintype = text_of(member_of(bin, "bintype"));
                self.compiler = text_of(member_of(bin, "compiler"));
                self.lang = text_of(member_of(bin, "lang"));
                self.machine = text_of(member_of(bin, "machine"));
                self.os = text_of(member_of(bin, "os"));
            },
            None => self.push_error("info"),
        }
    }

    /// Records the printable strings found.
    pub fn strings(&mut self, reply: &Option<Json>)
        ensures
            final(self)@ == strings_step(old(self)@, *reply),
    {
        match reply {
            Some(Json::Array(items)) => push_texts(items, "string", &mut self.strings),
            _ => self.push_error("strings"),
        }
    }

    /// Records each imported symbol with its library.
    pub fn imports(&mut self, reply: &Option<Json>)
        ensures
            final(self)@ == imports_step(old(self)@, *reply),
    {
        match reply {
            Some(Json::Array(items)) => {
                let ghost start = self@.imports;
                let mut k: usize = 0;
                while k < items.len()
                    invariant
                        k <= items@.len(),
                        start == old(self)@.imports,
                        self@ == (FileInfoView {
                            imports: start + items@.take(k as int).map_values(
                                |i: Json| ImportView { lib: text(member(i, "lib"@)), name: text(member(i, "name"@)) },
                            ),
                            ..old(self)@
                        }),
                    decreases items.len() - k,
                {
                    let ghost prev = self.imports@;
                    let m = ImportInfo {
                        name: text_of(items[k].member("name")),
                        lib: text_of(items[k].member("lib")),
                    };
                    self.imports.push(m);
                    proof {
                        lemma_map_push(prev, m, |i: ImportInfo| i@);
                        lemma_map_push(
                            items@.take(k as int),
                            items@[k as int],
                            |i: Json| ImportView { lib: text(member(i, "lib"@)), name: text(member(i, "name"@)) },
                        );
                        assert(items@.take(k + 1) == items@.take(k as int).push(items@[k as int]));
                    }
                    assert(self@.imports =~= start + items@.take(k + 1).map_values(
                        |i: Json| ImportView { lib: text(member(i, "lib"@)), name: text(member(i, "name"@)) },
                    ));
                    k = k + 1;
                }
                assert(items@.take(items@.len() as int) == items@);
            },
            _ => self.push_error("imports"),
        }
    }

    /// Records the sections listed under `sections` in the reply, skipping
    /// entries without a name or a size.
    pub fn sections(&mut self, reply: &Option<Json>)
        ensures
            final(self)@ == sections_step(old(self)@, *reply),
    {
        match reply {
            Some(j) => match j.member("sections") {
                Some(Json::Array(items)) => blocks_from(items, &mut self.sections),
                _ => {},
            },
            None => self.push_error("sections"),
        }
    }

    /// Records the segments listed under `segments` in the reply, skipping
    /// entries without a name or a size.
    pub fn segments(&mut self, reply: &Option<Json>)
        ensures
            final(self)@ == segments_step(old(self)@, *reply),
    {
        match reply {
            Some(j) => match j.member("segments") {
                Some(Json::Array(items)) => blocks_from(items, &mut self.segments),
                _ => {},
            },
            None => self.push_error("segments"),
        }
    }

    /// Records the libraries that the binary links against.
    pub fn links(&mut self, reply: &Option<Json>)
        ensures
            final(self)@ == links_step(old(self)@, *reply),
    {
        match reply {
            Some(Json::Array(items)) => {
                let ghost start = self@.links;
                let mut k: usize = 0;
                while k < items.len()
                    invariant
                        k <= items@.len(),
                        start == old(self)@.links,
                        self@ == (FileInfoView {
                            links: start + items@.take(k as int).map_values(|i: Json| text(i)),
                            ..old(self)@
                        }),
                    decreases items.len() - k,
                {
                    let ghost prev = self.links@;
                    let t = text_of(Some(&items[k]));
                    self.links.push(t);
                    proof {
                        lemma_map_push(prev, t, |s: String| s@);
                        lemma_map_push(items@.take(k as int), items@[k as int], |i: Json| text(i));
                        assert(items@.take(k + 1) == items@.take(k as int).push(items@[k as int]));
                    }
                    assert(self@.links =~= start + items@.take(k + 1).map_values(|i: Json| text(i)));
                    k = k + 1;
                }
                assert(items@.take(items@.len() as int) == items@);
            },
            _ => self.push_error("links"),
        }
    }

    /// Records the pattern matches from the pattern-matching tool's output.
    /// When the tool could not run or printed no UTF-8, records
    /// `YARA_FAILED` and adds the error tag `yara`.
    pub fn yara(&mut self, output: Option<Vec<u8>>)
        ensures
            final(self)@ == yara_step(old(self)@, output),
    {
        let text = match output {
            Some(b) => match utf8_text(b) {
                Some(t) => Some(yara_matches(t.as_str(), self.path.as_str())),
                None => None,
            },
            None => None,
        };
        match text {
            Some(t) => {
                self.yara = t;
            },
            None => {
                self.yara = YARA_FAILED.to_string();
                self.push_error("yara");
            },
        }
    }

    /// Records the extracted signatures from the reply to the signature
    /// listing, one per listed element, without digests.
    pub fn zignatures(&mut self, reply: &Option<Json>)
        ensures
            final(self)@ == zignatures_step(old(self)@, *reply),
            masks_match(old(self)@) ==> masks_match(final(self)@),
    {
        match reply {
            Some(Json::Array(items)) => {
                let ghost start = self@.zignatures;
                let mut k: usize = 0;
                assert(start + signatures_of(items@.take(0)) =~= start);
                while k < items.len()
                    invariant
                        k <= items@.len(),
                        start == old(self)@.zignatures,
                        self@ == (FileInfoView {
                            zignatures: start + signatures_of(items@.take(k as int)),
                            ..old(self)@
                        }),
                    decreases items.len() - k,
                {
                    let ghost prev = self.zignatures@;
                    let z = signature_from(&items[k]);
                    self.zignatures.push(z);
                    proof {
                        lemma_map_push(prev, z, |z: Zignature| z@);
                        lemma_map_push(items@.take(k as int), items@[k as int], |z: Json| signature_of(z));
                        assert(items@.take(k + 1) == items@.take(k as int).push(items@[k as int]));
                    }
                    assert(self@.zignatures =~= start + signatures_of(items@.take(k + 1)));
                    k = k + 1;
                }
                assert(items@.take(items@.len() as int) == items@);
            },
            _ => self.push_error("zignatures"),
        }
    }

    /// Records digests for the `k`-th signature from replies already
    /// trimmed: the fuzzy hash as given, the entropy unless it is empty.
    pub fn record_digests(&mut self, k: usize, ssdeep: Option<String>, entropy: Option<String>)
        requires
            k < old(self)@.zignatures.len(),
        ensures
            final(self)@ == (FileInfoView {
                zignatures: old(self)@.zignatures.update(
                    k as int,
                    ZignatureView {
                        function: BlockView {
                            ssdeep: opt_view(ssdeep),
                            entropy: match opt_view(entropy) {
                                Some(t) => present(t),
                                None => None,
                            },
                            ..old(self)@.zignatures[k as int].function
                        },
                        ..old(self)@.zignatures[k as int]
                    },
                ),
                ..old(self)@
            }),
            masks_match(old(self)@) ==> masks_match(final(self)@),
    {
        let e = match entropy {
            Some(t) => present_text(t),
            None => None,
        };
        let ghost before = self.zignatures@;
        self.zignatures[k].function.ssdeep = ssdeep;
        self.zignatures[k].function.entropy = e;
        proof {
            assert(self.zignatures@.map_values(|z: Zignature| z@) =~= before.map_values(
                |z: Zignature| z@,
            ).update(k as int, self.zignatures@[k as int]@));
        }
    }

    /// Records the fuzzy-hash and entropy replies for the `k`-th signature,
    /// trimmed of surrounding whitespace.
    pub fn signature_digests(&mut self, k: usize, ssdeep: Option<String>, entropy: Option<String>)
        requires
            k < old(self)@.zignatures.len(),
        ensures
            final(self)@ == (FileInfoView {
                zignatures: old(self)@.zignatures.update(
                    k as int,
                    with_digests(old(self)@.zignatures[k as int], opt_view(ssdeep), opt_view(entropy)),
                ),
                ..old(self)@
            }),
            masks_match(old(self)@) ==> masks_match(final(self)@),
    {
        let s = match ssdeep {
            Some(t) => Some(trim_text(t.as_str())),
            None => None,
        };
        let e = match entropy {
            Some(t) => Some(trim_text(t.as_str())),
            None => None,
        };
        self.record_digests(k, s, e);
    }
}

} // verus!
