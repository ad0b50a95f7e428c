//! Turns a completed analysis record into index documents of three
//! families: one artifact document, one block document per section and
//! segment, one signature document per extracted signature.
use vstd::prelude::*;

use crate::record::{opt_view, strs_view, BlockInfo, ImportInfo, BlockView, FileInfo, FileInfoView, Zignature, ZignatureView};
use crate::text::{chars_of, split_at_char, split_on, string_of};

verus! {

/// The hierarchical category facet `/{origin}/{arch}/{os}`.
pub open spec fn category_path(origin: Seq<char>, arch: Seq<char>, os: Seq<char>) -> Seq<char> {
    seq!['/'] + origin + seq!['/'] + arch + seq!['/'] + os
}

/// The byte pattern with every position that the mask marks `'0'` blanked,
/// over the positions that both hold.
pub open spec fn masked_of(bytes: Seq<char>, mask: Seq<char>) -> Seq<char> {
    Seq::new(
        if bytes.len() <= mask.len() {
            bytes.len()
        } else {
            mask.len()
        },
        |i: int|
            if mask[i] == '0' {
                ' '
            } else {
                bytes[i]
            },
    )
}

/// The document of an analysed binary.
pub struct ArtifactDoc {
    pub category: String,
    pub sha256: String,
    pub name: String,
    pub size: u64,
    pub magic: Vec<String>,
    pub strings: Vec<String>,
    pub links: Vec<String>,
    pub imports: Vec<String>,
    pub yara: Vec<String>,
}

pub struct ArtifactDocView {
    pub category: Seq<char>,
    pub sha256: Seq<char>,
    pub name: Seq<char>,
    pub size: u64,
    pub magic: Seq<Seq<char>>,
    pub strings: Seq<Seq<char>>,
    pub links: Seq<Seq<char>>,
    pub imports: Seq<Seq<char>>,
    pub yara: Seq<Seq<char>>,
}

impl View for ArtifactDoc {
    type V = ArtifactDocView;

    open spec fn view(&self) -> ArtifactDocView {
        ArtifactDocView {
            category: self.category@,
            sha256: self.sha256@,
            name: self.name@,
            size: self.size,
            magic: strs_view(self.magic@),
            strings: strs_view(self.strings@),
            links: strs_view(self.links@),
            imports: strs_view(self.imports@),
            yara: strs_view(self.yara@),
        }
    }
}

/// The document of a section or a segment. `ssdeep` is empty when the
/// record holds no digest; `entropy` is the reported decimal text.
pub struct BlockDoc {
    pub category: String,
    pub artifact_hash: String,
    pub artifact_name: String,
    pub name: String,
    pub ssdeep: String,
    pub entropy: Option<String>,
    pub size: u64,
}

pub struct BlockDocView {
    pub category: Seq<char>,
    pub artifact_hash: Seq<char>,
    pub artifact_name: Seq<char>,
    pub name: Seq<char>,
    pub ssdeep: Seq<char>,
    pub entropy: Option<Seq<char>>,
    pub size: u64,
}

impl View for BlockDoc {
    type V = BlockDocView;

    open spec fn view(&self) -> BlockDocView {
        BlockDocView {
            category: self.category@,
            artifact_hash: self.artifact_hash@,
            artifact_name: self.artifact_name@,
            name: self.name@,
            ssdeep: self.ssdeep@,
            entropy: crate::record::opt_view(self.entropy),
            size: self.size,
        }
    }
}

/// The document of an extracted signature.
pub struct SignatureDoc {
    pub category: String,
    pub artifact_hash: String,
    pub artifact_name: String,
    pub name: String,
    pub ssdeep: String,
    pub entropy: Option<String>,
    pub size: u64,
    pub bbsum: u64,
    pub vars: u64,
    pub masked: String,
}

pub struct SignatureDocView {
    pub category: Seq<char>,
    pub artifact_hash: Seq<char>,
    pub artifact_name: Seq<char>,
    pub name: Seq<char>,
    pub ssdeep: Seq<char>,
    pub entropy: Option<Seq<char>>,
    pub size: u64,
    pub bbsum: u64,
    pub vars: u64,
    pub masked: Seq<char>,
}

impl View for SignatureDoc {
    type V = SignatureDocView;

    open spec fn view(&self) -> SignatureDocView {
        SignatureDocView {
            category: self.category@,
            artifact_hash: self.artifact_hash@,
            artifact_name: self.artifact_name@,
            name: self.name@,
            ssdeep: self.ssdeep@,
            entropy: crate::record::opt_view(self.entropy),
            size: self.size,
            bbsum: self.bbsum,
            vars: self.vars,
            masked: self.masked@,
        }
    }
}

/// A document of any of the three families, tagged by family.
pub enum Document {
    Artifact(ArtifactDoc),
    Block(BlockDoc),
    Signature(SignatureDoc),
}

pub enum DocumentView {
    Artifact(ArtifactDocView),
    Block(BlockDocView),
    Signature(SignatureDocView),
}

impl View for Document {
    type V = DocumentView;

    open spec fn view(&self) -> DocumentView {
        match self {
            Document::Artifact(d) => DocumentView::Artifact(d@),
            Document::Block(d) => DocumentView::Block(d@),
            Document::Signature(d) => DocumentView::Signature(d@),
        }
    }
}

impl DocumentView {
    pub open spec fn category(self) -> Seq<char> {
        match self {
            DocumentView::Artifact(d) => d.category,
            DocumentView::Block(d) => d.category,
            DocumentView::Signature(d) => d.category,
        }
    }
}

/// The artifact document of a record.
pub open spec fn artifact_doc_of(i: FileInfoView, origin: Seq<char>) -> ArtifactDocView {
    ArtifactDocView {
        category: category_path(origin, i.arch, i.os),
        sha256: i.sha256,
        name: i.name,
        size: i.size,
        magic: i.magic,
        strings: i.strings,
        links: i.links,
        imports: i.imports.map_values(|m: crate::record::ImportView| m.name),
        yara: split_on(i.yara, ' '),
    }
}

/// The block document of one section or segment of a record.
pub open spec fn block_doc_of(i: FileInfoView, origin: Seq<char>, b: BlockView) -> BlockDocView {
    BlockDocView {
        category: category_path(origin, i.arch, i.os),
        artifact_hash: i.sha256,
        artifact_name: i.name,
        name: b.name,
        ssdeep: match b.ssdeep {
            Some(d) => d,
            None => Seq::empty(),
        },
        entropy: b.entropy,
        size: b.size,
    }
}

/// The block documents of a record: its sections, then its segments.
pub open spec fn block_docs_of(i: FileInfoView, origin: Seq<char>) -> Seq<BlockDocView> {
    (i.sections + i.segments).map_values(|b: BlockView| block_doc_of(i, origin, b))
}

/// The signature document of one extracted signature of a record.
pub open spec fn signature_doc_of(
    i: FileInfoView,
    origin: Seq<char>,
    z: ZignatureView,
) -> SignatureDocView {
    SignatureDocView {
        category: category_path(origin, i.arch, i.os),
        artifact_hash: i.sha256,
        artifact_name: i.name,
        name: z.function.name,
        ssdeep: match z.function.ssdeep {
            Some(d) => d,
            None => Seq::empty(),
        },
        entropy: z.function.entropy,
        size: z.function.size,
        bbsum: z.bbsum,
        vars: z.n_vars,
        masked: masked_of(z.bytes, z.mask),
    }
}

/// The signature documents of a record, in the order of its signatures.
pub open spec fn signature_docs_of(i: FileInfoView, origin: Seq<char>) -> Seq<SignatureDocView> {
    i.zignatures.map_values(|z: ZignatureView| signature_doc_of(i, origin, z))
}

/// All documents of a record: the artifact document, its block documents,
/// then its signature documents.
pub open spec fn documents_of(i: FileInfoView, origin: Seq<char>) -> Seq<DocumentView> {
    seq![DocumentView::Artifact(artifact_doc_of(i, origin))] + block_docs_of(i, origin).map_values(
        |d: BlockDocView| DocumentView::Block(d),
    ) + signature_docs_of(i, origin).map_values(|d: SignatureDocView| DocumentView::Signature(d))
}

/// Mapping a sequence with one more element at its end.
pub proof fn lemma_map_push<A, B>(s: Seq<A>, x: A, f: spec_fn(A) -> B)
    ensures
        s.push(x).map_values(f) == s.map_values(f).push(f(x)),
{
    assert(s.push(x).map_values(f) =~= s.map_values(f).push(f(x)));
}

/// A copy of a list of strings.
pub fn copy_strings(v: &Vec<String>) -> (r: Vec<String>)
    ensures
        strs_view(r@) == strs_view(v@),
{
    let mut r: Vec<String> = Vec::new();
    let mut k: usize = 0;
    while k < v.len()
        invariant
            k <= v@.len(),
            strs_view(r@) == strs_view(v@.take(k as int)),
        decreases v.len() - k,
    {
        let ghost prev = r@;
        r.push(v[k].clone());
        assert(v@.take(k + 1) == v@.take(k as int).push(v@[k as int]));
        assert(strs_view(r@) =~= strs_view(prev).push(v@[k as int]@));
        assert(strs_view(v@.take(k + 1)) =~= strs_view(v@.take(k as int)).push(v@[k as int]@));
        k = k + 1;
    }
    assert(v@.take(v@.len() as int) == v@);
    r
}

/// Builds the category facet `/{origin}/{arch}/{os}`.
pub fn category(origin: &str, arch: &str, os: &str) -> (r: String)
    ensures
        r@ == category_path(origin@, arch@, os@),
{
    let mut cs: Vec<char> = Vec::new();
    cs.push('/');
    let o = chars_of(origin);
    let mut k: usize = 0;
    while k < o.len()
        invariant
            k <= o@.len(),
            cs@ == seq!['/'] + o@.take(k as int),
        decreases o.len() - k,
    {
        cs.push(o[k]);
        assert(o@.take(k + 1) == o@.take(k as int).push(o@[k as int]));
        k = k + 1;
    }
    assert(o@.take(o@.len() as int) == o@);
    cs.push('/');
    let a = chars_of(arch);
    let ghost base = cs@;
    k = 0;
    while k < a.len()
        invariant
            k <= a@.len(),
            cs@ == base + a@.take(k as int),
        decreases a.len() - k,
    {
        cs.push(a[k]);
        assert(a@.take(k + 1) == a@.take(k as int).push(a@[k as int]));
        k = k + 1;
    }
    assert(a@.take(a@.len() as int) == a@);
    cs.push('/');
    let s = chars_of(os);
    let ghost base2 = cs@;
    k = 0;
    while k < s.len()
        invariant
            k <= s@.len(),
            cs@ == base2 + s@.take(k as int),
        decreases s.len() - k,
    {
        cs.push(s[k]);
        assert(s@.take(k + 1) == s@.take(k as int).push(s@[k as int]));
        k = k + 1;
    }
    assert(s@.take(s@.len() as int) == s@);
    assert(cs@ =~= category_path(origin@, arch@, os@));
    string_of(cs.as_slice())
}

/// Renders a signature's byte pattern with its wildcard positions blanked.
pub fn masked(bytes: &str, mask: &str) -> (r: String)
    ensures
        r@ == masked_of(bytes@, mask@),
{
    let b = chars_of(bytes);
    let m = chars_of(mask);
    let n = if b.len() <= m.len() {
        b.len()
    } else {
        m.len()
    };
    let mut out: Vec<char> = Vec::new();
    let mut k: usize = 0;
    while k < n
        invariant
            b@ == bytes@,
            m@ == mask@,
            n <= b@.len(),
            n <= m@.len(),
            k <= n,
            out@ == masked_of(bytes@, mask@).take(k as int),
            masked_of(bytes@, mask@).len() == n,
        decreases n - k,
    {
        if m[k] == '0' {
            out.push(' ');
        } else {
            out.push(b[k]);
        }
        assert(masked_of(bytes@, mask@).take(k + 1) =~= masked_of(bytes@, mask@).take(
            k as int,
        ).push(masked_of(bytes@, mask@)[k as int]));
        k = k + 1;
    }
    assert(masked_of(bytes@, mask@).take(n as int) =~= masked_of(bytes@, mask@));
    string_of(out.as_slice())
}

/// Every document generated from a record is filed under the category
/// `/{origin}/{arch}/{os}`, with `origin` the label the mapping was given.
pub proof fn lemma_documents_filed_under_origin(i: FileInfoView, origin: Seq<char>)
    ensures
        forall|k: int|
            0 <= k < documents_of(i, origin).len() ==> #[trigger] documents_of(i, origin)[k].category()
                == category_path(origin, i.arch, i.os),
{
    let head = seq![DocumentView::Artifact(artifact_doc_of(i, origin))];
    let bv = block_docs_of(i, origin).map_values(|d: BlockDocView| DocumentView::Block(d));
    let sv = signature_docs_of(i, origin).map_values(|d: SignatureDocView| DocumentView::Signature(d));
    let all = documents_of(i, origin);
    assert forall|k: int| 0 <= k < all.len() implies #[trigger] all[k].category() == category_path(
        origin,
        i.arch,
        i.os,
    ) by {
        if k == 0 {
            assert(all[k] == head[0]);
        } else if k < 1 + bv.len() {
            assert(all[k] == bv[k - 1]);
        } else {
            assert(all[k] == sv[k - 1 - bv.len()]);
        }
    }
}

/// A record whose every signature has a mask as long as its byte pattern.
pub open spec fn masks_match(i: FileInfoView) -> bool {
    forall|k: int| 0 <= k < i.zignatures.len() ==> #[trigger] i.zignatures[k].mask.len() == i.zignatures[k].bytes.len()
}

/// On a record whose signatures' masks are as long as their byte patterns,
/// every masked rendering is as long as both.
pub proof fn lemma_masked_rendering_keeps_length(i: FileInfoView, origin: Seq<char>)
    requires
        masks_match(i),
    ensures
        signature_docs_of(i, origin).len() == i.zignatures.len(),
        forall|k: int|
            0 <= k < i.zignatures.len() ==> #[trigger] signature_docs_of(i, origin)[k].masked.len()
                == i.zignatures[k].bytes.len() && i.zignatures[k].mask.len()
                == i.zignatures[k].bytes.len(),
{
}

/// Mapping two records with the same contents under the same origin gives
/// the same documents, field for field.
pub proof fn lemma_mapping_is_deterministic(a: FileInfo, b: FileInfo, origin: Seq<char>)
    requires
        a@ == b@,
    ensures
        documents_of(a@, origin) == documents_of(b@, origin),
        artifact_doc_of(a@, origin) == artifact_doc_of(b@, origin),
        block_docs_of(a@, origin) == block_docs_of(b@, origin),
        signature_docs_of(a@, origin) == signature_docs_of(b@, origin),
{
}

/// A copy of an optional string.
pub fn copy_opt(o: &Option<String>) -> (r: Option<String>)
    ensures
        opt_view(r) == opt_view(*o),
{
    match o {
        Some(s) => Some(s.clone()),
        None => None,
    }
}

/// The text of an optional digest, empty when absent.
fn digest_text(o: &Option<String>) -> (r: String)
    ensures
        r@ == match opt_view(*o) {
            Some(d) => d,
            None => Seq::empty(),
        },
{
    match o {
        Some(s) => s.clone(),
        None => String::new(),
    }
}

impl FileInfo {
    /// The artifact document of this record, filed under `origin`.
    pub fn get_artifact(&self, origin: &str) -> (r: ArtifactDoc)
        ensures
            r@ == artifact_doc_of(self@, origin@),
    {
        let category = category(origin, self.arch.as_str(), self.os.as_str());
        let mut imports: Vec<String> = Vec::new();
        let mut k: usize = 0;
        while k < self.imports.len()
            invariant
                k <= self.imports@.len(),
                strs_view(imports@) == self.imports@.take(k as int).map_values(
                    |m: ImportInfo| m@.name,
                ),
            decreases self.imports.len() - k,
        {
            let ghost prev = imports@;
            imports.push(self.imports[k].name.clone());
            assert(strs_view(imports@) =~= strs_view(prev).push(self.imports@[k as int].name@));
            assert(self.imports@.take(k + 1) == self.imports@.take(k as int).push(
                self.imports@[k as int],
            ));
            assert(self.imports@.take(k + 1).map_values(|m: ImportInfo| m@.name)
                =~= self.imports@.take(k as int).map_values(|m: ImportInfo| m@.name).push(
                self.imports@[k as int]@.name,
            ));
            k = k + 1;
        }
        proof {
            assert(self.imports@.take(self.imports@.len() as int) == self.imports@);
            assert(strs_view(imports@) =~= self@.imports.map_values(
                |m: crate::record::ImportView| m.name,
            ));
        }
        ArtifactDoc {
            category,
            sha256: self.sha256.clone(),
            name: self.name.clone(),
            size: self.size,
            magic: copy_strings(&self.magic),
            strings: copy_strings(&self.strings),
            links: copy_strings(&self.links),
            imports,
            yara: split_at_char(self.yara.as_str(), ' '),
        }
    }

    fn block_doc(&self, category: &String, b: &BlockInfo, Ghost(origin): Ghost<Seq<char>>) -> (r:
        BlockDoc)
        requires
            category@ == category_path(origin, self@.arch, self@.os),
        ensures
            r@ == block_doc_of(self@, origin, b@),
    {
        BlockDoc {
            category: category.clone(),
            artifact_hash: self.sha256.clone(),
            artifact_name: self.name.clone(),
            name: b.name.clone(),
            ssdeep: digest_text(&b.ssdeep),
            entropy: copy_opt(&b.entropy),
            size: b.size,
        }
    }

    /// The block documents of this record: one per section, then one per
    /// segment, filed under `origin`.
    pub fn get_blocks(&self, origin: &str) -> (r: Vec<BlockDoc>)
        ensures
            r@.map_values(|d: BlockDoc| d@) == block_docs_of(self@, origin@),
    {
        let category = category(origin, self.arch.as_str(), self.os.as_str());
        let ghost all = self@.sections + self@.segments;
        let mut r: Vec<BlockDoc> = Vec::new();
        let mut k: usize = 0;
        while k < self.sections.len()
            invariant
                k <= self.sections@.len(),
                category@ == category_path(origin@, self@.arch, self@.os),
                all == self@.sections + self@.segments,
                r@.map_values(|d: BlockDoc| d@) == all.take(k as int).map_values(
                    |b: BlockView| block_doc_of(self@, origin@, b),
                ),
            decreases self.sections.len() - k,
        {
            let ghost prev = r@;
            let d = self.block_doc(&category, &self.sections[k], Ghost(origin@));
            r.push(d);
            assert(all.take(k + 1) == all.take(k as int).push(all[k as int]));
            proof {
                lemma_map_push(prev, d, |d: BlockDoc| d@);
                lemma_map_push(all.take(k as int), all[k as int], |b: BlockView| block_doc_of(self@, origin@, b));
            }
            assert(r@.map_values(|d: BlockDoc| d@) =~= all.take(k + 1).map_values(
                |b: BlockView| block_doc_of(self@, origin@, b),
            ));
            k = k + 1;
        }
        let n = self.sections.len();
        k = 0;
        while k < self.segments.len()
            invariant
                k <= self.segments@.len(),
                n == self.sections@.len(),
                category@ == category_path(origin@, self@.arch, self@.os),
                all == self@.sections + self@.segments,
                r@.map_values(|d: BlockDoc| d@) == all.take(n + k).map_values(
                    |b: BlockView| block_doc_of(self@, origin@, b),
                ),
            decreases self.segments.len() - k,
        {
            let ghost prev = r@;
            let d = self.block_doc(&category, &self.segments[k], Ghost(origin@));
            r.push(d);
            assert(all[n + k] == self@.segments[k as int]);
            assert(all.take(n + k + 1) == all.take(n + k).push(all[n + k]));
            proof {
                lemma_map_push(prev, d, |d: BlockDoc| d@);
                lemma_map_push(all.take(n + k), all[n + k], |b: BlockView| block_doc_of(self@, origin@, b));
            }
            assert(r@.map_values(|d: BlockDoc| d@) =~= all.take(n + k + 1).map_values(
                |b: BlockView| block_doc_of(self@, origin@, b),
            ));
            k = k + 1;
        }
        assert(all.take(all.len() as int) == all);
        r
    }

    fn signature_doc(&self, category: &String, z: &Zignature, Ghost(origin): Ghost<Seq<char>>) -> (r:
        SignatureDoc)
        requires
            category@ == category_path(origin, self@.arch, self@.os),
        ensures
            r@ == signature_doc_of(self@, origin, z@),
    {
        SignatureDoc {
            category: category.clone(),
            artifact_hash: self.sha256.clone(),
            artifact_name: self.name.clone(),
            name: z.function.name.clone(),
            ssdeep: digest_text(&z.function.ssdeep),
            entropy: copy_opt(&z.function.entropy),
            size: z.function.size,
            bbsum: z.bbsum,
            vars: z.n_vars,
            masked: masked(z.bytes.as_str(), z.mask.as_str()),
        }
    }

    /// The signature documents of this record, one per extracted
    /// signature, filed under `origin`.
    pub fn get_zignatures(&self, origin: &str) -> (r: Vec<SignatureDoc>)
        ensures
            r@.map_values(|d: SignatureDoc| d@) == signature_docs_of(self@, origin@),
    {
        let category = category(origin, self.arch.as_str(), self.os.as_str());
        let mut r: Vec<SignatureDoc> = Vec::new();
        let mut k: usize = 0;
        while k < self.zignatures.len()
            invariant
                k <= self.zignatures@.len(),
                category@ == category_path(origin@, self@.arch, self@.os),
                r@.map_values(|d: SignatureDoc| d@) == self@.zignatures.take(k as int).map_values(
                    |z: ZignatureView| signature_doc_of(self@, origin@, z),
                ),
            decreases self.zignatures.len() - k,
        {
            let ghost prev = r@;
            let d = self.signature_doc(&category, &self.zignatures[k], Ghost(origin@));
            r.push(d);
            assert(self@.zignatures.take(k + 1) == self@.zignatures.take(k as int).push(
                self@.zignatures[k as int],
            ));
            proof {
                lemma_map_push(prev, d, |d: SignatureDoc| d@);
                lemma_map_push(self@.zignatures.take(k as int), self@.zignatures[k as int], |z: ZignatureView| signature_doc_of(self@, origin@, z));
            }
            assert(r@.map_values(|d: SignatureDoc| d@) =~= self@.zignatures.take(k + 1).map_values(
                |z: ZignatureView| signature_doc_of(self@, origin@, z),
            ));
            k = k + 1;
        }
        assert(self@.zignatures.take(self@.zignatures.len() as int) == self@.zignatures);
        r
    }

    /// Every document of this record, filed under `origin`: the artifact
    /// document, the block documents, then the signature documents.
    pub fn documents(&self, origin: &str) -> (r: Vec<Document>)
        ensures
            r@.map_values(|d: Document| d@) == documents_of(self@, origin@),
    {
        let mut r: Vec<Document> = Vec::new();
        r.push(Document::Artifact(self.get_artifact(origin)));
        let blocks = self.get_blocks(origin);
        let signatures = self.get_zignatures(origin);
        let ghost head = seq![DocumentView::Artifact(artifact_doc_of(self@, origin@))];
        let ghost bv = block_docs_of(self@, origin@).map_values(|d: BlockDocView| DocumentView::Block(d));
        let ghost sv = signature_docs_of(self@, origin@).map_values(
            |d: SignatureDocView| DocumentView::Signature(d),
        );
        assert(r@.map_values(|d: Document| d@) =~= head);
        assert(blocks@.map_values(|d: BlockDoc| d@).map_values(|d: BlockDocView| DocumentView::Block(d)) =~= bv);
        for b in it: blocks
            invariant
                it.seq() == blocks@,
                r@.map_values(|d: Document| d@) == head + blocks@.take(it.index() as int).map_values(
                    |d: BlockDoc| DocumentView::Block(d@),
                ),
        {
            let ghost prev = r@;
            r.push(Document::Block(b));
            assert(blocks@.take(it.index() + 1) == blocks@.take(it.index() as int).push(b));
            proof {
                lemma_map_push(prev, Document::Block(b), |d: Document| d@);
                lemma_map_push(blocks@.take(it.index() as int), b, |d: BlockDoc| DocumentView::Block(d@));
            }
            assert(r@.map_values(|d: Document| d@) =~= head + blocks@.take(it.index() + 1).map_values(
                |d: BlockDoc| DocumentView::Block(d@),
            ));
        }
        assert(blocks@.take(blocks@.len() as int) == blocks@);
        assert(blocks@.map_values(|d: BlockDoc| DocumentView::Block(d@)) =~= bv);
        assert(signatures@.map_values(|d: SignatureDoc| DocumentView::Signature(d@)) =~= sv);
        let ghost hb = r@.map_values(|d: Document| d@);
        for z in it: signatures
            invariant
                it.seq() == signatures@,
                r@.map_values(|d: Document| d@) == hb + signatures@.take(it.index() as int).map_values(
                    |d: SignatureDoc| DocumentView::Signature(d@),
                ),
        {
            let ghost prev = r@;
            r.push(Document::Signature(z));
            assert(signatures@.take(it.index() + 1) == signatures@.take(it.index() as int).push(z));
            proof {
                lemma_map_push(prev, Document::Signature(z), |d: Document| d@);
                lemma_map_push(signatures@.take(it.index() as int), z, |d: SignatureDoc| DocumentView::Signature(d@));
            }
        }
        assert(signatures@.take(signatures@.len() as int) == signatures@);
        r
    }
}

} // verus!
