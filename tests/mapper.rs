use oz_core::json::Json;
use oz_core::mapper::{category, masked, Document};
use oz_core::worker::{combine, Emitted, PhaseOutcome};
use oz_core::record::{BlockInfo, FileInfo, ImportInfo, Zignature};

fn block(name: &str, ssdeep: Option<&str>, entropy: Option<&str>) -> BlockInfo {
    BlockInfo {
        name: name.to_string(),
        size: 512,
        ssdeep: ssdeep.map(|s| s.to_string()),
        entropy: entropy.map(|s| s.to_string()),
    }
}

fn sample() -> FileInfo {
    let mut r = FileInfo::new("/in/ls".to_string());
    r.sha256 = "deadbeef".to_string();
    r.arch = "x86".to_string();
    r.os = "linux".to_string();
    r.size = 1234;
    r.magic.push("ELF".to_string());
    r.strings.push("usage".to_string());
    r.strings.push("help".to_string());
    r.links.push("libc.so.6".to_string());
    r.imports.push(ImportInfo { lib: "libc".to_string(), name: "printf".to_string() });
    r.sections.push(block(".text", Some("3:abc"), Some("6.1")));
    r.segments.push(block("LOAD0", None, None));
    r.zignatures.push(Zignature {
        function: block("main", Some("3:zz"), Some("4.5")),
        bytes: "5589e5c3".to_string(),
        mask: "ff00ffff".to_string(),
        bbsum: 7,
        addr: 4096,
        n_vars: 2,
    });
    r.yara = "rule_a rule_b".to_string();
    r
}

#[test]
fn artifact_document_copies_fields() {
    let d = sample().get_artifact("corpus");
    assert_eq!(d.category, "/corpus/x86/linux");
    assert_eq!(d.sha256, "deadbeef");
    assert_eq!(d.name, "ls");
    assert_eq!(d.size, 1234);
    assert_eq!(d.magic, vec!["ELF".to_string()]);
    assert_eq!(d.strings, vec!["usage".to_string(), "help".to_string()]);
    assert_eq!(d.links, vec!["libc.so.6".to_string()]);
    assert_eq!(d.imports, vec!["printf".to_string()]);
    assert_eq!(d.yara, vec!["rule_a".to_string(), "rule_b".to_string()]);
}

#[test]
fn artifact_yara_split_keeps_empty_pieces() {
    let mut r = sample();
    r.yara = String::new();
    assert_eq!(r.get_artifact("o").yara, vec!["".to_string()]);
    r.yara = "a  b".to_string();
    assert_eq!(
        r.get_artifact("o").yara,
        vec!["a".to_string(), "".to_string(), "b".to_string()]
    );
}

#[test]
fn block_documents_per_section_and_segment() {
    let docs = sample().get_blocks("corpus");
    assert_eq!(docs.len(), 2);
    assert_eq!(docs[0].name, ".text");
    assert_eq!(docs[0].ssdeep, "3:abc");
    assert_eq!(docs[0].entropy.as_deref(), Some("6.1"));
    assert_eq!(docs[0].artifact_hash, "deadbeef");
    assert_eq!(docs[0].artifact_name, "ls");
    assert_eq!(docs[0].size, 512);
    assert_eq!(docs[1].name, "LOAD0");
    assert_eq!(docs[1].ssdeep, "");
    assert_eq!(docs[1].entropy, None);
    assert_eq!(docs[1].category, "/corpus/x86/linux");
}

#[test]
fn signature_document_masks_wildcards() {
    let docs = sample().get_zignatures("corpus");
    assert_eq!(docs.len(), 1);
    let d = &docs[0];
    assert_eq!(d.name, "main");
    assert_eq!(d.masked, "55  e5c3");
    assert_eq!(d.masked.len(), "5589e5c3".len());
    assert_eq!(d.bbsum, 7);
    assert_eq!(d.vars, 2);
    assert_eq!(d.ssdeep, "3:zz");
    assert_eq!(d.category, "/corpus/x86/linux");
}

#[test]
fn masked_rendering_examples() {
    assert_eq!(masked("abcd", "0f0f"), " b d");
    assert_eq!(masked("abcd", "ffff"), "abcd");
    assert_eq!(masked("abcd", "ff"), "ab");
    assert_eq!(masked("", ""), "");
}

#[test]
fn every_document_has_the_run_category() {
    let docs = sample().documents("run-7");
    assert_eq!(docs.len(), 4);
    for d in &docs {
        let c = match d {
            Document::Artifact(a) => &a.category,
            Document::Block(b) => &b.category,
            Document::Signature(s) => &s.category,
        };
        assert_eq!(c, "/run-7/x86/linux");
    }
    assert!(matches!(docs[0], Document::Artifact(_)));
    assert!(matches!(docs[1], Document::Block(_)));
    assert!(matches!(docs[2], Document::Block(_)));
    assert!(matches!(docs[3], Document::Signature(_)));
    assert_eq!(category("", "", ""), "///");
}

#[test]
fn mapping_twice_gives_identical_documents() {
    let r = sample();
    let a1 = r.get_artifact("o");
    let a2 = r.get_artifact("o");
    assert_eq!(
        (a1.category, a1.sha256, a1.name, a1.size, a1.magic, a1.strings, a1.links, a1.imports, a1.yara),
        (a2.category, a2.sha256, a2.name, a2.size, a2.magic, a2.strings, a2.links, a2.imports, a2.yara)
    );
    let b1 = r.get_blocks("o");
    let b2 = r.get_blocks("o");
    for (x, y) in b1.iter().zip(b2.iter()) {
        assert_eq!(
            (&x.category, &x.artifact_hash, &x.artifact_name, &x.name, &x.ssdeep, &x.entropy, x.size),
            (&y.category, &y.artifact_hash, &y.artifact_name, &y.name, &y.ssdeep, &y.entropy, y.size)
        );
    }
    let s1 = r.get_zignatures("o");
    let s2 = r.get_zignatures("o");
    for (x, y) in s1.iter().zip(s2.iter()) {
        assert_eq!(
            (&x.category, &x.name, &x.masked, &x.ssdeep, &x.entropy, x.size, x.bbsum, x.vars),
            (&y.category, &y.name, &y.masked, &y.ssdeep, &y.entropy, y.size, y.bbsum, y.vars)
        );
    }
}

#[test]
fn replies_to_documents_end_to_end() {
    let obj = |pairs: Vec<(&str, Json)>| {
        Json::Object(pairs.into_iter().map(|(k, v)| (k.to_string(), v)).collect())
    };
    let mut basic = FileInfo::new("/in/tool".to_string());
    basic.info(&Some(obj(vec![(
        "bin",
        obj(vec![("arch", Json::Str("arm".to_string())), ("os", Json::Str("android".to_string()))]),
    )])));
    basic.sha256(&Some(obj(vec![("sha256", Json::Str("ff".to_string()))])));
    let mut advanced = FileInfo::new("/in/tool".to_string());
    advanced.zignatures(&Some(Json::Array(vec![obj(vec![
        ("name", Json::Str("f".to_string())),
        ("bytes", Json::Str("0102".to_string())),
        ("mask", Json::Str("f0ff".to_string())),
    ])])));
    let merged = match combine(PhaseOutcome::Finished(basic), PhaseOutcome::Finished(advanced)).emitted {
        Emitted::Record(r) => r,
        Emitted::Placeholder => panic!("expected a record"),
    };
    let docs = merged.get_zignatures("lab");
    assert_eq!(docs.len(), 1);
    assert_eq!(docs[0].category, "/lab/arm/android");
    assert_eq!(docs[0].artifact_hash, "ff");
    assert_eq!(docs[0].artifact_name, "tool");
    assert_eq!(docs[0].masked, "0 02");
    assert_eq!(docs[0].size, 4);
}
