use oz_core::json::Json;
use oz_core::record::FileInfo;
use oz_core::steps::{digest, yara_matches, YARA_FAILED};

fn s(t: &str) -> Json {
    Json::Str(t.to_string())
}

fn n(v: u64) -> Json {
    Json::Number(Some(v))
}

fn obj(pairs: Vec<(&str, Json)>) -> Json {
    Json::Object(pairs.into_iter().map(|(k, v)| (k.to_string(), v)).collect())
}

fn fresh() -> FileInfo {
    FileInfo::new("/in/sample".to_string())
}

#[test]
fn sha256_reads_member_or_tags_error() {
    let mut r = fresh();
    r.sha256(&Some(obj(vec![("sha256", s("ab12"))])));
    assert_eq!(r.sha256, "ab12");
    assert!(r.error.is_empty());
    let mut r = fresh();
    r.sha256(&None);
    assert_eq!(r.error, vec!["sha256 hash".to_string()]);
    let mut r = fresh();
    r.sha256(&Some(obj(vec![("sha256", n(5))])));
    assert_eq!(r.sha256, "");
}

#[test]
fn magic_collects_infos() {
    let mut r = fresh();
    r.magic(&Some(Json::Array(vec![
        obj(vec![("info", s("ELF 64-bit"))]),
        obj(vec![("other", s("x"))]),
    ])));
    assert_eq!(r.magic, vec!["ELF 64-bit".to_string(), "".to_string()]);
    let mut r = fresh();
    r.magic(&Some(obj(vec![])));
    assert_eq!(r.error, vec!["magic".to_string()]);
}

#[test]
fn info_reads_core_and_bin() {
    let mut r = fresh();
    let reply = obj(vec![
        ("core", obj(vec![("format", s("elf64"))])),
        (
            "bin",
            obj(vec![
                ("arch", s("x86")),
                ("size", n(4096)),
                ("bintype", s("elf")),
                ("compiler", s("GCC")),
                ("lang", s("c")),
                ("machine", s("AMD x86-64")),
                ("os", s("linux")),
            ]),
        ),
    ]);
    r.info(&Some(reply));
    assert_eq!(r.format, "elf64");
    assert_eq!(r.arch, "x86");
    assert_eq!(r.size, 4096);
    assert_eq!(r.bintype, "elf");
    assert_eq!(r.compiler, "GCC");
    assert_eq!(r.lang, "c");
    assert_eq!(r.machine, "AMD x86-64");
    assert_eq!(r.os, "linux");
    let mut r = fresh();
    r.size = 9;
    r.info(&Some(obj(vec![("bin", obj(vec![("size", Json::Number(None))]))])));
    assert_eq!(r.size, 9);
    r.info(&None);
    assert_eq!(r.error, vec!["info".to_string()]);
}

#[test]
fn strings_imports_links() {
    let mut r = fresh();
    r.strings(&Some(Json::Array(vec![obj(vec![("string", s("hi"))])])));
    r.imports(&Some(Json::Array(vec![obj(vec![("name", s("puts")), ("lib", s("libc"))])])));
    r.links(&Some(Json::Array(vec![s("libm.so"), n(3)])));
    assert_eq!(r.strings, vec!["hi".to_string()]);
    assert_eq!(r.imports.len(), 1);
    assert_eq!(r.imports[0].name, "puts");
    assert_eq!(r.imports[0].lib, "libc");
    assert_eq!(r.links, vec!["libm.so".to_string(), "".to_string()]);
    r.strings(&None);
    r.imports(&Some(Json::Null));
    r.links(&None);
    assert_eq!(
        r.error,
        vec!["strings".to_string(), "imports".to_string(), "links".to_string()]
    );
}

#[test]
fn sections_skip_unnamed_and_sizeless() {
    let mut r = fresh();
    let reply = obj(vec![(
        "sections",
        Json::Array(vec![
            obj(vec![
                ("name", s(".text")),
                ("size", n(100)),
                ("ssdeep", s("333a6162630000")),
                ("entropy", s("5.25")),
            ]),
            obj(vec![("name", s("")), ("size", n(1))]),
            obj(vec![("name", s(".bss"))]),
            obj(vec![("name", s(".data")), ("size", n(8)), ("ssdeep", s("zz"))]),
        ]),
    )]);
    r.sections(&Some(reply));
    assert_eq!(r.sections.len(), 2);
    assert_eq!(r.sections[0].name, ".text");
    assert_eq!(r.sections[0].size, 100);
    assert_eq!(r.sections[0].ssdeep.as_deref(), Some("3:abc"));
    assert_eq!(r.sections[0].entropy.as_deref(), Some("5.25"));
    assert_eq!(r.sections[1].name, ".data");
    assert_eq!(r.sections[1].ssdeep, None);
    assert_eq!(r.sections[1].entropy, None);
    assert!(r.error.is_empty());
    r.sections(&Some(obj(vec![("sections", n(1))])));
    assert_eq!(r.sections.len(), 2);
    assert!(r.error.is_empty());
    r.sections(&None);
    assert_eq!(r.error, vec!["sections".to_string()]);
}

#[test]
fn segments_from_their_own_member() {
    let mut r = fresh();
    let reply = obj(vec![(
        "segments",
        Json::Array(vec![obj(vec![("name", s("LOAD0")), ("size", n(64))])]),
    )]);
    r.segments(&Some(reply));
    assert_eq!(r.segments.len(), 1);
    assert_eq!(r.segments[0].name, "LOAD0");
    assert!(r.sections.is_empty());
    r.segments(&None);
    assert_eq!(r.error, vec!["segments".to_string()]);
}

#[test]
fn digest_decodes_hex_without_zero_padding() {
    assert_eq!(digest("333a6162630000").as_deref(), Some("3:abc"));
    assert_eq!(digest("333A616263").as_deref(), Some("3:abc"));
    assert_eq!(digest("33300000").as_deref(), Some("30"));
    assert_eq!(digest("123"), None);
    assert_eq!(digest("zz"), None);
    assert_eq!(digest("ff"), None);
    assert_eq!(digest("").as_deref(), Some(""));
}

#[test]
fn zignatures_then_digests() {
    let mut r = fresh();
    let z = obj(vec![
        ("name", s("sym.main")),
        ("bytes", s("5589e5")),
        ("mask", s("ff00ff")),
        ("graph", obj(vec![("bbsum", n(12))])),
        ("addr", n(4198400)),
        ("vars", Json::Array(vec![Json::Null, Json::Null])),
    ]);
    r.zignatures(&Some(Json::Array(vec![z, obj(vec![])])));
    assert_eq!(r.zignatures.len(), 2);
    let a = &r.zignatures[0];
    assert_eq!(a.function.name, "sym.main");
    assert_eq!(a.function.size, 6);
    assert_eq!(a.bytes, "5589e5");
    assert_eq!(a.mask, "ff00ff");
    assert_eq!(a.bbsum, 12);
    assert_eq!(a.addr, 4198400);
    assert_eq!(a.n_vars, 2);
    let b = &r.zignatures[1];
    assert_eq!((b.bbsum, b.addr, b.n_vars, b.function.size), (0, 0, 0, 0));
    r.signature_digests(0, Some(" 3:abc\n".to_string()), Some("  2.5\n".to_string()));
    r.signature_digests(1, None, Some(" \n".to_string()));
    assert_eq!(r.zignatures[0].function.ssdeep.as_deref(), Some("3:abc"));
    assert_eq!(r.zignatures[0].function.entropy.as_deref(), Some("2.5"));
    assert_eq!(r.zignatures[1].function.ssdeep, None);
    assert_eq!(r.zignatures[1].function.entropy, None);
    r.zignatures(&None);
    assert_eq!(r.error, vec!["zignatures".to_string()]);
}

#[test]
fn yara_output_is_cleaned() {
    assert_eq!(
        yara_matches("rule_a /in/sample\nrule_b /in/sample\n", "/in/sample"),
        "rule_a rule_b "
    );
    assert_eq!(yara_matches("aaa", "aa"), "a");
    assert_eq!(yara_matches("x\ny", ""), "xy");
    let mut r = fresh();
    r.yara(Some(b"mal /in/sample\n".to_vec()));
    assert_eq!(r.yara, "mal ");
    assert!(r.error.is_empty());
    r.yara(Some(vec![0xff, 0xfe]));
    assert_eq!(r.yara, YARA_FAILED);
    assert_eq!(r.error, vec!["yara".to_string()]);
    r.yara(None);
    assert_eq!(r.yara, "yara processing error");
    assert_eq!(r.error, vec!["yara".to_string(), "yara".to_string()]);
}

#[test]
fn member_lookup_takes_first_key() {
    let j = obj(vec![("k", s("one")), ("k", s("two"))]);
    match j.member("k") {
        Some(Json::Str(t)) => assert_eq!(t, "one"),
        _ => panic!("missing member"),
    }
    assert!(j.member("absent").is_none());
    assert!(s("x").member("k").is_none());
}

#[test]
fn digests_recorded_as_given_after_trimming() {
    let mut r = fresh();
    r.zignatures(&Some(Json::Array(vec![obj(vec![("name", s("f"))])])));
    r.record_digests(0, Some(" kept ".to_string()), Some("".to_string()));
    assert_eq!(r.zignatures[0].function.ssdeep.as_deref(), Some(" kept "));
    assert_eq!(r.zignatures[0].function.entropy, None);
    r.record_digests(0, None, Some("7.9".to_string()));
    assert_eq!(r.zignatures[0].function.ssdeep, None);
    assert_eq!(r.zignatures[0].function.entropy.as_deref(), Some("7.9"));
}

#[test]
fn signatures_keep_every_entry_with_fitted_masks() {
    let mut r = fresh();
    r.zignatures(&Some(Json::Array(vec![
        obj(vec![("name", s("short")), ("bytes", s("ab"))]),
        obj(vec![("name", s("long")), ("bytes", s("ab")), ("mask", s("f0ff"))]),
        obj(vec![("name", s("ok")), ("bytes", s("abcd")), ("mask", s("ff00"))]),
        obj(vec![("name", s("wide")), ("bytes", s("\u{e9}")), ("mask", s("f"))]),
    ])));
    assert_eq!(r.zignatures.len(), 4);
    assert_eq!(r.zignatures[0].function.name, "short");
    assert_eq!(r.zignatures[0].mask, "00");
    assert_eq!(r.zignatures[1].mask, "f0");
    assert_eq!(r.zignatures[2].mask, "ff00");
    assert_eq!(r.zignatures[3].mask, "f");
    assert_eq!(r.zignatures[3].function.size, 2);
    assert!(r.error.is_empty());
    for z in &r.zignatures {
        assert_eq!(z.mask.chars().count(), z.bytes.chars().count());
    }
}

#[test]
fn trim_removes_unicode_white_space() {
    let mut r = fresh();
    r.zignatures(&Some(Json::Array(vec![obj(vec![("name", s("f"))])])));
    r.signature_digests(0, Some("\u{3000}\t3:q\u{a0}\r\n".to_string()), Some("\u{2009}".to_string()));
    assert_eq!(r.zignatures[0].function.ssdeep.as_deref(), Some("3:q"));
    assert_eq!(r.zignatures[0].function.entropy, None);
}

#[test]
fn basic_phase_runs_every_step_once() {
    let mut r = fresh();
    r.anal_basic(oz_core::steps::BasicReplies {
        info: Some(obj(vec![("bin", obj(vec![("arch", s("mips"))]))])),
        sha256: Some(obj(vec![("sha256", s("00ff"))])),
        magic: None,
        imports: Some(Json::Array(vec![])),
        strings: Some(Json::Array(vec![obj(vec![("string", s("x"))])])),
        sections: None,
        segments: Some(obj(vec![])),
        links: Some(Json::Null),
        yara: None,
    });
    assert_eq!(r.arch, "mips");
    assert_eq!(r.sha256, "00ff");
    assert_eq!(r.strings, vec!["x".to_string()]);
    assert_eq!(
        r.error,
        vec!["magic".to_string(), "sections".to_string(), "links".to_string(), "yara".to_string()]
    );
    assert_eq!(r.yara, YARA_FAILED);
}
