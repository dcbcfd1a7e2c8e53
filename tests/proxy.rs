use symbolicator::objects::{FileType, FoundObjectMeta, ObjectHandle, ObjectPurpose, SourceConfig, SourceKind};
use symbolicator::proxy::{gate_method, parse_symstore_path, plan_lookup, proxy_reply, HttpMethod, ProxyReply};
use symbolicator::types::{Config, Scope};

fn handle(bytes: Option<Vec<u8>>) -> ObjectHandle {
    ObjectHandle::new(FoundObjectMeta { source_index: 0, filetype: FileType::Pdb, purpose: ObjectPurpose::Debug }, bytes)
}

#[test]
fn parses_pdb_path() {
    let p = parse_symstore_path("wntdll.pdb/D74F79EB1F8D4A45ABCD2F476CCABACC2/wntdll.pdb").unwrap();
    assert_eq!(p.filetype, FileType::Pdb);
    assert_eq!(p.name, "wntdll.pdb");
    assert_eq!(p.signature, "D74F79EB1F8D4A45ABCD2F476CCABACC2");
}

#[test]
fn parses_pe_path_ignoring_case() {
    let p = parse_symstore_path("KERNEL32.DLL/590285E9e0000/KERNEL32.DLL").unwrap();
    assert_eq!(p.filetype, FileType::Pe);
    assert_eq!(p.signature, "590285E9e0000");
    assert_eq!(parse_symstore_path("app.exe/5AB380779000/app.exe").unwrap().filetype, FileType::Pe);
}

#[test]
fn rejects_malformed_paths() {
    for p in ["", "a.pdb", "a.pdb/sig", "a.pdb//a.pdb", "/sig/", "a.pdb/sig/b.pdb", "a.txt/sig/a.txt", "a.pdb/s/i/a.pdb", "a.pdb/sig/a.pdb/"] {
        assert!(parse_symstore_path(p).is_none(), "{}", p);
    }
}

#[test]
fn only_head_and_get_are_allowed() {
    assert_eq!(gate_method(HttpMethod::Head), Some(true));
    assert_eq!(gate_method(HttpMethod::Get), Some(false));
    assert_eq!(gate_method(HttpMethod::Post), None);
    let h = handle(Some(vec![0; 10]));
    assert_eq!(proxy_reply(HttpMethod::Delete, Some(&h)).status, 405);
}

#[test]
fn head_and_get_report_same_length() {
    let h = handle(Some(vec![9; 4096]));
    let head = proxy_reply(HttpMethod::Head, Some(&h));
    let get = proxy_reply(HttpMethod::Get, Some(&h));
    assert_eq!(head, ProxyReply { status: 200, content_length: Some(4096), with_body: false });
    assert_eq!(get, ProxyReply { status: 200, content_length: Some(4096), with_body: true });
}

#[test]
fn missing_object_is_not_found() {
    assert_eq!(proxy_reply(HttpMethod::Get, None).status, 404);
    assert_eq!(proxy_reply(HttpMethod::Get, Some(&handle(None))).status, 404);
    assert_eq!(proxy_reply(HttpMethod::Head, Some(&handle(Some(vec![])))).status, 404);
}

#[test]
fn disabled_proxy_finds_nothing() {
    let sources = vec![SourceConfig { id: "s".to_string(), kind: SourceKind::S3, location: "bucket".to_string() }];
    let off = Config { connect_to_reserved_ips: false, symstore_proxy: false };
    assert!(plan_lookup(&off, "a.pdb/sig/a.pdb", sources.clone()).is_none());
    let on = Config { connect_to_reserved_ips: false, symstore_proxy: true };
    assert!(plan_lookup(&on, "not/a/path/at/all", sources.clone()).is_none());
    let q = plan_lookup(&on, "a.pdb/SIG1/a.pdb", sources).unwrap();
    assert_eq!(q.filetypes, vec![FileType::Pdb]);
    assert_eq!(q.purpose, ObjectPurpose::Debug);
    assert!(matches!(q.scope, Scope::Global));
    assert_eq!(q.identifier.debug_id.as_deref(), Some("SIG1"));
    assert_eq!(q.identifier.debug_file.as_deref(), Some("a.pdb"));
    assert_eq!(q.sources.len(), 1);
}
