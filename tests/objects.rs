use symbolicator::objects::{
    FileType, FindObject, FoundObjectMeta, ObjectHandle, ObjectId, ObjectPurpose, ProbeOutcome,
    ResolveStep, Resolution, SourceConfig, SourceKind,
};
use symbolicator::types::Scope;

fn source(id: &str) -> SourceConfig {
    SourceConfig { id: id.to_string(), kind: SourceKind::Http, location: format!("https://{}.example/", id) }
}

fn query(sources: Vec<SourceConfig>, filetypes: Vec<FileType>) -> FindObject {
    FindObject {
        filetypes,
        identifier: ObjectId {
            code_id: None,
            code_file: None,
            debug_id: Some("3249d99d0c4049318610f4e4fb0b69361".to_string()),
            debug_file: Some("crash.pdb".to_string()),
        },
        sources,
        scope: Scope::Global,
        purpose: ObjectPurpose::Debug,
    }
}

#[test]
fn skips_failing_source_and_fetches_from_present_one() {
    let (mut r, step) = Resolution::start(query(vec![source("missing"), source("present")], vec![FileType::Pdb]));
    assert_eq!(step, ResolveStep::Probe { source: 0, filetype_index: 0, filetype: FileType::Pdb });
    let step = r.advance(ProbeOutcome::Unavailable);
    assert_eq!(step, ResolveStep::Probe { source: 1, filetype_index: 0, filetype: FileType::Pdb });
    let step = r.advance(ProbeOutcome::Hit);
    let meta = match step {
        ResolveStep::Found(m) => m,
        _ => panic!("expected a match"),
    };
    assert_eq!(meta.source_index, 1);
    assert_eq!(r.request().sources[meta.source_index].id, "present");
    let handle = ObjectHandle::new(meta, Some(vec![7u8; 1234]));
    assert!(handle.has_object());
    assert_eq!(handle.len(), 1234);
    assert_eq!(handle.data().len(), 1234);
}

#[test]
fn first_source_wins() {
    let (mut r, _) = Resolution::start(query(vec![source("a"), source("b")], vec![FileType::Pdb]));
    let step = r.advance(ProbeOutcome::Hit);
    assert_eq!(
        step,
        ResolveStep::Found(FoundObjectMeta { source_index: 0, filetype: FileType::Pdb, purpose: ObjectPurpose::Debug })
    );
}

#[test]
fn filetypes_are_tried_in_order_within_a_source() {
    let (mut r, _) = Resolution::start(query(vec![source("a"), source("b")], vec![FileType::Pe, FileType::Pdb]));
    assert_eq!(r.advance(ProbeOutcome::Miss), ResolveStep::Probe { source: 0, filetype_index: 1, filetype: FileType::Pdb });
    assert_eq!(r.advance(ProbeOutcome::Miss), ResolveStep::Probe { source: 1, filetype_index: 0, filetype: FileType::Pe });
    assert_eq!(r.advance(ProbeOutcome::Miss), ResolveStep::Probe { source: 1, filetype_index: 1, filetype: FileType::Pdb });
    assert_eq!(r.advance(ProbeOutcome::Miss), ResolveStep::NotFound);
}

#[test]
fn empty_sources_or_filetypes_probe_nothing() {
    let (_, step) = Resolution::start(query(vec![], vec![FileType::Pdb]));
    assert_eq!(step, ResolveStep::NotFound);
    let (_, step) = Resolution::start(query(vec![source("a")], vec![]));
    assert_eq!(step, ResolveStep::NotFound);
}

#[test]
fn empty_transfer_is_no_object() {
    let meta = FoundObjectMeta { source_index: 0, filetype: FileType::Pdb, purpose: ObjectPurpose::Debug };
    assert!(!ObjectHandle::new(meta, None).has_object());
    let empty = ObjectHandle::new(meta, Some(vec![]));
    assert!(!empty.has_object());
    assert_eq!(empty.len(), 0);
    assert_eq!(ObjectHandle::new(meta, Some(vec![1, 2])).to_vec(), vec![1, 2]);
}
