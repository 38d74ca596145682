use std::collections::BTreeMap;

use chunked_upload::merge::{Action, MergeEvent, MergeSession, Report, Stage};
use chunked_upload::naming::chunk_file_name;

const BASE: &str = "https://files.example";

struct Disk {
    chunks: BTreeMap<String, Vec<u8>>,
    artifacts: BTreeMap<String, Vec<u8>>,
}

impl Disk {
    fn new() -> Disk {
        Disk { chunks: BTreeMap::new(), artifacts: BTreeMap::new() }
    }

    fn put_chunk(&mut self, id: &str, seq: u32, bytes: &[u8]) {
        self.chunks.insert(chunk_file_name(id, seq), bytes.to_vec());
    }

    fn merge(&mut self, id: &str, final_name: &str, total: usize) -> Vec<MergeEvent> {
        let entries: Vec<String> = self.chunks.keys().cloned().collect();
        let (mut session, mut step) = MergeSession::start(id, final_name, BASE, &entries, total);
        let mut events = Vec::new();
        loop {
            events.extend(step.events.iter().cloned());
            let report = match &step.action {
                Action::Stop => return events,
                Action::CreateArtifact => {
                    if self.artifacts.contains_key(final_name) {
                        Report::AlreadyExists
                    } else {
                        self.artifacts.insert(final_name.to_string(), Vec::new());
                        Report::Created
                    }
                }
                Action::CheckArtifact => {
                    if self.artifacts.contains_key(final_name) {
                        Report::ArtifactFound
                    } else {
                        Report::ArtifactMissing
                    }
                }
                Action::RemoveParts(parts) => {
                    for seq in parts {
                        self.chunks.remove(&chunk_file_name(id, *seq));
                    }
                    Report::Removed
                }
                Action::AppendPart(seq) => match self.chunks.get(&chunk_file_name(id, *seq)) {
                    Some(bytes) => {
                        let bytes = bytes.clone();
                        self.artifacts.get_mut(final_name).unwrap().extend(bytes);
                        Report::Appended
                    }
                    None => Report::AppendFailed(format!("failed to read chunk #{seq}")),
                },
                Action::RemovePart(seq) => {
                    self.chunks.remove(&chunk_file_name(id, *seq));
                    Report::Removed
                }
            };
            step = session.advance(report);
        }
    }
}

fn three_chunk_upload() -> Disk {
    let mut disk = Disk::new();
    disk.put_chunk("abc", 2, b"BBBB");
    disk.put_chunk("abc", 1, b"AAAA");
    disk.put_chunk("abc", 3, b"CC");
    disk
}

#[test]
fn merges_three_chunks_in_order() {
    let mut disk = three_chunk_upload();
    let events = disk.merge("abc", "out.bin", 3);
    assert_eq!(
        events,
        vec![
            MergeEvent::Progress(1),
            MergeEvent::Progress(2),
            MergeEvent::Progress(3),
            MergeEvent::Done(format!("{BASE}/out.bin")),
        ]
    );
    assert_eq!(disk.artifacts.get("out.bin").unwrap(), b"AAAABBBBCC");
    assert!(disk.chunks.is_empty());
}

#[test]
fn too_few_declared_is_missing_chunks() {
    let mut disk = three_chunk_upload();
    let events = disk.merge("abc", "out.bin", 2);
    assert_eq!(events, vec![MergeEvent::MissingChunks { found: 3, total: 2 }]);
    assert!(disk.artifacts.is_empty());
    assert_eq!(disk.chunks.len(), 3);
}

#[test]
fn too_many_declared_is_missing_chunks() {
    let mut disk = three_chunk_upload();
    let events = disk.merge("abc", "out.bin", 4);
    assert_eq!(events, vec![MergeEvent::MissingChunks { found: 3, total: 4 }]);
    assert!(disk.artifacts.is_empty());
}

#[test]
fn corrupt_name_creates_nothing() {
    let mut disk = three_chunk_upload();
    disk.chunks.insert("(abc)-x".to_string(), b"ZZ".to_vec());
    let events = disk.merge("abc", "out.bin", 4);
    assert_eq!(events, vec![MergeEvent::CorruptChunkName]);
    assert!(disk.artifacts.is_empty());
    assert_eq!(disk.chunks.len(), 4);
}

#[test]
fn unknown_id_is_not_found() {
    let mut disk = three_chunk_upload();
    let events = disk.merge("zzz", "out.bin", 3);
    assert_eq!(events, vec![MergeEvent::IdNotFound]);
    assert!(disk.artifacts.is_empty());
}

#[test]
fn second_merge_is_duplicate_and_cleans_up() {
    let mut disk = three_chunk_upload();
    disk.merge("abc", "out.bin", 3);
    disk.put_chunk("abc", 1, b"xxxx");
    disk.put_chunk("abc", 2, b"yyyy");
    disk.put_chunk("abc", 3, b"zz");
    let events = disk.merge("abc", "out.bin", 3);
    assert_eq!(events, vec![MergeEvent::Duplicate]);
    assert_eq!(disk.artifacts.get("out.bin").unwrap(), b"AAAABBBBCC");
    assert!(disk.chunks.is_empty());
}

#[test]
fn second_merge_without_chunks_is_duplicate() {
    let mut disk = three_chunk_upload();
    disk.merge("abc", "out.bin", 3);
    assert!(disk.chunks.is_empty());
    let events = disk.merge("abc", "out.bin", 3);
    assert_eq!(events, vec![MergeEvent::Duplicate]);
    assert_eq!(disk.artifacts.get("out.bin").unwrap(), b"AAAABBBBCC");
    assert_eq!(disk.artifacts.len(), 1);
}

#[test]
fn no_parts_and_no_artifact_probes_then_not_found() {
    let entries: Vec<String> = Vec::new();
    let (mut session, step) = MergeSession::start("abc", "out.bin", BASE, &entries, 3);
    assert!(step.events.is_empty());
    assert_eq!(step.action, Action::CheckArtifact);
    assert_eq!(session.stage, Stage::Probe);
    let step = session.advance(Report::ArtifactMissing);
    assert_eq!(step.events, vec![MergeEvent::IdNotFound]);
    assert_eq!(step.action, Action::Stop);
}

#[test]
fn no_parts_and_artifact_present_is_duplicate() {
    let entries = vec!["(other)-1".to_string()];
    let (mut session, step) = MergeSession::start("abc", "out.bin", BASE, &entries, 3);
    assert_eq!(step.action, Action::CheckArtifact);
    let step = session.advance(Report::ArtifactFound);
    assert_eq!(step.events, vec![MergeEvent::Duplicate]);
    assert_eq!(step.action, Action::Stop);
    assert_eq!(session.stage, Stage::Over);
}

#[test]
fn create_failure_is_server_error() {
    let entries = vec!["(abc)-1".to_string()];
    let (mut session, step) = MergeSession::start("abc", "out.bin", BASE, &entries, 1);
    assert_eq!(step.action, Action::CreateArtifact);
    let step = session.advance(Report::CreateFailed("disk full".to_string()));
    assert_eq!(step.events, vec![MergeEvent::ServerError("disk full".to_string())]);
    assert_eq!(step.action, Action::Stop);
    assert_eq!(session.stage, Stage::Over);
}

#[test]
fn append_failure_stops_the_merge() {
    let entries = vec!["(abc)-1".to_string(), "(abc)-2".to_string()];
    let (mut session, _) = MergeSession::start("abc", "out.bin", BASE, &entries, 2);
    let step = session.advance(Report::Created);
    assert_eq!(step.action, Action::AppendPart(1));
    let step = session.advance(Report::Appended);
    assert_eq!(step.action, Action::RemovePart(1));
    let step = session.advance(Report::Removed);
    assert_eq!(step.events, vec![MergeEvent::Progress(1)]);
    assert_eq!(step.action, Action::AppendPart(2));
    let step = session.advance(Report::AppendFailed("merge file error".to_string()));
    assert_eq!(step.events, vec![MergeEvent::ServerError("merge file error".to_string())]);
    assert_eq!(step.action, Action::Stop);
    let step = session.advance(Report::Removed);
    assert!(step.events.is_empty());
    assert_eq!(step.action, Action::Stop);
}

#[test]
fn report_out_of_turn_is_server_error() {
    let entries = vec!["(abc)-1".to_string()];
    let (mut session, _) = MergeSession::start("abc", "out.bin", BASE, &entries, 1);
    let step = session.advance(Report::Appended);
    assert_eq!(step.events.len(), 1);
    assert!(matches!(step.events[0], MergeEvent::ServerError(_)));
    assert_eq!(step.action, Action::Stop);
    assert_eq!(session.stage, Stage::Over);
}

#[test]
fn location_joins_base_and_name() {
    let entries = vec!["(abc)-1".to_string()];
    let (session, _) = MergeSession::start("abc", "report.pdf", "http://h", &entries, 1);
    assert_eq!(session.location, "http://h/report.pdf");
}

#[test]
fn event_ids_and_payloads() {
    let e = MergeEvent::MissingChunks { found: 3, total: 2 };
    assert_eq!(e.kind(), "missingchunks");
    assert_eq!(
        e.payload(),
        "3 chunks were received, but 2 chunks was specified. are some chunks missing?"
    );
    assert_eq!(MergeEvent::Progress(12).kind(), "progress");
    assert_eq!(MergeEvent::Progress(12).payload(), "12");
    assert_eq!(MergeEvent::Done("u/f".to_string()).kind(), "done");
    assert_eq!(MergeEvent::Done("u/f".to_string()).payload(), "u/f");
    assert_eq!(MergeEvent::ServerError("bad".to_string()).kind(), "servererror");
    assert_eq!(MergeEvent::ServerError("bad".to_string()).payload(), "bad");
    assert_eq!(MergeEvent::IdNotFound.kind(), "idnotfound");
    assert_eq!(MergeEvent::IdNotFound.payload(), "file not found from id");
    assert_eq!(MergeEvent::CorruptChunkName.kind(), "corruptchunkname");
    assert_eq!(MergeEvent::CorruptChunkName.payload(), "one or more chunks not saved correctly");
    assert_eq!(MergeEvent::Duplicate.kind(), "duplicate");
    assert_eq!(MergeEvent::Duplicate.payload(), "cannot upload because duplicate");
}
