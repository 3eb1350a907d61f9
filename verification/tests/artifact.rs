use tau_runtime_core::artifact::{ArtifactReader, InMemoryArtifactReader};

#[test]
fn in_memory_reader_returns_seeded_bytes_and_none_for_missing() {
    let reader = InMemoryArtifactReader::new().with_file("/x", b"hi");
    assert_eq!(reader.read_path("/x").unwrap(), Some(b"hi".to_vec()));
    assert_eq!(reader.read_path("/y").unwrap(), None);
}

#[test]
fn later_write_to_same_path_wins() {
    let reader = InMemoryArtifactReader::new().with_file("/x", b"one").with_file("/x", b"two");
    assert_eq!(reader.read_path("/x").unwrap(), Some(b"two".to_vec()));
}

#[test]
fn files_at_other_paths_stay() {
    let reader = InMemoryArtifactReader::new().with_file("/a", b"A").with_file("/b", b"B");
    assert_eq!(reader.read_path("/a").unwrap(), Some(b"A".to_vec()));
    assert_eq!(reader.read_path("/b").unwrap(), Some(b"B".to_vec()));
}
