use auto_video::library_scan::{
    library_entry_step, LibraryEntryKind, LibraryEntryStep, MAX_LIBRARY_FILES,
};

#[test]
fn library_walk_steps_follow_the_entry() {
    assert_eq!(
        library_entry_step(0, Some("Show"), LibraryEntryKind::Directory, "/lib/Show"),
        LibraryEntryStep::Descend
    );
    assert_eq!(
        library_entry_step(0, Some("a.MKV"), LibraryEntryKind::File, "/lib/a.MKV"),
        LibraryEntryStep::Capture
    );
    assert_eq!(
        library_entry_step(0, Some("a.txt"), LibraryEntryKind::File, "/lib/a.txt"),
        LibraryEntryStep::Skip
    );
    assert_eq!(
        library_entry_step(0, Some(".hidden.mkv"), LibraryEntryKind::File, "/lib/.hidden.mkv"),
        LibraryEntryStep::Skip
    );
    assert_eq!(
        library_entry_step(0, Some(".Trash"), LibraryEntryKind::Directory, "/lib/.Trash"),
        LibraryEntryStep::Skip
    );
    assert_eq!(
        library_entry_step(0, None, LibraryEntryKind::File, "/lib/x.mkv"),
        LibraryEntryStep::Skip
    );
    assert_eq!(
        library_entry_step(0, Some("link.mkv"), LibraryEntryKind::Other, "/lib/link.mkv"),
        LibraryEntryStep::Skip
    );
    assert_eq!(
        library_entry_step(MAX_LIBRARY_FILES, Some("a.mkv"), LibraryEntryKind::File, "/lib/a.mkv"),
        LibraryEntryStep::Stop
    );
}
