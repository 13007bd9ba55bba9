use aegis_vault::paths::{decrypted_path, restored_extension, restores_in_place, vault_path};

#[test]
fn vaults_stand_beside_their_sources() {
    assert_eq!(vault_path("/tmp/notes.txt"), "/tmp/notes.txt.aegis");
    assert_eq!(vault_path("notes"), "notes.aegis");
    assert_eq!(vault_path(""), ".aegis");
}

#[test]
fn a_vault_is_restored_at_its_source() {
    for source in [
        "/tmp/notes.txt",
        "notes",
        "a/b.c/d",
        ".hidden",
        "..",
        "x.",
        "archive.tar.gz",
        "über/straße",
        "//server/share/notes.txt",
        "//server/share/dir/notes",
        "\\\\server\\share\\notes.txt",
        "::notes",
    ] {
        assert_eq!(decrypted_path(&vault_path(source)), source);
    }
}

#[test]
fn other_files_are_restored_as_decrypted() {
    assert_eq!(decrypted_path("/tmp/notes.txt"), "/tmp/notes.decrypted");
    assert_eq!(decrypted_path("notes"), "notes.decrypted");
    assert_eq!(decrypted_path("notes.AEGIS"), "notes.decrypted");
    assert_eq!(decrypted_path("a.aegis/b"), "a.aegis/b.decrypted");
    assert_eq!(decrypted_path(".aegis"), ".aegis.decrypted");
}

#[test]
fn a_vault_without_a_source_name_is_restored_elsewhere() {
    assert_eq!(decrypted_path(&vault_path("dir/")), "dir/.aegis.decrypted");
}

#[test]
fn extensions_of_restored_files() {
    assert_eq!(restored_extension(Some("aegis".to_string())), "");
    assert_eq!(restored_extension(Some("Aegis".to_string())), "decrypted");
    assert_eq!(restored_extension(Some(String::new())), "decrypted");
    assert_eq!(restored_extension(None), "decrypted");
}

#[test]
fn paths_that_restore_in_place() {
    for source in ["notes", "/tmp/notes.txt", "a/b.c/d", ".hidden", "..", "x."] {
        assert!(restores_in_place(source));
    }
    for source in ["", "dir/", ".", "a/."] {
        assert!(!restores_in_place(source));
    }
    for source in ["//tmp/x", "///x", "x\\", "x:", "a:b/c", "\\\\?\\C:\\x"] {
        if std::path::MAIN_SEPARATOR == '/' {
            assert!(restores_in_place(source));
        }
        if restores_in_place(source) {
            assert_eq!(decrypted_path(&vault_path(source)), source);
        }
    }
}
