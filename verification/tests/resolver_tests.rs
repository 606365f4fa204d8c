use std::io::Read;
use std::io::Write;

use tempfile::Builder;
use tempfile::TempDir;

use yao_mcp::vault::error::VaultError;
use yao_mcp::vault::probe::ProbeOutcome;
use yao_mcp::vault::vault::Vault;

fn vault_over(dir: &TempDir) -> (Vault, String) {
    let root = dir.path().to_str().unwrap().to_string();
    let vault = Vault::new(root.clone()).unwrap();
    (vault, root)
}

const FILE_NO_TRAVERSAL: &str = "testfolder/subfolder/test-note.md";
const FILE_WITH_TRAVERSAL: &str = "./../subfolder/test-note.md";

#[test]
fn should_resolve_path_from_vault_root() {
    let temp_dir = TempDir::new().unwrap();
    let (vault, root) = vault_over(&temp_dir);

    /* no traversal */
    let result = vault.resolve_path_from_vault_root(FILE_NO_TRAVERSAL);
    assert!(result.is_ok());
    assert_eq!(format!("{}/{}", root, FILE_NO_TRAVERSAL), result.unwrap());

    /* no traversal and absolute */
    let absolute = format!("/{}", FILE_NO_TRAVERSAL);
    let result = vault.resolve_path_from_vault_root(&absolute);
    assert!(result.is_ok());
    assert_eq!(format!("{}/{}", root, FILE_NO_TRAVERSAL), result.unwrap());

    /* not existing traversal */
    let result = vault.resolve_path_from_vault_root(FILE_WITH_TRAVERSAL);
    match result.err().unwrap() {
        VaultError::InvalidPath { input, cause } => {
            assert_eq!(FILE_WITH_TRAVERSAL, input);
            assert_eq!("Kind(InvalidInput)", cause);
        }
        other => panic!("expected an invalid-path rejection, got {:?}", other),
    }
}

#[test]
fn invalid_path_message_matches_request() {
    let temp_dir = TempDir::new().unwrap();
    let (vault, _root) = vault_over(&temp_dir);
    let err = vault.resolve_path_from_vault_root(FILE_WITH_TRAVERSAL).err().unwrap();
    assert_eq!(
        format!("Invalid path \"{}\": Kind(InvalidInput)", FILE_WITH_TRAVERSAL),
        err.message()
    );
}

#[test]
fn traversal_without_existing_ancestor_fails() {
    let temp_dir = TempDir::new().unwrap();
    let (vault, _root) = vault_over(&temp_dir);
    let result = vault.resolve_path_from_vault_root("../outside/file.md");
    match result.err().unwrap() {
        VaultError::InvalidPath { input, .. } => assert_eq!("../outside/file.md", input),
        VaultError::PathTraversal { input } => assert_eq!("../outside/file.md", input),
        other => panic!("expected a path error, got {:?}", other),
    }
}

#[test]
fn traversal_to_existing_location_is_rejected() {
    // `..` names the parent of the process's working directory, which exists
    // and lies outside the fresh vault: the probe sees real traversal.
    let temp_dir = TempDir::new().unwrap();
    let (vault, _root) = vault_over(&temp_dir);
    match vault.resolve_path_from_vault_root("..").err().unwrap() {
        VaultError::PathTraversal { input } => assert_eq!("..", input),
        other => panic!("expected a traversal rejection, got {:?}", other),
    }
}

#[test]
fn traversal_rejection_carries_original_input() {
    let temp_dir = TempDir::new().unwrap();
    let (vault, _root) = vault_over(&temp_dir);
    let err = vault.resolve_path_from_vault_root("..").err().unwrap();
    assert_eq!("Invalid Path: path traversal detected: \"..\"", err.message());
}

#[test]
fn nonexistent_target_is_not_an_error() {
    let temp_dir = TempDir::new().unwrap();
    let (vault, root) = vault_over(&temp_dir);
    let result = vault.resolve_path_from_vault_root("newdir/newfile.md");
    assert_eq!(Ok(format!("{}/newdir/newfile.md", root)), result);
}

#[test]
fn absolute_and_relative_spellings_agree() {
    let temp_dir = TempDir::new().unwrap();
    let (vault, _root) = vault_over(&temp_dir);
    let relative = vault.resolve_path_from_vault_root("a/b.md");
    let absolute = vault.resolve_path_from_vault_root("/a/b.md");
    assert!(relative.is_ok());
    assert_eq!(relative, absolute);
}

#[test]
fn inner_dots_and_repeated_separators_are_collapsed() {
    let temp_dir = TempDir::new().unwrap();
    let (vault, root) = vault_over(&temp_dir);
    assert_eq!(
        Ok(format!("{}/a/b/c", root)),
        vault.resolve_path_from_vault_root("a//b/./c")
    );
    assert_eq!(
        Ok(format!("{}/a/c", root)),
        vault.resolve_path_from_vault_root("a/b/../c")
    );
    // Excess `..` after a plain first component clamps at the root.
    assert_eq!(
        Ok(format!("{}/b", root)),
        vault.resolve_path_from_vault_root("a/../../b")
    );
    // A request that collapses to nothing names the root directory itself.
    assert_eq!(Ok(format!("{}/", root)), vault.resolve_path_from_vault_root("a/.."));
}

#[test]
fn root_only_request_names_the_vault_root() {
    let temp_dir = TempDir::new().unwrap();
    let (vault, root) = vault_over(&temp_dir);
    // After absolute-stripping nothing remains; the resolver answers with
    // the vault root directory itself.
    assert_eq!(Ok(format!("{}/", root)), vault.resolve_path_from_vault_root("/"));
}

#[test]
fn resolution_is_repeatable() {
    let temp_dir = TempDir::new().unwrap();
    let (vault, _root) = vault_over(&temp_dir);
    // The store reads and writes at the same location for the same request:
    // one resolve per call, same answer each time.
    let first = vault.locate_note("notes/today.md");
    let second = vault.locate_note("notes/today.md");
    assert!(first.is_ok());
    assert_eq!(first, second);
}

#[test]
fn empty_path_is_a_caller_error() {
    let temp_dir = TempDir::new().unwrap();
    let (vault, _root) = vault_over(&temp_dir);
    // The guard holds for the read side and the write side alike.
    assert_eq!(Err(VaultError::EmptyPath), vault.locate_note(""));
    assert_eq!(Err(VaultError::EmptyPath), vault.locate_note(""));
    assert_eq!("path cannot be empty", VaultError::EmptyPath.message());
}

#[test]
fn locate_note_resolves_nonempty_requests() {
    let temp_dir = TempDir::new().unwrap();
    let (vault, root) = vault_over(&temp_dir);
    assert_eq!(Ok(format!("{}/notes/a.md", root)), vault.locate_note("notes/a.md"));
}

#[test]
fn probe_failure_is_an_invalid_path() {
    let temp_dir = TempDir::new().unwrap();
    let (vault, _root) = vault_over(&temp_dir);
    let probe = ProbeOutcome::Failed { cause: "PermissionDenied".to_string() };
    match vault.resolve_with_probe("notes/a.md", probe).err().unwrap() {
        VaultError::InvalidPath { input, cause } => {
            assert_eq!("notes/a.md", input);
            assert_eq!("PermissionDenied", cause);
        }
        other => panic!("expected an invalid-path rejection, got {:?}", other),
    }
}

#[test]
fn escape_verdict_is_a_traversal_rejection() {
    let temp_dir = TempDir::new().unwrap();
    let (vault, _root) = vault_over(&temp_dir);
    match vault.resolve_with_probe("notes/a.md", ProbeOutcome::Escapes).err().unwrap() {
        VaultError::PathTraversal { input } => assert_eq!("notes/a.md", input),
        other => panic!("expected a traversal rejection, got {:?}", other),
    }
}

#[test]
fn resolved_path_round_trips_file_content() {
    let temp_dir = TempDir::new().unwrap();
    let (vault, _root) = vault_over(&temp_dir);
    let mut note = Builder::new()
        .prefix("note")
        .suffix(".md")
        .tempfile_in(temp_dir.path())
        .unwrap();
    let name = note.path().file_name().unwrap().to_str().unwrap().to_string();
    let expected = note.path().to_str().unwrap().to_string();

    // The store would read and write exactly the file the resolver names.
    let resolved = vault.locate_note(&name).unwrap();
    assert_eq!(expected, resolved);

    let content = "# Heading\n\nSome UTF-8 text: \u{00e9}\u{00e8}\n";
    note.as_file_mut().write_all(content.as_bytes()).unwrap();
    note.as_file_mut().flush().unwrap();

    let mut read_back = String::new();
    note.reopen().unwrap().read_to_string(&mut read_back).unwrap();
    assert_eq!(content, read_back);
}
