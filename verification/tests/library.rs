use abolishpdfs::pdfium::library::{candidate_paths, library_name};
use abolishpdfs::pdfium::PdfiumLibrary;

#[test]
fn missing_library_reports_all_checked_paths() {
    let error = PdfiumLibrary::resolve(Some("/missing/explicit"), None, "/missing/bin/abolishpdfs", "linux")
        .unwrap_err();

    assert_eq!(error.checked_paths.len(), 2);
    assert!(error.message().contains("/missing/explicit"));
    assert!(error.message().contains("libpdfium.so"));
}

#[test]
fn explicit_library_path_takes_precedence() {
    let resolved =
        PdfiumLibrary::resolve(Some("/proc/self/exe"), Some("/missing/from-env"), "/missing/bin/abolishpdfs", "linux")
            .unwrap();
    assert_eq!(resolved.path(), "/proc/self/exe");
}

#[test]
fn environment_path_is_used_when_explicit_path_is_absent() {
    let resolved = PdfiumLibrary::resolve(None, Some("/proc/self/exe"), "/missing/bin/abolishpdfs", "linux").unwrap();
    assert_eq!(resolved.path(), "/proc/self/exe");
}

#[test]
fn missing_explicit_path_falls_back_to_the_sibling() {
    let resolved = PdfiumLibrary::resolve(Some("/missing/explicit"), None, "src/lib.rs", "linux");
    let error = resolved.unwrap_err();
    assert_eq!(error.checked_paths, vec!["/missing/explicit".to_owned(), "src/libpdfium.so".to_owned()]);
}

#[test]
fn library_file_name_follows_the_operating_system() {
    assert_eq!(library_name("windows"), "pdfium.dll");
    assert_eq!(library_name("macos"), "libpdfium.dylib");
    assert_eq!(library_name("linux"), "libpdfium.so");
}

#[test]
fn candidates_are_the_configured_path_then_the_sibling() {
    assert_eq!(
        candidate_paths(Some("/a/explicit.so"), Some("/b/env.so"), "/opt/bin/tool", "libpdfium.so"),
        vec!["/a/explicit.so".to_owned(), "/opt/bin/libpdfium.so".to_owned()]
    );
    assert_eq!(
        candidate_paths(None, Some("/b/env.so"), "/opt/bin/tool", "libpdfium.so"),
        vec!["/b/env.so".to_owned(), "/opt/bin/libpdfium.so".to_owned()]
    );
    assert_eq!(candidate_paths(None, None, "/", "libpdfium.so"), Vec::<String>::new());
}

#[test]
fn selection_takes_the_first_present_candidate() {
    let candidates = vec!["one".to_owned(), "two".to_owned(), "three".to_owned()];
    let library = PdfiumLibrary::select(candidates.clone(), &vec![false, true, true], "libpdfium.so").unwrap();
    assert_eq!(library.path(), "two");
    let error = PdfiumLibrary::select(candidates.clone(), &vec![false, false, false], "libpdfium.so").unwrap_err();
    assert_eq!(error.checked_paths, candidates);
    assert_eq!(error.expected_name, "libpdfium.so");
    assert_eq!(error.message(), "could not find libpdfium.so in:\n  one\n  two\n  three");
}
