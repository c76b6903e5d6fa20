use rust_jaccard::{classify_extension, has_executable_magic, is_binary_file, ExtensionClass};

#[test]
fn database_files_are_excluded() {
    assert_eq!(classify_extension("bndb"), ExtensionClass::Excluded);
    assert_eq!(classify_extension("BNDB"), ExtensionClass::Excluded);
    assert!(!is_binary_file("bndb", Some(*b"MZ\0\0")));
}

#[test]
fn known_extensions_in_any_case() {
    for ext in ["exe", "dll", "sys", "bin", "so", "dylib", "o", "elf", "EXE", "Dll", "DyLib"] {
        assert_eq!(classify_extension(ext), ExtensionClass::KnownBinary, "{}", ext);
        assert!(is_binary_file(ext, None));
    }
}

#[test]
fn other_extensions_defer_to_header() {
    for ext in ["", "txt", "exe2", "oo", "ex", "élf"] {
        assert_eq!(classify_extension(ext), ExtensionClass::Unknown, "{}", ext);
    }
    assert!(!is_binary_file("txt", None));
    assert!(is_binary_file("txt", Some(*b"\x7fELF")));
    assert!(!is_binary_file("txt", Some(*b"\x7fEL\0")));
}

#[test]
fn executable_magic_numbers() {
    assert!(has_executable_magic(*b"MZ\x90\0"));
    assert!(has_executable_magic(*b"\x7fELF"));
    assert!(has_executable_magic([0xfe, 0xed, 0xfa, 0xce]));
    assert!(has_executable_magic([0xce, 0xfa, 0xed, 0xfe]));
    assert!(has_executable_magic([0xfe, 0xed, 0xfa, 0xcf]));
    assert!(has_executable_magic([0xcf, 0xfa, 0xed, 0xfe]));
    assert!(has_executable_magic([0xca, 0xfe, 0xba, 0xbe]));
    assert!(!has_executable_magic(*b"ZM\0\0"));
    assert!(!has_executable_magic([0xca, 0xfe, 0xba, 0xbf]));
    assert!(!has_executable_magic([0, 0, 0, 0]));
}
