use meshlets::shader::{ImportError, ShaderImports};

fn imports() -> ShaderImports {
    let mut imports = ShaderImports::new();
    imports.add(b"global", b"layout(std140) uniform U;\n");
    imports.add(b"particle", b"struct Particle;\n");
    imports
}

#[test]
fn source_without_directive_is_unchanged() {
    let src = b"void main() {}\n";
    assert_eq!(imports().resolve_error(src), None);
    assert_eq!(imports().resolve(src), src.to_vec());
}

#[test]
fn directive_line_is_replaced() {
    let src = b"#version 450\n#import global\nvoid main() {}\n";
    assert_eq!(
        imports().resolve(src),
        b"#version 450\nlayout(std140) uniform U;\nvoid main() {}\n".to_vec()
    );
}

#[test]
fn spaces_around_name_are_ignored() {
    let src = b"#import \t particle  \r\nx";
    assert_eq!(imports().resolve(src), b"struct Particle;\nx".to_vec());
}

#[test]
fn white_space_is_trimmed_as_str_trim_does() {
    let cases = [
        "global\u{0B}",
        "\u{0C}global",
        "\u{85}global\u{A0}",
        "\u{1680}global\u{2000}",
        "\u{200A}global\u{2028}\u{2029}",
        "\u{202F}\u{205F}global\u{3000}",
    ];
    for name in cases {
        assert_eq!(name.trim(), "global");
        let src = format!("#import {}\nx", name);
        assert_eq!(imports().resolve_error(src.as_bytes()), None);
        assert_eq!(imports().resolve(src.as_bytes()), b"layout(std140) uniform U;\nx".to_vec());
    }
}

#[test]
fn other_characters_are_not_trimmed() {
    // U+200B is no white space, for str::trim nor here
    let name = "global\u{200B}";
    assert_eq!(name.trim(), name);
    let src = format!("#import {}\n", name);
    assert_eq!(imports().resolve_error(src.as_bytes()), Some(ImportError::UnknownImport));
}

#[test]
fn several_directives_are_replaced_in_order() {
    let src = b"a\n#import particle\nb\n#import global\n";
    assert_eq!(
        imports().resolve(src),
        b"a\nstruct Particle;\nb\nlayout(std140) uniform U;\n".to_vec()
    );
}

#[test]
fn imported_source_is_not_resolved_again() {
    let mut imports = ShaderImports::new();
    imports.add(b"outer", b"#import inner\n");
    assert_eq!(imports.resolve(b"#import outer\n"), b"#import inner\n".to_vec());
}

#[test]
fn unknown_import_is_an_error() {
    assert_eq!(imports().resolve_error(b"#import missing\n"), Some(ImportError::UnknownImport));
}

#[test]
fn directive_without_newline_is_an_error() {
    assert_eq!(imports().resolve_error(b"x\n#import global"), Some(ImportError::MissingNewline));
}

#[test]
fn registered_names_are_known() {
    let imports = imports();
    assert!(imports.contains(b"global"));
    assert!(imports.contains(b"particle"));
    assert!(!imports.contains(b"paint"));
}
