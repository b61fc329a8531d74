use std::io::{Cursor, Read};

use async_exercises::docx::{build_word_docx, webextension_xml, DocxError, CONTENT_TYPES, DOCUMENT_XML};
use async_exercises::install::{
    relaunch_command, share_argument, share_catalog_url, sideload_docx_name, trusted_catalog_key_path,
};

#[test]
fn catalog_names() {
    assert_eq!(share_catalog_url(Some("PC-1".to_string())), r"\\PC-1\XljOfficeAddinCatalog");
    assert_eq!(share_catalog_url(None), r"\\localhost\XljOfficeAddinCatalog");
    assert_eq!(share_argument(r"C:\Users\Public\X"), r"XljOfficeAddinCatalog=C:\Users\Public\X");
    assert_eq!(
        trusted_catalog_key_path(),
        r"SOFTWARE\Microsoft\Office\16.0\WEF\TrustedCatalogs\{a81ffdb3-0c25-496c-bfb3-26939675962b}"
    );
    assert_eq!(sideload_docx_name("abc"), "Word add-in abc.docx");
}

#[test]
fn relaunch_command_escapes_double_quotes() {
    assert_eq!(
        relaunch_command(r"C:\a b\x.exe"),
        r#"Start-Process -FilePath "C:\a b\x.exe" -Verb RunAs"#
    );
    assert_eq!(relaunch_command(r#"C:\"q"\程序.exe"#), r#"Start-Process -FilePath "C:\`"q`"\程序.exe" -Verb RunAs"#);
    assert_eq!(relaunch_command(""), r#"Start-Process -FilePath "" -Verb RunAs"#);
}

#[test]
fn webextension_names_the_add_in_and_its_version() {
    assert_eq!(
        webextension_xml("ID-1", "1.2"),
        r#"<?xml version="1.0" encoding="utf-8"?><we:webextension xmlns:we="http://schemas.microsoft.com/office/webextensions/webextension/2010/11" id="{ID-1}"><we:reference id="ID-1" version="1.2" store="developer" storeType="Registry" /><we:alternateReferences /><we:properties></we:properties><we:bindings /></we:webextension>"#
    );
}

#[test]
fn word_docx_is_a_zip_of_the_document_parts() {
    let bytes = build_word_docx("ID-1", "1.2").unwrap();
    assert_eq!(&bytes[..4], b"PK\x03\x04");
    assert_eq!(build_word_docx("ID-1", "1.2").unwrap(), bytes);
    assert_ne!(build_word_docx("ID-2", "1.2").unwrap(), bytes);

    let mut archive = zip::ZipArchive::new(Cursor::new(bytes)).unwrap();
    let names: Vec<String> = (0..archive.len()).map(|i| archive.by_index(i).unwrap().name().to_string()).collect();
    assert_eq!(
        names,
        vec![
            "[Content_Types].xml",
            "_rels/.rels",
            "docProps/app.xml",
            "word/document.xml",
            "word/_rels/document.xml.rels",
            "word/settings.xml",
            "word/styles.xml",
            "word/webSettings.xml",
            "word/fontTable.xml",
            "word/webextensions/taskpanes.xml",
            "word/webextensions/_rels/taskpanes.xml.rels",
            "word/webextensions/webextension.xml",
        ]
    );
    let read = |archive: &mut zip::ZipArchive<Cursor<Vec<u8>>>, name: &str| {
        let mut file = archive.by_name(name).unwrap();
        assert_eq!(file.compression(), zip::CompressionMethod::Deflated);
        let mut text = String::new();
        file.read_to_string(&mut text).unwrap();
        text
    };
    assert_eq!(read(&mut archive, "[Content_Types].xml"), CONTENT_TYPES);
    assert_eq!(read(&mut archive, "word/document.xml"), DOCUMENT_XML);
    assert_eq!(read(&mut archive, "word/webextensions/webextension.xml"), webextension_xml("ID-1", "1.2"));
}

#[test]
fn word_docx_for_abc_holds_its_web_extension_part() {
    let bytes = build_word_docx("abc", "1.0.0.0").unwrap();
    let mut archive = zip::ZipArchive::new(Cursor::new(bytes)).unwrap();
    assert_eq!(archive.len(), 12);
    let mut text = String::new();
    archive.by_name("word/webextensions/webextension.xml").unwrap().read_to_string(&mut text).unwrap();
    assert_eq!(
        text,
        r#"<?xml version="1.0" encoding="utf-8"?><we:webextension xmlns:we="http://schemas.microsoft.com/office/webextensions/webextension/2010/11" id="{abc}"><we:reference id="abc" version="1.0.0.0" store="developer" storeType="Registry" /><we:alternateReferences /><we:properties></we:properties><we:bindings /></we:webextension>"#
    );
}

#[test]
fn docx_error_messages() {
    assert_eq!(DocxError::Zip("zip failed".to_string()).message(), "zip failed");
    assert_eq!(DocxError::Io("io failed".to_string()).message(), "io failed");
}
