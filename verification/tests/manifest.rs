use async_exercises::manifest::{
    catalog_manifest, parse_first_text, parse_host, parse_manifest_id, parse_manifest_version,
    sideload_manifest, ManifestError, SideloadManifest,
};

const MANIFEST: &str = r#"<?xml version="1.0" encoding="UTF-8"?>
<OfficeApp xmlns="http://schemas.microsoft.com/office/appforoffice/1.1" xmlns:xsi="http://www.w3.org/2001/XMLSchema-instance" xsi:type="TaskPaneApp">
  <Id>0d6c5e1a-1111-4c3b-9a55-123456789abc</Id>
  <Version>2.3.0.1</Version>
  <ProviderName>Example &amp; Co</ProviderName>
  <DefaultLocale>zh-CN</DefaultLocale>
  <Hosts>
    <Host Name="Document" />
  </Hosts>
</OfficeApp>"#;

#[test]
fn first_text_of_a_tag() {
    assert_eq!(parse_first_text(MANIFEST, b"Id").as_deref(), Some("0d6c5e1a-1111-4c3b-9a55-123456789abc"));
    assert_eq!(parse_first_text(MANIFEST, b"Version").as_deref(), Some("2.3.0.1"));
    assert_eq!(parse_first_text(MANIFEST, b"ProviderName").as_deref(), Some("Example & Co"));
    assert_eq!(parse_first_text(MANIFEST, b"Missing"), None);
}

#[test]
fn first_text_ignores_namespace_prefixes_and_text_outside_the_tag() {
    let xml = "<a>before<x:Id>  inner  </x:Id>after</a>";
    assert_eq!(parse_first_text(xml, b"Id").as_deref(), Some("inner"));
    let xml = "<a><Id></Id>later</a>";
    assert_eq!(parse_first_text(xml, b"Id"), None);
    let xml = "<a><Id><b>nested</b></Id></a>";
    assert_eq!(parse_first_text(xml, b"Id").as_deref(), Some("nested"));
}

#[test]
fn first_text_is_none_on_an_error_or_a_bad_escape() {
    assert_eq!(parse_first_text("<a></b><Id>x</Id>", b"Id"), None);
    assert_eq!(parse_first_text("<Id>a &bogus; b</Id>", b"Id"), None);
    assert_eq!(parse_first_text("", b"Id"), None);
}

#[test]
fn manifest_id_and_version() {
    assert_eq!(parse_manifest_id(MANIFEST), Ok("0d6c5e1a-1111-4c3b-9a55-123456789abc".to_string()));
    assert_eq!(parse_manifest_version(MANIFEST), Ok("2.3.0.1".to_string()));
    assert_eq!(parse_manifest_id("<a/>"), Err(ManifestError::MissingId));
    assert_eq!(parse_manifest_version("<a/>"), Err(ManifestError::MissingVersion));
}

#[test]
fn host_from_an_empty_or_a_start_tag() {
    assert_eq!(parse_host(MANIFEST), Ok("Document".to_string()));
    assert_eq!(parse_host(r#"<Hosts><Host Name="Workbook"></Host></Hosts>"#), Ok("Workbook".to_string()));
    assert_eq!(parse_host(r#"<p:Host Other="1" Name="A&amp;B"/>"#), Ok("A&B".to_string()));
}

#[test]
fn host_skips_host_tags_without_a_name() {
    let xml = r#"<r><Host Kind="x"/><Host Name="Presentation"/></r>"#;
    assert_eq!(parse_host(xml), Ok("Presentation".to_string()));
}

#[test]
fn host_errors() {
    assert_eq!(parse_host("<r><Other Name=\"x\"/></r>"), Err(ManifestError::MissingHost));
    assert_eq!(parse_host(""), Err(ManifestError::MissingHost));
    assert!(matches!(parse_host("<r></q><Host Name=\"Document\"/>"), Err(ManifestError::Xml(m)) if m.contains("q")));
    assert!(matches!(parse_host(r#"<Host Kind Name="Document"/>"#), Err(ManifestError::Xml(_))));
    assert!(matches!(parse_host(r#"<Host Name="a &nope; b"/>"#), Err(ManifestError::Xml(m)) if m.contains("nope")));
}

#[test]
fn sideload_manifest_reads_id_version_and_checks_the_host() {
    assert_eq!(
        sideload_manifest(MANIFEST),
        Ok(SideloadManifest {
            addin_id: "0d6c5e1a-1111-4c3b-9a55-123456789abc".to_string(),
            version: "2.3.0.1".to_string(),
        })
    );
    let no_version = r#"<OfficeApp><Id>abc</Id><Host Name="Document"/></OfficeApp>"#;
    assert_eq!(
        sideload_manifest(no_version),
        Ok(SideloadManifest { addin_id: "abc".to_string(), version: "1.0.0.0".to_string() })
    );
}

#[test]
fn sideload_manifest_errors_in_order() {
    assert_eq!(sideload_manifest(r#"<Host Name="Workbook"/>"#), Err(ManifestError::MissingId));
    assert_eq!(sideload_manifest("<a><Id>x</Id></a>"), Err(ManifestError::MissingHost));
    assert_eq!(
        sideload_manifest(r#"<a><Id>x</Id><Host Name="Workbook"/></a>"#),
        Err(ManifestError::NotWordHost("Workbook".to_string()))
    );
}

#[test]
fn catalog_manifest_gives_the_id_of_a_word_add_in() {
    assert_eq!(catalog_manifest(MANIFEST), Ok("0d6c5e1a-1111-4c3b-9a55-123456789abc".to_string()));
    assert_eq!(catalog_manifest("<a/>"), Err(ManifestError::MissingId));
    assert_eq!(
        catalog_manifest(r#"<a><Id>x</Id><Host Name="Mailbox"/></a>"#),
        Err(ManifestError::NotWordHost("Mailbox".to_string()))
    );
    assert!(matches!(catalog_manifest("<a><Id>x</Id><b></c>"), Err(ManifestError::Xml(_))));
}

#[test]
fn manifest_error_messages() {
    assert_eq!(ManifestError::MissingId.message(), "manifest 中没有找到 <Id>");
    assert_eq!(ManifestError::MissingVersion.message(), "manifest 中没有找到 <Version>");
    assert_eq!(ManifestError::MissingHost.message(), "manifest 中没有找到 <Host Name=\"...\">");
    assert_eq!(ManifestError::Xml("bad".to_string()).message(), "bad");
    assert_eq!(
        ManifestError::NotWordHost("Workbook".to_string()).message(),
        "当前程序只支持 Word 加载项，manifest Host 是: Workbook"
    );
}
