use vstd::prelude::*;

use std::io::{Cursor, Write};
use zip::write::FileOptions;
use zip::{CompressionMethod, ZipWriter};

verus! {

/// The content types of the document's parts.
pub const CONTENT_TYPES: &'static str = r#"<?xml version="1.0" encoding="UTF-8" standalone="yes"?>
<Types xmlns="http://schemas.openxmlformats.org/package/2006/content-types"><Default Extension="rels" ContentType="application/vnd.openxmlformats-package.relationships+xml"/><Default Extension="xml" ContentType="application/xml"/><Override PartName="/word/document.xml" ContentType="application/vnd.openxmlformats-officedocument.wordprocessingml.document.main+xml"/><Override PartName="/word/styles.xml" ContentType="application/vnd.openxmlformats-officedocument.wordprocessingml.styles+xml"/><Override PartName="/word/settings.xml" ContentType="application/vnd.openxmlformats-officedocument.wordprocessingml.settings+xml"/><Override PartName="/word/webSettings.xml" ContentType="application/vnd.openxmlformats-officedocument.wordprocessingml.webSettings+xml"/><Override PartName="/word/fontTable.xml" ContentType="application/vnd.openxmlformats-officedocument.wordprocessingml.fontTable+xml"/><Override PartName="/word/webextensions/taskpanes.xml" ContentType="application/vnd.ms-office.webextensiontaskpanes+xml"/><Override PartName="/word/webextensions/webextension.xml" ContentType="application/vnd.ms-office.webextension+xml"/><Override PartName="/docProps/app.xml" ContentType="application/vnd.openxmlformats-officedocument.extended-properties+xml"/></Types>"#;

/// The package relationships: the document, its properties and the task panes.
pub const ROOT_RELS: &'static str = r#"<?xml version="1.0" encoding="UTF-8" standalone="yes"?>
<Relationships xmlns="http://schemas.openxmlformats.org/package/2006/relationships"><Relationship Id="rId1" Type="http://schemas.openxmlformats.org/officeDocument/2006/relationships/officeDocument" Target="word/document.xml"/><Relationship Id="rId2" Type="http://schemas.openxmlformats.org/officeDocument/2006/relationships/extended-properties" Target="docProps/app.xml"/><Relationship Id="rId3" Type="http://schemas.microsoft.com/office/2011/relationships/webextensiontaskpanes" Target="/word/webextensions/taskpanes.xml"/></Relationships>"#;

/// The application properties.
pub const APP_XML: &'static str = r#"<?xml version="1.0" encoding="UTF-8" standalone="yes"?>
<Properties xmlns="http://schemas.openxmlformats.org/officeDocument/2006/extended-properties" xmlns:vt="http://schemas.openxmlformats.org/officeDocument/2006/docPropsVTypes"><Application>Microsoft Office Word</Application></Properties>"#;

/// The document body: one paragraph naming the add-in's start document.
pub const DOCUMENT_XML: &'static str = r#"<?xml version="1.0" encoding="UTF-8" standalone="yes"?>
<w:document xmlns:w="http://schemas.openxmlformats.org/wordprocessingml/2006/main" xmlns:r="http://schemas.openxmlformats.org/officeDocument/2006/relationships"><w:body><w:p><w:r><w:t>小绿鲸 Word 加载项启动文档</w:t></w:r></w:p><w:sectPr><w:pgSz w:w="11906" w:h="16838"/><w:pgMar w:top="1440" w:right="1800" w:bottom="1440" w:left="1800" w:header="851" w:footer="992" w:gutter="0"/></w:sectPr></w:body></w:document>"#;

/// The document's relationships (none).
pub const DOCUMENT_RELS: &'static str = r#"<?xml version="1.0" encoding="UTF-8" standalone="yes"?>
<Relationships xmlns="http://schemas.openxmlformats.org/package/2006/relationships"></Relationships>"#;

/// The document settings.
pub const SETTINGS_XML: &'static str = r#"<?xml version="1.0" encoding="UTF-8" standalone="yes"?>
<w:settings xmlns:w="http://schemas.openxmlformats.org/wordprocessingml/2006/main"><w:zoom w:percent="100"/></w:settings>"#;

/// The document styles.
pub const STYLES_XML: &'static str = r#"<?xml version="1.0" encoding="UTF-8" standalone="yes"?>
<w:styles xmlns:w="http://schemas.openxmlformats.org/wordprocessingml/2006/main"><w:style w:type="paragraph" w:default="1" w:styleId="Normal"><w:name w:val="Normal"/></w:style></w:styles>"#;

/// The web settings.
pub const WEB_SETTINGS_XML: &'static str = r#"<?xml version="1.0" encoding="UTF-8" standalone="yes"?>
<w:webSettings xmlns:w="http://schemas.openxmlformats.org/wordprocessingml/2006/main"/>"#;

/// The font table.
pub const FONT_TABLE_XML: &'static str = r#"<?xml version="1.0" encoding="UTF-8" standalone="yes"?>
<w:fonts xmlns:w="http://schemas.openxmlformats.org/wordprocessingml/2006/main"/>"#;

/// The task pane that shows the web extension.
pub const TASKPANES_XML: &'static str = r#"<?xml version="1.0" encoding="utf-8"?>
<wetp:taskpanes xmlns:r="http://schemas.openxmlformats.org/officeDocument/2006/relationships" xmlns:wetp="http://schemas.microsoft.com/office/webextensions/taskpanes/2010/11"><wetp:taskpane dockstate="" visibility="1" width="350" row="1"><wetp:webextensionref xmlns:r="http://schemas.openxmlformats.org/officeDocument/2006/relationships" r:id="Rc731dad7964e4b0c" /></wetp:taskpane></wetp:taskpanes>"#;

/// The task pane's relationship to the web extension part.
pub const TASKPANES_RELS: &'static str = r#"<?xml version="1.0" encoding="utf-8"?>
<Relationships xmlns="http://schemas.openxmlformats.org/package/2006/relationships"><Relationship Type="http://schemas.microsoft.com/office/2011/relationships/webextension" Target="/word/webextensions/webextension.xml" Id="Rc731dad7964e4b0c" /></Relationships>"#;

/// A zip archive being written in memory, by zip's `ZipWriter` over a
/// cursor.
#[verifier::external_body]
pub struct Archive {
    writer: ZipWriter<Cursor<Vec<u8>>>,
}

/// The files that `w` has been asked to write so far, in order: each by its
/// name, as given to a `start_file` that succeeded, with the byte strings of
/// the `write_all` calls that succeeded on it with a non-empty slice, one
/// per call.
pub uninterp spec fn zip_entries(w: Archive) -> Seq<(Seq<char>, Seq<Seq<u8>>)>;

/// Whether the writer inside `w` is still open: it has not been finished,
/// and no write has closed it after a file grew too large.
pub uninterp spec fn zip_open(w: Archive) -> bool;

/// The bytes of the archive that zip's `ZipWriter::finish` completes, in
/// memory, for the files `entries`, each started with default options and
/// deflate compression.
pub uninterp spec fn zip_archive(entries: Seq<(Seq<char>, Seq<Seq<u8>>)>) -> Seq<u8>;

/// The number of bytes in the byte strings `chunks`.
pub open spec fn total_len(chunks: Seq<Seq<u8>>) -> nat
    decreases chunks.len(),
{
    if chunks.len() == 0 {
        0
    } else {
        total_len(chunks.drop_last()) + chunks.last().len()
    }
}

/// The largest number of bytes of a file after which zip can still start
/// the next file or finish the archive. zip refuses to finish a file whose
/// deflated size is over `u32::MAX` (write.rs, `update_local_file_header`);
/// deflate adds only a few bytes per block, since miniz_oxide writes a block
/// that would grow as a stored block (deflate/core.rs, `flush_block`), so a
/// file of at most this many bytes stays under that limit.
pub open spec fn file_limit() -> nat {
    0x8000_0000
}

/// Whether the last file of `entries`, if any, is small enough for zip to
/// close it.
pub open spec fn last_file_closable(entries: Seq<(Seq<char>, Seq<Seq<u8>>)>) -> bool {
    entries.len() == 0 || total_len(entries.last().1) <= file_limit()
}

/// Calls `ZipWriter::new` on an empty in-memory cursor.
#[verifier::external_body]
fn new_archive() -> (w: Archive)
    ensures
        zip_entries(w) == Seq::<(Seq<char>, Seq<Seq<u8>>)>::empty(),
        zip_open(w),
{
    Archive { writer: ZipWriter::new(Cursor::new(Vec::new())) }
}

/// Calls `ZipWriter::start_file` with the name `name` and default options
/// set to deflate compression; on success the archive holds a new, empty
/// file of that name, and an error comes back as its message. Writing to
/// an in-memory cursor does not fail, so the
/// call succeeds on an open archive whose last file zip can close.
#[verifier::external_body]
fn start_entry(w: &mut Archive, name: &str) -> (r: Result<(), String>)
    ensures
        zip_open(*old(w)) && last_file_closable(zip_entries(*old(w))) ==> r is Ok,
        r is Ok ==> zip_entries(*final(w)) == zip_entries(*old(w)).push((name@, Seq::empty())),
        r is Ok ==> zip_open(*final(w)),
{
    match w.writer.start_file(name, FileOptions::default().compression_method(CompressionMethod::Deflated)) {
        Ok(()) => Ok(()),
        Err(e) => Err(e.to_string()),
    }
}

/// The entries with `bytes` written to the last file.
pub open spec fn with_written(
    entries: Seq<(Seq<char>, Seq<Seq<u8>>)>,
    bytes: Seq<u8>,
) -> Seq<(Seq<char>, Seq<Seq<u8>>)>
    recommends
        entries.len() > 0,
{
    if bytes.len() == 0 {
        entries
    } else {
        let last = entries.last();
        entries.drop_last().push((last.0, last.1.push(bytes)))
    }
}

/// Calls `write_all` on the archive; an error comes back as its message.
/// An empty slice writes nothing and
/// succeeds; a non-empty one succeeds only on a started file, and does on an
/// open archive whose last file stays within `u32::MAX` bytes.
#[verifier::external_body]
fn write_entry(w: &mut Archive, bytes: &[u8]) -> (r: Result<(), String>)
    ensures
        zip_open(*old(w)) && zip_entries(*old(w)).len() > 0 && total_len(
            zip_entries(*old(w)).last().1,
        ) + bytes@.len() <= u32::MAX ==> r is Ok,
        r is Ok && bytes@.len() > 0 ==> zip_entries(*old(w)).len() > 0,
        r is Ok ==> zip_entries(*final(w)) == with_written(zip_entries(*old(w)), bytes@),
        r is Ok ==> zip_open(*final(w)) == zip_open(*old(w)),
{
    match w.writer.write_all(bytes) {
        Ok(()) => Ok(()),
        Err(e) => Err(e.to_string()),
    }
}

/// Calls `ZipWriter::finish` and takes the bytes out of the cursor it
/// returns: the archive of the files written; an error comes back as its
/// message. It succeeds on an open
/// archive whose last file zip can close.
#[verifier::external_body]
fn finish_archive(w: &mut Archive) -> (r: Result<Vec<u8>, String>)
    ensures
        zip_open(*old(w)) && last_file_closable(zip_entries(*old(w))) ==> r is Ok,
        r matches Ok(b) ==> b@ == zip_archive(zip_entries(*old(w))),
{
    match w.writer.finish() {
        Ok(cursor) => Ok(cursor.into_inner()),
        Err(e) => Err(e.to_string()),
    }
}

/// Why writing a document failed: the archive writer reported an error,
/// with its message.
#[derive(Debug, PartialEq, Eq)]
pub enum DocxError {
    /// While starting a file or finishing the archive.
    Zip(String),
    /// While writing a file's content.
    Io(String),
}

impl DocxError {
    /// The message of the error that the archive writer reported.
    pub fn message(&self) -> (r: String)
        ensures
            r@ == match self {
                DocxError::Zip(m) => m@,
                DocxError::Io(m) => m@,
            },
    {
        match self {
            DocxError::Zip(m) => m.clone(),
            DocxError::Io(m) => m.clone(),
        }
    }
}

/// A file of a document: its name in the archive and its text.
pub open spec fn file_part(name: Seq<char>, content: Seq<char>) -> (Seq<char>, Seq<char>) {
    (name, content)
}

/// The XML of the web extension part, naming the add-in `addin_id` at
/// `version`.
pub open spec fn webextension_xml_text(addin_id: Seq<char>, version: Seq<char>) -> Seq<char> {
    r#"<?xml version="1.0" encoding="utf-8"?><we:webextension xmlns:we="http://schemas.microsoft.com/office/webextensions/webextension/2010/11" id="{"#@ + addin_id + r#"}"><we:reference id=""#@ + addin_id + r#"" version=""#@ + version + r#"" store="developer" storeType="Registry" /><we:alternateReferences /><we:properties></we:properties><we:bindings /></we:webextension>"#@
}

/// The files of a Word document that opens with the add-in `addin_id` at
/// `version` in its task pane, in the order they are written.
pub open spec fn docx_parts(addin_id: Seq<char>, version: Seq<char>) -> Seq<(Seq<char>, Seq<char>)> {
    seq![
        (file_part("[Content_Types].xml"@, CONTENT_TYPES@)),
        (file_part("_rels/.rels"@, ROOT_RELS@)),
        (file_part("docProps/app.xml"@, APP_XML@)),
        (file_part("word/document.xml"@, DOCUMENT_XML@)),
        (file_part("word/_rels/document.xml.rels"@, DOCUMENT_RELS@)),
        (file_part("word/settings.xml"@, SETTINGS_XML@)),
        (file_part("word/styles.xml"@, STYLES_XML@)),
        (file_part("word/webSettings.xml"@, WEB_SETTINGS_XML@)),
        (file_part("word/fontTable.xml"@, FONT_TABLE_XML@)),
        (file_part("word/webextensions/taskpanes.xml"@, TASKPANES_XML@)),
        (file_part("word/webextensions/_rels/taskpanes.xml.rels"@, TASKPANES_RELS@)),
        (file_part("word/webextensions/webextension.xml"@, webextension_xml_text(addin_id, version)))
    ]
}

/// The byte strings one `write_all` of `bytes` leaves in a file.
pub open spec fn file_chunks(bytes: Seq<u8>) -> Seq<Seq<u8>> {
    if bytes.len() == 0 {
        Seq::empty()
    } else {
        seq![bytes]
    }
}

/// The files written for the parts `parts`: each under its name, with its
/// text written once, encoded in UTF-8.
pub open spec fn written_files(parts: Seq<(Seq<char>, Seq<char>)>) -> Seq<(Seq<char>, Seq<Seq<u8>>)> {
    parts.map_values(|p: (Seq<char>, Seq<char>)| (p.0, file_chunks(vstd::utf8::encode_utf8(p.1))))
}

/// Whether the text `t` occurs in `s` starting at index `i`.
pub open spec fn occurs_at(s: Seq<char>, t: Seq<char>, i: int) -> bool {
    0 <= i && i + t.len() <= s.len() && s.subrange(i, i + t.len()) == t
}

/// Whether the text `t` occurs in `s`.
pub open spec fn contains_text(s: Seq<char>, t: Seq<char>) -> bool {
    exists|i: int| occurs_at(s, t, i)
}

/// Whether `files` has a file named `name`, and every file of that name
/// holds exactly the UTF-8 bytes of `text`, written in one piece.
pub open spec fn holds_text(
    files: Seq<(Seq<char>, Seq<Seq<u8>>)>,
    name: Seq<char>,
    text: Seq<char>,
) -> bool {
    &&& exists|i: int| 0 <= i < files.len() && #[trigger] files[i].0 == name
    &&& forall|i: int|
        0 <= i < files.len() && #[trigger] files[i].0 == name ==> files[i].1 == file_chunks(
            vstd::utf8::encode_utf8(text),
        )
}

/// The relationship id by which the task pane refers to the web extension.
pub open spec fn task_pane_reference() -> Seq<char> {
    "Rc731dad7964e4b0c"@
}

/// The names of the document's files, told apart by their lengths: the
/// package relationships, the task pane, its relationships and the web
/// extension part each have a length that no other name has.
proof fn lemma_part_name_lengths(addin_id: Seq<char>, version: Seq<char>)
    ensures
        ({
            let files = written_files(docx_parts(addin_id, version));
            &&& files.len() == 12
            &&& files[1].0 == "_rels/.rels"@
            &&& files[9].0 == "word/webextensions/taskpanes.xml"@
            &&& files[10].0 == "word/webextensions/_rels/taskpanes.xml.rels"@
            &&& files[11].0 == "word/webextensions/webextension.xml"@
            &&& forall|i: int|
                0 <= i < 12 ==> {
                    &&& (#[trigger] files[i].0.len() == 11 ==> i == 1)
                    &&& (files[i].0.len() == 32 ==> i == 9)
                    &&& (files[i].0.len() == 43 ==> i == 10)
                    &&& (files[i].0.len() == 35 ==> i == 11)
                }
        }),
{
    let files = written_files(docx_parts(addin_id, version));
    reveal_strlit("[Content_Types].xml");
    reveal_strlit("_rels/.rels");
    reveal_strlit("docProps/app.xml");
    reveal_strlit("word/document.xml");
    reveal_strlit("word/_rels/document.xml.rels");
    reveal_strlit("word/settings.xml");
    reveal_strlit("word/styles.xml");
    reveal_strlit("word/webSettings.xml");
    reveal_strlit("word/fontTable.xml");
    reveal_strlit("word/webextensions/taskpanes.xml");
    reveal_strlit("word/webextensions/_rels/taskpanes.xml.rels");
    reveal_strlit("word/webextensions/webextension.xml");
    assert forall|i: int| 0 <= i < 12 implies {
        &&& (#[trigger] files[i].0.len() == 11 ==> i == 1)
        &&& (files[i].0.len() == 32 ==> i == 9)
        &&& (files[i].0.len() == 43 ==> i == 10)
        &&& (files[i].0.len() == 35 ==> i == 11)
    } by {
        if i == 0 {
        } else if i == 1 {
        } else if i == 2 {
        } else if i == 3 {
        } else if i == 4 {
        } else if i == 5 {
        } else if i == 6 {
        } else if i == 7 {
        } else if i == 8 {
        } else if i == 9 {
        } else if i == 10 {
        } else {
        }
    }
}

/// The file at index `k` of `files`, whose name is longer or shorter than
/// any other file's, holds
/// exactly the bytes of `text`.
proof fn lemma_holds_text(files: Seq<(Seq<char>, Seq<Seq<u8>>)>, k: int, text: Seq<char>)
    requires
        0 <= k < files.len(),
        files[k].1 == file_chunks(vstd::utf8::encode_utf8(text)),
        forall|i: int| 0 <= i < files.len() && #[trigger] files[i].0.len() == files[k].0.len() ==> i == k,
    ensures
        holds_text(files, files[k].0, text),
{
    assert forall|i: int| 0 <= i < files.len() && #[trigger] files[i].0 == files[k].0 implies files[i].1
        == file_chunks(vstd::utf8::encode_utf8(text)) by {
        assert(files[i].0.len() == files[k].0.len());
    }
}

/// A document built for the add-in `addin_id` at `version` opens the
/// add-in in Word's task pane. The package relationships point to the task
/// pane part; the task pane refers to its web extension by a relationship
/// id; the task pane's relationships file gives that id to a relationship
/// whose target is the web extension part; and that part names the add-in
/// by its id and version. Each of these files is written once, with exactly
/// that text.
pub proof fn lemma_docx_opens_addin_in_task_pane(addin_id: Seq<char>, version: Seq<char>)
    ensures
        ({
            let files = written_files(docx_parts(addin_id, version));
            let task_panes = "word/webextensions/taskpanes.xml"@;
            let web_extension = "word/webextensions/webextension.xml"@;
            let extension_text = webextension_xml_text(addin_id, version);
            &&& holds_text(files, "_rels/.rels"@, ROOT_RELS@)
            &&& contains_text(ROOT_RELS@, "Target=\"/"@ + task_panes + "\""@)
            &&& holds_text(files, task_panes, TASKPANES_XML@)
            &&& contains_text(TASKPANES_XML@, "r:id=\""@ + task_pane_reference() + "\""@)
            &&& holds_text(files, "word/webextensions/_rels/taskpanes.xml.rels"@, TASKPANES_RELS@)
            &&& contains_text(
                TASKPANES_RELS@,
                "Target=\"/"@ + web_extension + "\" Id=\""@ + task_pane_reference() + "\""@,
            )
            &&& holds_text(files, web_extension, extension_text)
            &&& contains_text(extension_text, "id=\"{"@ + addin_id + "}\""@)
            &&& contains_text(extension_text, "version=\""@ + version + "\""@)
        }),
{
    let files = written_files(docx_parts(addin_id, version));
    lemma_part_name_lengths(addin_id, version);
    assert(files[1].0 == "_rels/.rels"@);
    assert(files[9].0 == "word/webextensions/taskpanes.xml"@);
    assert(files[10].0 == "word/webextensions/_rels/taskpanes.xml.rels"@);
    assert(files[11].0 == "word/webextensions/webextension.xml"@);
    reveal_strlit("_rels/.rels");
    reveal_strlit("word/webextensions/taskpanes.xml");
    reveal_strlit("word/webextensions/_rels/taskpanes.xml.rels");
    reveal_strlit("word/webextensions/webextension.xml");
    let parts = docx_parts(addin_id, version);
    assert(parts[1].1 == ROOT_RELS@);
    lemma_holds_text(files, 1, ROOT_RELS@);
    assert(parts[9].1 == TASKPANES_XML@);
    lemma_holds_text(files, 9, TASKPANES_XML@);
    assert(parts[10].1 == TASKPANES_RELS@);
    lemma_holds_text(files, 10, TASKPANES_RELS@);
    assert(parts[11].1 == webextension_xml_text(addin_id, version));
    lemma_holds_text(files, 11, webextension_xml_text(addin_id, version));
    reveal_strlit("Target=\"/");
    reveal_strlit("\"");
    reveal_strlit("r:id=\"");
    reveal_strlit("\" Id=\"");
    reveal_strlit("Rc731dad7964e4b0c");
    reveal_strlit(r#"<?xml version="1.0" encoding="UTF-8" standalone="yes"?>
<Relationships xmlns="http://schemas.openxmlformats.org/package/2006/relationships"><Relationship Id="rId1" Type="http://schemas.openxmlformats.org/officeDocument/2006/relationships/officeDocument" Target="word/document.xml"/><Relationship Id="rId2" Type="http://schemas.openxmlformats.org/officeDocument/2006/relationships/extended-properties" Target="docProps/app.xml"/><Relationship Id="rId3" Type="http://schemas.microsoft.com/office/2011/relationships/webextensiontaskpanes" Target="/word/webextensions/taskpanes.xml"/></Relationships>"#);
    let root_target = "Target=\"/"@ + "word/webextensions/taskpanes.xml"@ + "\""@;
    assert(ROOT_RELS@.subrange(536, 578) =~= root_target);
    assert(occurs_at(ROOT_RELS@, root_target, 536));
    reveal_strlit(r#"<?xml version="1.0" encoding="utf-8"?>
<wetp:taskpanes xmlns:r="http://schemas.openxmlformats.org/officeDocument/2006/relationships" xmlns:wetp="http://schemas.microsoft.com/office/webextensions/taskpanes/2010/11"><wetp:taskpane dockstate="" visibility="1" width="350" row="1"><wetp:webextensionref xmlns:r="http://schemas.openxmlformats.org/officeDocument/2006/relationships" r:id="Rc731dad7964e4b0c" /></wetp:taskpane></wetp:taskpanes>"#);
    let pane_reference = "r:id=\""@ + task_pane_reference() + "\""@;
    assert(TASKPANES_XML@.subrange(377, 401) =~= pane_reference);
    assert(occurs_at(TASKPANES_XML@, pane_reference, 377));
    reveal_strlit(r#"<?xml version="1.0" encoding="utf-8"?>
<Relationships xmlns="http://schemas.openxmlformats.org/package/2006/relationships"><Relationship Type="http://schemas.microsoft.com/office/2011/relationships/webextension" Target="/word/webextensions/webextension.xml" Id="Rc731dad7964e4b0c" /></Relationships>"#);
    let relationship = "Target=\"/"@ + "word/webextensions/webextension.xml"@ + "\" Id=\""@
        + task_pane_reference() + "\""@;
    assert(TASKPANES_RELS@.subrange(212, 280) =~= relationship);
    assert(occurs_at(TASKPANES_RELS@, relationship, 212));
    let extension_text = webextension_xml_text(addin_id, version);
    reveal_strlit(r#"<?xml version="1.0" encoding="utf-8"?><we:webextension xmlns:we="http://schemas.microsoft.com/office/webextensions/webextension/2010/11" id="{"#);
    reveal_strlit(r#"}"><we:reference id=""#);
    reveal_strlit(r#"" version=""#);
    reveal_strlit(r#"" store="developer" storeType="Registry" /><we:alternateReferences /><we:properties></we:properties><we:bindings /></we:webextension>"#);
    reveal_strlit("id=\"{");
    reveal_strlit("}\"");
    reveal_strlit("version=\"");
    let id_attribute = "id=\"{"@ + addin_id + "}\""@;
    assert(extension_text.subrange(137, 137 + id_attribute.len() as int) =~= id_attribute);
    assert(occurs_at(extension_text, id_attribute, 137));
    let version_attribute = "version=\""@ + version + "\""@;
    let at: int = 165 + 2 * (addin_id.len() as int);
    assert(extension_text.subrange(at, at + version_attribute.len() as int) =~= version_attribute);
    assert(occurs_at(extension_text, version_attribute, at));
}

/// The files of a document built for the add-in `addin_id` at `version`,
/// in the order they are written: the content types, the package
/// relationships, the application properties, the body, its (empty)
/// relationships, the settings, styles, web settings and font table, the
/// task pane, the task pane's relationships to the web extension, and the
/// web extension part. Each holds exactly the UTF-8 bytes of its text,
/// written in one piece.
pub proof fn lemma_docx_files_in_order(addin_id: Seq<char>, version: Seq<char>)
    ensures
        ({
            let files = written_files(docx_parts(addin_id, version));
            &&& files.len() == 12
            &&& files[0] == ("[Content_Types].xml"@, file_chunks(vstd::utf8::encode_utf8(CONTENT_TYPES@)))
            &&& files[1] == ("_rels/.rels"@, file_chunks(vstd::utf8::encode_utf8(ROOT_RELS@)))
            &&& files[2] == ("docProps/app.xml"@, file_chunks(vstd::utf8::encode_utf8(APP_XML@)))
            &&& files[3] == ("word/document.xml"@, file_chunks(vstd::utf8::encode_utf8(DOCUMENT_XML@)))
            &&& files[4] == ("word/_rels/document.xml.rels"@, file_chunks(vstd::utf8::encode_utf8(DOCUMENT_RELS@)))
            &&& files[5] == ("word/settings.xml"@, file_chunks(vstd::utf8::encode_utf8(SETTINGS_XML@)))
            &&& files[6] == ("word/styles.xml"@, file_chunks(vstd::utf8::encode_utf8(STYLES_XML@)))
            &&& files[7] == ("word/webSettings.xml"@, file_chunks(vstd::utf8::encode_utf8(WEB_SETTINGS_XML@)))
            &&& files[8] == ("word/fontTable.xml"@, file_chunks(vstd::utf8::encode_utf8(FONT_TABLE_XML@)))
            &&& files[9] == ("word/webextensions/taskpanes.xml"@, file_chunks(vstd::utf8::encode_utf8(TASKPANES_XML@)))
            &&& files[10] == ("word/webextensions/_rels/taskpanes.xml.rels"@, file_chunks(vstd::utf8::encode_utf8(TASKPANES_RELS@)))
            &&& files[11] == ("word/webextensions/webextension.xml"@, file_chunks(
                vstd::utf8::encode_utf8(webextension_xml_text(addin_id, version)),
            ))
        }),
{
}

/// One `write_all` leaves as many bytes in a file as it was given.
pub proof fn lemma_file_chunks_len(bytes: Seq<u8>)
    ensures
        total_len(file_chunks(bytes)) == bytes.len(),
{
    if bytes.len() > 0 {
        assert(file_chunks(bytes).drop_last() =~= Seq::<Seq<u8>>::empty());
        assert(total_len(Seq::<Seq<u8>>::empty()) == 0);
        assert(file_chunks(bytes).last() == bytes);
    } else {
        assert(total_len(Seq::<Seq<u8>>::empty()) == 0);
    }
}

/// A character takes at most four bytes in UTF-8.
pub proof fn lemma_utf8_len(chars: Seq<char>)
    ensures
        vstd::utf8::encode_utf8(chars).len() <= 4 * chars.len(),
    decreases chars.len(),
{
    if chars.len() > 0 {
        lemma_utf8_len(chars.drop_first());
    }
}

/// The fixed parts of the document are each well within `file_limit()`.
proof fn lemma_fixed_parts_small()
    ensures
        vstd::utf8::encode_utf8(CONTENT_TYPES@).len() <= 0x10000,
        vstd::utf8::encode_utf8(ROOT_RELS@).len() <= 0x10000,
        vstd::utf8::encode_utf8(APP_XML@).len() <= 0x10000,
        vstd::utf8::encode_utf8(DOCUMENT_XML@).len() <= 0x10000,
        vstd::utf8::encode_utf8(DOCUMENT_RELS@).len() <= 0x10000,
        vstd::utf8::encode_utf8(SETTINGS_XML@).len() <= 0x10000,
        vstd::utf8::encode_utf8(STYLES_XML@).len() <= 0x10000,
        vstd::utf8::encode_utf8(WEB_SETTINGS_XML@).len() <= 0x10000,
        vstd::utf8::encode_utf8(FONT_TABLE_XML@).len() <= 0x10000,
        vstd::utf8::encode_utf8(TASKPANES_XML@).len() <= 0x10000,
        vstd::utf8::encode_utf8(TASKPANES_RELS@).len() <= 0x10000,
{
    reveal_strlit(r#"<?xml version="1.0" encoding="UTF-8" standalone="yes"?>
<Types xmlns="http://schemas.openxmlformats.org/package/2006/content-types"><Default Extension="rels" ContentType="application/vnd.openxmlformats-package.relationships+xml"/><Default Extension="xml" ContentType="application/xml"/><Override PartName="/word/document.xml" ContentType="application/vnd.openxmlformats-officedocument.wordprocessingml.document.main+xml"/><Override PartName="/word/styles.xml" ContentType="application/vnd.openxmlformats-officedocument.wordprocessingml.styles+xml"/><Override PartName="/word/settings.xml" ContentType="application/vnd.openxmlformats-officedocument.wordprocessingml.settings+xml"/><Override PartName="/word/webSettings.xml" ContentType="application/vnd.openxmlformats-officedocument.wordprocessingml.webSettings+xml"/><Override PartName="/word/fontTable.xml" ContentType="application/vnd.openxmlformats-officedocument.wordprocessingml.fontTable+xml"/><Override PartName="/word/webextensions/taskpanes.xml" ContentType="application/vnd.ms-office.webextensiontaskpanes+xml"/><Override PartName="/word/webextensions/webextension.xml" ContentType="application/vnd.ms-office.webextension+xml"/><Override PartName="/docProps/app.xml" ContentType="application/vnd.openxmlformats-officedocument.extended-properties+xml"/></Types>"#);
    lemma_utf8_len(CONTENT_TYPES@);
    reveal_strlit(r#"<?xml version="1.0" encoding="UTF-8" standalone="yes"?>
<Relationships xmlns="http://schemas.openxmlformats.org/package/2006/relationships"><Relationship Id="rId1" Type="http://schemas.openxmlformats.org/officeDocument/2006/relationships/officeDocument" Target="word/document.xml"/><Relationship Id="rId2" Type="http://schemas.openxmlformats.org/officeDocument/2006/relationships/extended-properties" Target="docProps/app.xml"/><Relationship Id="rId3" Type="http://schemas.microsoft.com/office/2011/relationships/webextensiontaskpanes" Target="/word/webextensions/taskpanes.xml"/></Relationships>"#);
    lemma_utf8_len(ROOT_RELS@);
    reveal_strlit(r#"<?xml version="1.0" encoding="UTF-8" standalone="yes"?>
<Properties xmlns="http://schemas.openxmlformats.org/officeDocument/2006/extended-properties" xmlns:vt="http://schemas.openxmlformats.org/officeDocument/2006/docPropsVTypes"><Application>Microsoft Office Word</Application></Properties>"#);
    lemma_utf8_len(APP_XML@);
    reveal_strlit(r#"<?xml version="1.0" encoding="UTF-8" standalone="yes"?>
<w:document xmlns:w="http://schemas.openxmlformats.org/wordprocessingml/2006/main" xmlns:r="http://schemas.openxmlformats.org/officeDocument/2006/relationships"><w:body><w:p><w:r><w:t>小绿鲸 Word 加载项启动文档</w:t></w:r></w:p><w:sectPr><w:pgSz w:w="11906" w:h="16838"/><w:pgMar w:top="1440" w:right="1800" w:bottom="1440" w:left="1800" w:header="851" w:footer="992" w:gutter="0"/></w:sectPr></w:body></w:document>"#);
    lemma_utf8_len(DOCUMENT_XML@);
    reveal_strlit(r#"<?xml version="1.0" encoding="UTF-8" standalone="yes"?>
<Relationships xmlns="http://schemas.openxmlformats.org/package/2006/relationships"></Relationships>"#);
    lemma_utf8_len(DOCUMENT_RELS@);
    reveal_strlit(r#"<?xml version="1.0" encoding="UTF-8" standalone="yes"?>
<w:settings xmlns:w="http://schemas.openxmlformats.org/wordprocessingml/2006/main"><w:zoom w:percent="100"/></w:settings>"#);
    lemma_utf8_len(SETTINGS_XML@);
    reveal_strlit(r#"<?xml version="1.0" encoding="UTF-8" standalone="yes"?>
<w:styles xmlns:w="http://schemas.openxmlformats.org/wordprocessingml/2006/main"><w:style w:type="paragraph" w:default="1" w:styleId="Normal"><w:name w:val="Normal"/></w:style></w:styles>"#);
    lemma_utf8_len(STYLES_XML@);
    reveal_strlit(r#"<?xml version="1.0" encoding="UTF-8" standalone="yes"?>
<w:webSettings xmlns:w="http://schemas.openxmlformats.org/wordprocessingml/2006/main"/>"#);
    lemma_utf8_len(WEB_SETTINGS_XML@);
    reveal_strlit(r#"<?xml version="1.0" encoding="UTF-8" standalone="yes"?>
<w:fonts xmlns:w="http://schemas.openxmlformats.org/wordprocessingml/2006/main"/>"#);
    lemma_utf8_len(FONT_TABLE_XML@);
    reveal_strlit(r#"<?xml version="1.0" encoding="utf-8"?>
<wetp:taskpanes xmlns:r="http://schemas.openxmlformats.org/officeDocument/2006/relationships" xmlns:wetp="http://schemas.microsoft.com/office/webextensions/taskpanes/2010/11"><wetp:taskpane dockstate="" visibility="1" width="350" row="1"><wetp:webextensionref xmlns:r="http://schemas.openxmlformats.org/officeDocument/2006/relationships" r:id="Rc731dad7964e4b0c" /></wetp:taskpane></wetp:taskpanes>"#);
    lemma_utf8_len(TASKPANES_XML@);
    reveal_strlit(r#"<?xml version="1.0" encoding="utf-8"?>
<Relationships xmlns="http://schemas.openxmlformats.org/package/2006/relationships"><Relationship Type="http://schemas.microsoft.com/office/2011/relationships/webextension" Target="/word/webextensions/webextension.xml" Id="Rc731dad7964e4b0c" /></Relationships>"#);
    lemma_utf8_len(TASKPANES_RELS@);
}

/// The XML of the web extension part.
pub fn webextension_xml(addin_id: &str, version: &str) -> (r: String)
    ensures
        r@ == webextension_xml_text(addin_id@, version@),
{
    let mut s = r#"<?xml version="1.0" encoding="utf-8"?><we:webextension xmlns:we="http://schemas.microsoft.com/office/webextensions/webextension/2010/11" id="{"#.to_owned();
    s.append(addin_id);
    s.append(r#"}"><we:reference id=""#);
    s.append(addin_id);
    s.append(r#"" version=""#);
    s.append(version);
    s.append(r#"" store="developer" storeType="Registry" /><we:alternateReferences /><we:properties></we:properties><we:bindings /></we:webextension>"#);
    s
}

/// Adds the file `name` with the text `content` to the archive. It
/// succeeds on an open archive whose last file zip can close, when the text
/// is at most `u32::MAX` bytes.
pub fn add_file(zip: &mut Archive, name: &str, content: &str) -> (r: Result<(), DocxError>)
    ensures
        zip_open(*old(zip)) && last_file_closable(zip_entries(*old(zip)))
            && vstd::utf8::encode_utf8(content@).len() <= u32::MAX ==> r is Ok,
        r is Ok ==> zip_entries(*final(zip)) == zip_entries(*old(zip)).push(
            (name@, file_chunks(vstd::utf8::encode_utf8(content@))),
        ),
        r is Ok ==> zip_open(*final(zip)),
        r is Ok && vstd::utf8::encode_utf8(content@).len() <= file_limit() ==> last_file_closable(
            zip_entries(*final(zip)),
        ),
{
    proof {
        lemma_file_chunks_len(vstd::utf8::encode_utf8(content@));
    }
    if let Err(message) = start_entry(zip, name) {
        return Err(DocxError::Zip(message));
    }
    let bytes = content.as_bytes();
    if let Err(message) = write_entry(zip, bytes) {
        return Err(DocxError::Io(message));
    }
    Ok(())
}

/// The bytes of a Word document (a zip archive, each file deflated) that
/// opens with the add-in `addin_id` at `version` in its task pane. It
/// succeeds whenever the web extension part is within zip's file limit.
pub fn build_word_docx(addin_id: &str, version: &str) -> (r: Result<Vec<u8>, DocxError>)
    ensures
        vstd::utf8::encode_utf8(webextension_xml_text(addin_id@, version@)).len() <= file_limit()
            ==> r is Ok,
        r matches Ok(b) ==> b@ == zip_archive(written_files(docx_parts(addin_id@, version@))),
{
    proof {
        lemma_fixed_parts_small();
    }
    let mut zip = new_archive();
    add_file(&mut zip, "[Content_Types].xml", CONTENT_TYPES)?;
    add_file(&mut zip, "_rels/.rels", ROOT_RELS)?;
    add_file(&mut zip, "docProps/app.xml", APP_XML)?;
    add_file(&mut zip, "word/document.xml", DOCUMENT_XML)?;
    add_file(&mut zip, "word/_rels/document.xml.rels", DOCUMENT_RELS)?;
    add_file(&mut zip, "word/settings.xml", SETTINGS_XML)?;
    add_file(&mut zip, "word/styles.xml", STYLES_XML)?;
    add_file(&mut zip, "word/webSettings.xml", WEB_SETTINGS_XML)?;
    add_file(&mut zip, "word/fontTable.xml", FONT_TABLE_XML)?;
    add_file(&mut zip, "word/webextensions/taskpanes.xml", TASKPANES_XML)?;
    add_file(&mut zip, "word/webextensions/_rels/taskpanes.xml.rels", TASKPANES_RELS)?;
    let webextension = webextension_xml(addin_id, version);
    add_file(&mut zip, "word/webextensions/webextension.xml", webextension.as_str())?;
    let ghost entries = zip_entries(zip);
    assert(entries =~= written_files(docx_parts(addin_id@, version@)));
    match finish_archive(&mut zip) {
        Ok(bytes) => Ok(bytes),
        Err(message) => Err(DocxError::Zip(message)),
    }
}

} // verus!
