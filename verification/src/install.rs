use vstd::prelude::*;

use vstd::string::StrSliceExecFns;

verus! {

/// Where the add-in's manifest is downloaded from.
pub const MANIFEST_URL: &'static str = "https://www.xljsci.com/LTSCOfficeV2/manifest.xml";

/// The name of the Windows share that serves the add-in catalog.
pub const SHARE_NAME: &'static str = "XljOfficeAddinCatalog";

/// The id under which the catalog is trusted.
pub const CATALOG_GUID: &'static str = "{a81ffdb3-0c25-496c-bfb3-26939675962b}";

/// The registry key that lists Office's trusted catalogs.
pub const TRUSTED_CATALOGS_KEY: &'static str = r"SOFTWARE\Microsoft\Office\16.0\WEF\TrustedCatalogs";

/// The registry key that lists sideloaded developer add-ins.
pub const DEVELOPER_KEY: &'static str = r"SOFTWARE\Microsoft\Office\16.0\Wef\Developer";

/// The computer name used when none is known.
pub open spec fn fallback_computer_name() -> Seq<char> {
    "localhost"@
}

/// The network path of the catalog share on the computer `computer_name`,
/// or on `localhost` when the name is not known.
pub fn share_catalog_url(computer_name: Option<String>) -> (r: String)
    ensures
        r@ == r"\\"@ + match computer_name {
            Some(name) => name@,
            None => fallback_computer_name(),
        } + r"\"@ + SHARE_NAME@,
{
    let mut url = r"\\".to_owned();
    match computer_name {
        Some(name) => url.append(name.as_str()),
        None => url.append("localhost"),
    }
    url.append(r"\");
    url.append(SHARE_NAME);
    url
}

/// The argument of `net share` that shares the directory shown as `dir`
/// under the catalog share's name.
pub fn share_argument(dir: &str) -> (r: String)
    ensures
        r@ == SHARE_NAME@ + "="@ + dir@,
{
    let mut arg = SHARE_NAME.to_owned();
    arg.append("=");
    arg.append(dir);
    arg
}

/// The registry path of the catalog's own key under the trusted catalogs.
pub fn trusted_catalog_key_path() -> (r: String)
    ensures
        r@ == TRUSTED_CATALOGS_KEY@ + r"\"@ + CATALOG_GUID@,
{
    let mut path = TRUSTED_CATALOGS_KEY.to_owned();
    path.append(r"\");
    path.append(CATALOG_GUID);
    path
}

/// The file name of the document that sideloads the add-in `addin_id`.
pub fn sideload_docx_name(addin_id: &str) -> (r: String)
    ensures
        r@ == "Word add-in "@ + addin_id@ + ".docx"@,
{
    let mut name = "Word add-in ".to_owned();
    name.append(addin_id);
    name.append(".docx");
    name
}

/// What a character becomes inside a double-quoted PowerShell string: a
/// double quote is escaped with a backtick.
pub open spec fn escaped_char(c: char) -> Seq<char> {
    if c == '"' {
        "`\""@
    } else {
        seq![c]
    }
}

/// The text `s` with every double quote escaped with a backtick.
pub open spec fn escape_quotes(s: Seq<char>) -> Seq<char>
    decreases s.len(),
{
    if s.len() == 0 {
        Seq::empty()
    } else {
        escape_quotes(s.drop_last()) + escaped_char(s.last())
    }
}

/// Escaping leaves a text without double quotes as it is.
pub proof fn lemma_escape_quotes_unquoted(s: Seq<char>)
    requires
        !s.contains('"'),
    ensures
        escape_quotes(s) == s,
    decreases s.len(),
{
    if s.len() > 0 {
        let init = s.drop_last();
        assert forall|i: int| 0 <= i < init.len() implies init[i] != '"' by {
            assert(init[i] == s[i]);
        }
        lemma_escape_quotes_unquoted(init);
        assert(s.last() == s[s.len() - 1]);
        assert(init + seq![s.last()] =~= s);
    }
}

/// Escaping works character by character: the escape of two texts put
/// together is their escapes put together.
pub proof fn lemma_escape_quotes_concat(s1: Seq<char>, s2: Seq<char>)
    ensures
        escape_quotes(s1 + s2) == escape_quotes(s1) + escape_quotes(s2),
    decreases s2.len(),
{
    if s2.len() == 0 {
        assert(s1 + s2 =~= s1);
        assert(escape_quotes(s1) + escape_quotes(s2) =~= escape_quotes(s1));
    } else {
        assert((s1 + s2).drop_last() =~= s1 + s2.drop_last());
        assert((s1 + s2).last() == s2.last());
        lemma_escape_quotes_concat(s1, s2.drop_last());
        assert(escape_quotes(s1) + escape_quotes(s2.drop_last()) + escaped_char(s2.last())
            =~= escape_quotes(s1) + (escape_quotes(s2.drop_last()) + escaped_char(s2.last())));
    }
}

/// A double quote becomes a backtick and a double quote; any other
/// character stays as it is.
pub proof fn lemma_escape_quotes_char(c: char)
    ensures
        escape_quotes(seq![c]) == if c == '"' {
            seq!['`', '"']
        } else {
            seq![c]
        },
{
    assert(seq![c].drop_last() =~= Seq::<char>::empty());
    assert(seq![c].last() == c);
    assert(escape_quotes(Seq::<char>::empty()) == Seq::<char>::empty());
    reveal_strlit("`\"");
    assert("`\""@ =~= seq!['`', '"']);
    assert(Seq::<char>::empty() + escaped_char(c) =~= escaped_char(c));
}

/// The PowerShell command that starts the program at `exe` again, as an
/// administrator.
pub fn relaunch_command(exe: &str) -> (r: String)
    ensures
        r@ == "Start-Process -FilePath \""@ + escape_quotes(exe@) + "\" -Verb RunAs"@,
        !exe@.contains('"') ==> r@ == "Start-Process -FilePath \""@ + exe@ + "\" -Verb RunAs"@,
{
    proof {
        if !exe@.contains('"') {
            lemma_escape_quotes_unquoted(exe@);
        }
    }
    let n = exe.unicode_len();
    let mut escaped = String::new();
    let mut i: usize = 0;
    while i < n
        invariant
            n == exe@.len(),
            i <= n,
            escaped@ == escape_quotes(exe@.subrange(0, i as int)),
        decreases n - i,
    {
        let c = exe.get_char(i);
        if c == '"' {
            escaped.append("`\"");
        } else {
            escaped.append(exe.substring_char(i, i + 1));
        }
        assert(exe@.subrange(0, i + 1).drop_last() =~= exe@.subrange(0, i as int));
        assert(exe@.subrange(i as int, i + 1) =~= seq![c]);
        i = i + 1;
    }
    assert(exe@.subrange(0, n as int) =~= exe@);
    let mut command = "Start-Process -FilePath \"".to_owned();
    command.append(escaped.as_str());
    command.append("\" -Verb RunAs");
    command
}

} // verus!
