//! The kinds of files that this program can be the default application for.

use vstd::prelude::*;

use crate::state::DocPath;
use crate::text;

verus! {

/// The kinds of files that this program can be the default application for.
#[derive(Debug, Clone, Copy, PartialEq, Eq, Hash, Structural)]
pub enum SpreadsheetFileType {
    /// Excel spreadsheets.
    Excel,
    /// Comma-separated values.
    Csv,
    /// Tab-separated values.
    Tsv,
    /// The native format `.sheet`.
    Native,
    /// The native format `.vgrid`.
    NativeVgrid,
}

/// The kind of file that an extension in lower case stands for.
pub open spec fn type_of(e: Seq<char>) -> Option<SpreadsheetFileType> {
    if e == "xlsx"@ || e == "xls"@ || e == "xlsm"@ || e == "xlsb"@ {
        Some(SpreadsheetFileType::Excel)
    } else if e == "csv"@ {
        Some(SpreadsheetFileType::Csv)
    } else if e == "tsv"@ || e == "tab"@ {
        Some(SpreadsheetFileType::Tsv)
    } else if e == "sheet"@ {
        Some(SpreadsheetFileType::Native)
    } else if e == "vgrid"@ {
        Some(SpreadsheetFileType::NativeVgrid)
    } else {
        None
    }
}

impl SpreadsheetFileType {
    /// The kind of file that an extension stands for.
    pub fn from_ext(ext: &str) -> (r: Option<SpreadsheetFileType>)
        ensures
            r == type_of(text::lowercased(ext@)),
    {
        let lower = text::to_lowercase(ext);
        let e = lower.as_str();
        if text::str_eq(e, "xlsx") || text::str_eq(e, "xls") || text::str_eq(e, "xlsm")
            || text::str_eq(e, "xlsb") {
            Some(SpreadsheetFileType::Excel)
        } else if text::str_eq(e, "csv") {
            Some(SpreadsheetFileType::Csv)
        } else if text::str_eq(e, "tsv") || text::str_eq(e, "tab") {
            Some(SpreadsheetFileType::Tsv)
        } else if text::str_eq(e, "sheet") {
            Some(SpreadsheetFileType::Native)
        } else if text::str_eq(e, "vgrid") {
            Some(SpreadsheetFileType::NativeVgrid)
        } else {
            None
        }
    }

    /// The uniform type identifier of the kind of file.
    pub fn uti(&self) -> (r: &'static str)
        ensures
            uti_is(*self, r@),
    {
        match self {
            SpreadsheetFileType::Excel => "org.openxmlformats.spreadsheetml.sheet",
            SpreadsheetFileType::Csv => "public.comma-separated-values-text",
            SpreadsheetFileType::Tsv => "public.tab-separated-values-text",
            SpreadsheetFileType::Native => "com.visigrid.sheet",
            SpreadsheetFileType::NativeVgrid => "com.visigrid.vgrid",
        }
    }

    /// The name of the kind of file in the prompt.
    pub fn short_name(&self) -> (r: &'static str)
        ensures
            r@ == match *self {
                SpreadsheetFileType::Excel => "Excel files"@,
                SpreadsheetFileType::Csv => "CSV files"@,
                SpreadsheetFileType::Tsv => "TSV files"@,
                SpreadsheetFileType::Native => "VisiGrid files"@,
                SpreadsheetFileType::NativeVgrid => "VisiGrid files"@,
            },
    {
        match self {
            SpreadsheetFileType::Excel => "Excel files",
            SpreadsheetFileType::Csv => "CSV files",
            SpreadsheetFileType::Tsv => "TSV files",
            SpreadsheetFileType::Native => "VisiGrid files",
            SpreadsheetFileType::NativeVgrid => "VisiGrid files",
        }
    }

    /// The name of the kind of file in full.
    pub fn display_name(&self) -> (r: &'static str)
        ensures
            r@ == match *self {
                SpreadsheetFileType::Excel => "Excel spreadsheets"@,
                SpreadsheetFileType::Csv => "CSV files"@,
                SpreadsheetFileType::Tsv => "TSV files"@,
                SpreadsheetFileType::Native => "VisiGrid files"@,
                SpreadsheetFileType::NativeVgrid => "VisiGrid files"@,
            },
    {
        match self {
            SpreadsheetFileType::Excel => "Excel spreadsheets",
            SpreadsheetFileType::Csv => "CSV files",
            SpreadsheetFileType::Tsv => "TSV files",
            SpreadsheetFileType::Native => "VisiGrid files",
            SpreadsheetFileType::NativeVgrid => "VisiGrid files",
        }
    }

    /// The extension under which choices about the kind of file are kept.
    pub fn ext_key(&self) -> (r: &'static str)
        ensures
            r@ == key_of(*self),
    {
        match self {
            SpreadsheetFileType::Excel => "xlsx",
            SpreadsheetFileType::Csv => "csv",
            SpreadsheetFileType::Tsv => "tsv",
            SpreadsheetFileType::Native => "sheet",
            SpreadsheetFileType::NativeVgrid => "vgrid",
        }
    }
}

/// The extension under which choices about a kind of file are kept.
pub open spec fn key_of(t: SpreadsheetFileType) -> Seq<char> {
    match t {
        SpreadsheetFileType::Excel => "xlsx"@,
        SpreadsheetFileType::Csv => "csv"@,
        SpreadsheetFileType::Tsv => "tsv"@,
        SpreadsheetFileType::Native => "sheet"@,
        SpreadsheetFileType::NativeVgrid => "vgrid"@,
    }
}

// ---------------------------------------------------------------------------
// One prompt in a session
// ---------------------------------------------------------------------------

/// Whether the prompt was shown since the program was started.
#[derive(Debug, PartialEq, Eq)]
pub struct PromptSession {
    pub shown: bool,
}

impl PromptSession {
    pub fn new() -> (s: PromptSession)
        ensures
            !s.shown,
    {
        PromptSession { shown: false }
    }
}

pub fn shown_this_session(s: &PromptSession) -> (r: bool)
    ensures
        r == s.shown,
{
    s.shown
}

pub fn mark_shown_this_session(s: &mut PromptSession)
    ensures
        final(s).shown,
{
    s.shown = true;
}

pub fn reset_session_state(s: &mut PromptSession)
    ensures
        !final(s).shown,
{
    s.shown = false;
}

// ---------------------------------------------------------------------------
// Handlers
// ---------------------------------------------------------------------------

/// Whether this program is the default application for a kind of file. `me` is
/// the bundle that it runs from, and `handler` the one that is registered for
/// the kind of file. Outside of a bundle, and on systems without bundles,
/// nothing is to be gained by asking.
pub fn is_default_handler(macos: bool, me: &Option<String>, handler: &Option<String>) -> (r: bool)
    ensures
        handles_by_default(macos, *me, *handler, r),
{
    if !macos {
        return true;
    }
    match me {
        None => true,
        Some(m) => match handler {
            Some(h) => text::eq_but_case(h.as_str(), m.as_str()),
            None => false,
        },
    }
}

/// What comes of an attempt to register this program.
#[derive(Debug, Clone, Copy, PartialEq, Eq, Structural)]
pub enum Registration {
    /// Nothing is left to do.
    Done,
    /// The system refused: its settings are opened.
    OpenSettings,
}

/// What comes of an attempt to register this program for a kind of file.
/// `type_named` and `bundle_named` are whether the system took the two names,
/// and `status` is its answer.
pub fn set_as_default_handler(
    macos: bool,
    in_bundle: bool,
    type_named: bool,
    bundle_named: bool,
    status: i32,
) -> (r: Result<Registration, String>)
    ensures
        registration_is(macos, in_bundle, type_named, bundle_named, status, r),
{
    if !macos {
        return Ok(Registration::Done);
    }
    if !in_bundle {
        return Err(text::lit("Not running from an app bundle"));
    }
    if !type_named {
        return Err(text::lit("Bad UTI"));
    }
    if !bundle_named {
        return Err(text::lit("Bad bundle id"));
    }
    if status == 0 {
        Ok(Registration::Done)
    } else {
        Ok(Registration::OpenSettings)
    }
}

// ---------------------------------------------------------------------------
// Temporary files
// ---------------------------------------------------------------------------

/// The path leads through a directory for temporary files.
pub open spec fn in_temporary_place(p: Seq<char>) -> bool {
    ||| text::contains_text(p, "/tmp/"@)
    ||| text::contains_text(p, "/var/folders/"@)
    ||| text::contains_text(p, "/.Trash/"@)
    ||| text::contains_text(p, "/Temp/"@)
    ||| text::contains_text(p, "\\Temp\\"@)
}

/// The name is one that programs give to temporary files.
pub open spec fn has_temporary_name(n: Seq<char>) -> bool {
    ||| text::has_prefix(n, "~$"@)
    ||| text::has_prefix(n, "._"@)
    ||| text::has_suffix(n, ".tmp"@)
    ||| text::has_suffix(n, ".temp"@)
}

pub open spec fn is_temporary(p: DocPath) -> bool {
    in_temporary_place(p.display@) || (p.file_name matches Some(n) && has_temporary_name(n@))
}

/// Whether a file looks like a temporary one.
pub fn is_temporary_file(path: &DocPath) -> (r: bool)
    ensures
        r == is_temporary(*path),
{
    let p = path.display.as_str();
    if text::contains(p, "/tmp/") || text::contains(p, "/var/folders/") || text::contains(
        p,
        "/.Trash/",
    ) || text::contains(p, "/Temp/") || text::contains(p, "\\Temp\\") {
        return true;
    }
    match &path.file_name {
        Some(name) => {
            let n = name.as_str();
            text::starts_with(n, "~$") || text::starts_with(n, "._") || text::ends_with(n, ".tmp")
                || text::ends_with(n, ".temp")
        },
        None => false,
    }
}

/// The identifier that the system knows a kind of file by.
pub open spec fn uti_is(
    s: SpreadsheetFileType,
    r: Seq<char>,
) -> bool {
    &&& r == match s {
        SpreadsheetFileType::Excel => "org.openxmlformats.spreadsheetml.sheet"@,
        SpreadsheetFileType::Csv => "public.comma-separated-values-text"@,
        SpreadsheetFileType::Tsv => "public.tab-separated-values-text"@,
        SpreadsheetFileType::Native => "com.visigrid.sheet"@,
        SpreadsheetFileType::NativeVgrid => "com.visigrid.vgrid"@,
    }
}

/// Whether files are opened with the program.
pub open spec fn handles_by_default(
    macos: bool,
    me: Option<String>,
    handler: Option<String>,
    r: bool,
) -> bool {
    &&& r == (!macos || match me {
        None => true,
        Some(m) => match handler {
            Some(h) => text::same_but_case(h@, m@),
            None => false,
        },
    })
}

/// What came of registering the program for a kind of file.
pub open spec fn registration_is(
    macos: bool,
    in_bundle: bool,
    type_named: bool,
    bundle_named: bool,
    status: i32,
    r: Result<Registration, String>,
) -> bool {
    &&& if !macos {
        r == Result::<Registration, String>::Ok(Registration::Done)
    } else if !in_bundle {
        r matches Err(e) && e@ == "Not running from an app bundle"@
    } else if !type_named {
        r matches Err(e) && e@ == "Bad UTI"@
    } else if !bundle_named {
        r matches Err(e) && e@ == "Bad bundle id"@
    } else {
        r == Result::<Registration, String>::Ok(
            if status == 0 {
                Registration::Done
            } else {
                Registration::OpenSettings
            },
        )
    }
}

// ---------------------------------------------------------------------------
// Laws
// ---------------------------------------------------------------------------

/// A kind of file is known by its extension, and by no other kind's. Excel files have four
/// extensions and tab-separated values two; extensions that are not known name no kind.
pub proof fn kinds_are_known_by_their_extensions(t: SpreadsheetFileType, e: Seq<char>)
    ensures
        type_of(key_of(t)) == Some(t),
        type_of(e) matches Some(k) ==> e == key_of(k) || e == "tab"@ || e == "xls"@ || e == "xlsm"@
            || e == "xlsb"@,
        type_of("tab"@) == Some(SpreadsheetFileType::Tsv),
        type_of("xls"@) == Some(SpreadsheetFileType::Excel) && type_of("xlsm"@) == Some(
            SpreadsheetFileType::Excel,
        ) && type_of("xlsb"@) == Some(SpreadsheetFileType::Excel),
        key_of(SpreadsheetFileType::Excel) == "xlsx"@ && key_of(SpreadsheetFileType::Csv) == "csv"@
            && key_of(SpreadsheetFileType::Tsv) == "tsv"@ && key_of(SpreadsheetFileType::Native)
            == "sheet"@ && key_of(SpreadsheetFileType::NativeVgrid) == "vgrid"@,
{
    reveal_strlit("xlsx");
    reveal_strlit("xls");
    reveal_strlit("xlsm");
    reveal_strlit("xlsb");
    reveal_strlit("csv");
    reveal_strlit("tsv");
    reveal_strlit("tab");
    reveal_strlit("sheet");
    reveal_strlit("vgrid");
    assert("xlsx"@[0] == 'x' && "xls"@[0] == 'x' && "xlsm"@[0] == 'x' && "xlsb"@[0] == 'x');
    assert("csv"@[0] == 'c' && "tsv"@[0] == 't' && "tab"@[0] == 't' && "sheet"@[0] == 's'
        && "vgrid"@[0] == 'v');
    assert("tsv"@[1] == 's' && "tab"@[1] == 'a');
}

/// Whatever kind of file is known by its extension can be opened, but for tab-separated values
/// under their second extension.
pub proof fn known_kinds_can_be_opened(e: Seq<char>, pro: bool)
    requires
        type_of(e) is Some,
        e != "tab"@,
    ensures
        crate::files::plan_for(e, pro) != crate::files::LoadPlan::Refused,
        type_of(e) == Some(SpreadsheetFileType::Native) || type_of(e) == Some(
            SpreadsheetFileType::NativeVgrid,
        ) <==> crate::files::plan_for(e, pro) == crate::files::LoadPlan::Native,
        type_of(e) == Some(SpreadsheetFileType::Csv) <==> crate::files::plan_for(e, pro)
            == crate::files::LoadPlan::CsvInBackground,
{
    reveal_strlit("xlsx");
    reveal_strlit("xls");
    reveal_strlit("xlsm");
    reveal_strlit("xlsb");
    reveal_strlit("csv");
    reveal_strlit("tsv");
    reveal_strlit("ods");
    reveal_strlit("sheet");
    reveal_strlit("vgrid");
    assert("xlsx"@[0] == 'x' && "xls"@[0] == 'x' && "xlsm"@[0] == 'x' && "xlsb"@[0] == 'x');
    assert("csv"@[0] == 'c' && "tsv"@[0] == 't' && "ods"@[0] == 'o' && "sheet"@[0] == 's'
        && "vgrid"@[0] == 'v');
}

/// A file is taken for a temporary one wherever one of the usual places is in its path, and
/// wherever its name begins or ends as those of temporary files do.
pub proof fn what_is_temporary(p: DocPath, a: Seq<char>, b: Seq<char>, name: String)
    ensures
        p.display@ == a + "/tmp/"@ + b || p.display@ == a + "/var/folders/"@ + b || p.display@ == a
            + "/.Trash/"@ + b || p.display@ == a + "/Temp/"@ + b || p.display@ == a + "\\Temp\\"@
            + b ==> is_temporary(p),
        p.file_name == Some(name) && (name@ == "~$"@ + b || name@ == "._"@ + b || name@ == a
            + ".tmp"@ || name@ == a + ".temp"@) ==> is_temporary(p),
        is_temporary(p) ==> in_temporary_place(p.display@) || p.file_name is Some,
        !text::contains_text(p.display@, "/tmp/"@) && !text::contains_text(
            p.display@,
            "/var/folders/"@,
        ) && !text::contains_text(p.display@, "/.Trash/"@) && !text::contains_text(
            p.display@,
            "/Temp/"@,
        ) && !text::contains_text(p.display@, "\\Temp\\"@) && p.file_name is None
            ==> !is_temporary(p),
{
    text::what_it_means_to_hold_a_text(a, "/tmp/"@, b);
    text::what_it_means_to_hold_a_text(a, "/var/folders/"@, b);
    text::what_it_means_to_hold_a_text(a, "/.Trash/"@, b);
    text::what_it_means_to_hold_a_text(a, "/Temp/"@, b);
    text::what_it_means_to_hold_a_text(a, "\\Temp\\"@, b);
    text::what_it_means_to_hold_a_text(a, "~$"@, b);
    text::what_it_means_to_hold_a_text(a, "._"@, b);
    text::what_it_means_to_hold_a_text(a, ".tmp"@, b);
    text::what_it_means_to_hold_a_text(a, ".temp"@, b);
}

/// The program handles files by default where the system says so, whatever the case of its name,
/// and where there is nothing to be asked.
pub proof fn who_handles_files(macos: bool, me: String, handler: Option<String>, r: bool)
    requires
        handles_by_default(macos, Some(me), handler, r),
    ensures
        !macos ==> r,
        macos && handler is None ==> !r,
        (macos && handler matches Some(h)) ==> (r ==> handler->0@.len() == me@.len()),
        handler == Some(me) ==> r,
{
}

/// A registration is done exactly where the system took it or needs none; it is not tried outside
/// a bundle.
pub proof fn what_a_registration_needs(
    macos: bool,
    in_bundle: bool,
    type_named: bool,
    bundle_named: bool,
    status: i32,
    r: Result<Registration, String>,
)
    requires
        registration_is(macos, in_bundle, type_named, bundle_named, status, r),
    ensures
        r matches Ok(x) ==> (x == Registration::Done <==> !macos || status == 0),
        r is Err <==> macos && !(in_bundle && type_named && bundle_named),
{
}

/// Each kind of file has an identifier of its own.
pub proof fn identifiers_differ(s: SpreadsheetFileType, t: SpreadsheetFileType, r: Seq<char>)
    requires
        uti_is(s, r),
        uti_is(t, r),
    ensures
        s == t,
{
    reveal_strlit("org.openxmlformats.spreadsheetml.sheet");
    reveal_strlit("public.comma-separated-values-text");
    reveal_strlit("public.tab-separated-values-text");
    reveal_strlit("com.visigrid.sheet");
    reveal_strlit("com.visigrid.vgrid");
    assert("org.openxmlformats.spreadsheetml.sheet"@[0] == 'o');
    assert("public.comma-separated-values-text"@[0] == 'p');
    assert("public.comma-separated-values-text"@[7] == 'c');
    assert("public.tab-separated-values-text"@[0] == 'p');
    assert("public.tab-separated-values-text"@[7] == 't');
    assert("com.visigrid.sheet"@[0] == 'c' && "com.visigrid.sheet"@[13] == 's');
    assert("com.visigrid.vgrid"@[0] == 'c' && "com.visigrid.vgrid"@[13] == 'v');
}

} // verus!
