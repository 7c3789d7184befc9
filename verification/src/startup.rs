//! What the command line and the last session ask for at start.

use vstd::prelude::*;

use crate::text;

verus! {

/// What the command line asks for.
#[derive(Debug, PartialEq, Eq)]
pub struct CliArgs {
    /// Do not restore the last session.
    pub no_restore: bool,
    /// Files to open.
    pub files: Vec<String>,
    /// Serve the local control socket.
    pub session_server: bool,
}

/// Where reading the command line ends.
#[derive(Debug, PartialEq, Eq)]
pub enum CliOutcome {
    Run(CliArgs),
    Help,
    DumpSession,
    /// An option that does not exist.
    Unknown(String),
}

/// The command line, read: how often it asked to delete the session, which
/// happens even if a later option ends the program, and where it ends.
#[derive(Debug, PartialEq, Eq)]
pub struct ParsedArgs {
    pub resets: usize,
    pub outcome: CliOutcome,
}

#[verifier::ext_equal]
pub struct CliModel {
    pub no_restore: bool,
    pub files: Seq<Seq<char>>,
    pub session_server: bool,
}

#[verifier::ext_equal]
pub enum OutcomeModel {
    Run(CliModel),
    Help,
    DumpSession,
    Unknown(Seq<char>),
}

impl View for CliArgs {
    type V = CliModel;

    open spec fn view(&self) -> CliModel {
        CliModel {
            no_restore: self.no_restore,
            files: text::texts(self.files@),
            session_server: self.session_server,
        }
    }
}

impl View for CliOutcome {
    type V = OutcomeModel;

    open spec fn view(&self) -> OutcomeModel {
        match self {
            CliOutcome::Run(a) => OutcomeModel::Run(a@),
            CliOutcome::Help => OutcomeModel::Help,
            CliOutcome::DumpSession => OutcomeModel::DumpSession,
            CliOutcome::Unknown(u) => OutcomeModel::Unknown(u@),
        }
    }
}

/// One argument on the command line.
pub enum ArgKind {
    Help,
    DumpSession,
    ResetSession,
    NoRestore,
    SessionServer,
    NoSessionServer,
    File,
    Unknown,
}

pub open spec fn arg_kind(a: Seq<char>) -> ArgKind {
    if a == "-h"@ || a == "--help"@ {
        ArgKind::Help
    } else if a == "--dump-session"@ {
        ArgKind::DumpSession
    } else if a == "--reset-session"@ {
        ArgKind::ResetSession
    } else if a == "--no-restore"@ || a == "-n"@ {
        ArgKind::NoRestore
    } else if a == "--session-server"@ {
        ArgKind::SessionServer
    } else if a == "--no-session-server"@ {
        ArgKind::NoSessionServer
    } else if a.len() == 0 || a[0] != '-' {
        ArgKind::File
    } else {
        ArgKind::Unknown
    }
}

/// Reading on from argument `i`, with `resets` and `cli` so far.
pub open spec fn read_args(args: Seq<Seq<char>>, i: int, resets: nat, cli: CliModel) -> (
    nat,
    OutcomeModel,
)
    decreases args.len() - i,
{
    if i >= args.len() {
        (resets, OutcomeModel::Run(cli))
    } else {
        match arg_kind(args[i]) {
            ArgKind::Help => (resets, OutcomeModel::Help),
            ArgKind::DumpSession => (resets, OutcomeModel::DumpSession),
            ArgKind::ResetSession => read_args(
                args,
                i + 1,
                resets + 1,
                CliModel { no_restore: true, ..cli },
            ),
            ArgKind::NoRestore => read_args(
                args,
                i + 1,
                resets,
                CliModel { no_restore: true, ..cli },
            ),
            ArgKind::SessionServer => read_args(
                args,
                i + 1,
                resets,
                CliModel { session_server: true, ..cli },
            ),
            ArgKind::NoSessionServer => read_args(
                args,
                i + 1,
                resets,
                CliModel { session_server: false, ..cli },
            ),
            ArgKind::File => read_args(
                args,
                i + 1,
                resets,
                CliModel { files: cli.files.push(args[i]), ..cli },
            ),
            ArgKind::Unknown => (resets, OutcomeModel::Unknown(args[i])),
        }
    }
}

/// What is asked for before any argument is read.
pub open spec fn no_args() -> CliModel {
    CliModel { no_restore: false, files: Seq::empty(), session_server: true }
}

fn kind_of(a: &str) -> (r: ArgKind)
    ensures
        r == arg_kind(a@),
{
    if text::str_eq(a, "-h") || text::str_eq(a, "--help") {
        ArgKind::Help
    } else if text::str_eq(a, "--dump-session") {
        ArgKind::DumpSession
    } else if text::str_eq(a, "--reset-session") {
        ArgKind::ResetSession
    } else if text::str_eq(a, "--no-restore") || text::str_eq(a, "-n") {
        ArgKind::NoRestore
    } else if text::str_eq(a, "--session-server") {
        ArgKind::SessionServer
    } else if text::str_eq(a, "--no-session-server") {
        ArgKind::NoSessionServer
    } else if a.is_empty() || a.get_char(0) != '-' {
        ArgKind::File
    } else {
        ArgKind::Unknown
    }
}

/// Read the command line; the first entry is the program itself.
pub fn parse_args(args: &Vec<String>) -> (r: ParsedArgs)
    ensures
        (r.resets as nat, r.outcome@) == read_args(text::texts(args@), 1, 0, no_args()),
{
    let ghost all = text::texts(args@);
    let mut cli = CliArgs { no_restore: false, files: Vec::new(), session_server: true };
    let mut resets: usize = 0;
    let mut i: usize = 1;
    assert(cli@ =~= no_args());
    while i < args.len()
        invariant
            1 <= i,
            resets < i,
            all == text::texts(args@),
            read_args(all, i as int, resets as nat, cli@) == read_args(all, 1, 0, no_args()),
        decreases args.len() - i,
    {
        assert(all[i as int] == args@[i as int]@);
        let ghost before = cli@;
        match kind_of(args[i].as_str()) {
            ArgKind::Help => {
                return ParsedArgs { resets, outcome: CliOutcome::Help };
            },
            ArgKind::DumpSession => {
                return ParsedArgs { resets, outcome: CliOutcome::DumpSession };
            },
            ArgKind::ResetSession => {
                resets = resets + 1;
                cli.no_restore = true;
                assert(cli@ =~= CliModel { no_restore: true, ..before });
            },
            ArgKind::NoRestore => {
                cli.no_restore = true;
                assert(cli@ =~= CliModel { no_restore: true, ..before });
            },
            ArgKind::SessionServer => {
                cli.session_server = true;
                assert(cli@ =~= CliModel { session_server: true, ..before });
            },
            ArgKind::NoSessionServer => {
                cli.session_server = false;
                assert(cli@ =~= CliModel { session_server: false, ..before });
            },
            ArgKind::File => {
                cli.files.push(args[i].clone());
                assert(cli@ =~= CliModel { files: before.files.push(all[i as int]), ..before });
            },
            ArgKind::Unknown => {
                return ParsedArgs { resets, outcome: CliOutcome::Unknown(args[i].clone()) };
            },
        }
        i = i + 1;
    }
    ParsedArgs { resets, outcome: CliOutcome::Run(cli) }
}

/// What is opened at start.
#[derive(Debug, Clone, Copy, PartialEq, Eq, Structural)]
pub enum StartupPlan {
    RestoreSession,
    OpenFiles,
    Fresh,
}

/// Files on the command line come before the last session, and the session is
/// not restored when that was asked for or would fail in a sandbox.
pub fn startup_plan(no_restore: bool, sandboxed: bool, windows: usize, files: usize) -> (r: StartupPlan)
    ensures
        starts_with(r, no_restore, sandboxed, windows, files),
{
    if !no_restore && !sandboxed && windows > 0 && files == 0 {
        StartupPlan::RestoreSession
    } else if files > 0 {
        StartupPlan::OpenFiles
    } else {
        StartupPlan::Fresh
    }
}

/// How long to wait before looking for file URLs again, in milliseconds: soon
/// after some came, seldom when none did for a while.
pub fn url_poll_delay(idle_count: u32) -> (r: u64)
    ensures
        poll_delay_is(r, idle_count),
{
    if idle_count > 10 {
        1000
    } else if idle_count > 3 {
        500
    } else {
        100
    }
}

/// Texts with a separator between them.
pub open spec fn joined(v: Seq<Seq<char>>, sep: Seq<char>) -> Seq<char>
    decreases v.len(),
{
    if v.len() == 0 {
        Seq::empty()
    } else if v.len() == 1 {
        v[0]
    } else {
        joined(v.drop_last(), sep) + sep + v.last()
    }
}

pub fn join(v: &Vec<String>, sep: &str) -> (r: String)
    ensures
        r@ == joined(text::texts(v@), sep@),
{
    let ghost all = text::texts(v@);
    let mut r = String::new();
    if v.len() == 0 {
        return r;
    }
    r = v[0].clone();
    let mut i: usize = 1;
    assert(all.take(1)[0] == v@[0]@);
    while i < v.len()
        invariant
            1 <= i <= v.len(),
            all == text::texts(v@),
            r@ == joined(all.take(i as int), sep@),
        decreases v.len() - i,
    {
        assert(all.take(i + 1).drop_last() =~= all.take(i as int));
        assert(all.take(i + 1).last() == v@[i as int]@);
        r.append(sep);
        r.append(v[i].as_str());
        i = i + 1;
    }
    assert(all.take(all.len() as int) =~= all);
    r
}

/// What the first window of a restored session says: which files are no longer
/// there (`forgotten` of them, by `names`), else what loading its own file came to, else that it was restored.
pub fn restored_message(
    first_window: bool,
    forgotten: usize,
    names: &Vec<String>,
    missing_file: &Option<String>,
    loaded: &Option<String>,
) -> (r: String)
    ensures
        r@ == if first_window && forgotten > 0 {
            "No longer on disk, so not reopened: "@ + joined(text::texts(names@), ", "@)
        } else if missing_file is Some {
            "Session file not found: "@ + missing_file->0@
        } else if loaded is Some {
            loaded->0@
        } else {
            "Session restored"@
        },
{
    if first_window && forgotten > 0 {
        let list = join(names, ", ");
        return text::cat("No longer on disk, so not reopened: ", list.as_str());
    }
    match missing_file {
        Some(p) => text::cat("Session file not found: ", p.as_str()),
        None => match loaded {
            Some(m) => m.clone(),
            None => text::lit("Session restored"),
        },
    }
}

/// How the program starts.
pub open spec fn starts_with(
    r: StartupPlan,
    no_restore: bool,
    sandboxed: bool,
    windows: usize,
    files: usize,
) -> bool {
    &&& r == if !no_restore && !sandboxed && windows > 0 && files == 0 {
        StartupPlan::RestoreSession
    } else if files > 0 {
        StartupPlan::OpenFiles
    } else {
        StartupPlan::Fresh
    }
}

/// How long the program waits before it looks for files to open again, in milliseconds.
pub open spec fn poll_delay_is(
    r: u64,
    idle_count: u32,
) -> bool {
    &&& r == if idle_count > 10 {
        1000u64
    } else if idle_count > 3 {
        500u64
    } else {
        100u64
    }
}

// ---------------------------------------------------------------------------
// Laws
// ---------------------------------------------------------------------------

/// Every argument that does not begin with a hyphen is a file, and every one that does is
/// one of the options or is refused.
pub proof fn arguments_are_files_or_options(a: Seq<char>)
    ensures
        a.len() == 0 || a[0] != '-' ==> arg_kind(a) == ArgKind::File,
        a.len() > 0 && a[0] == '-' ==> arg_kind(a) != ArgKind::File,
        arg_kind(a) == ArgKind::Help <==> a == "-h"@ || a == "--help"@,
        arg_kind(a) == ArgKind::NoRestore <==> a == "-n"@ || a == "--no-restore"@,
        arg_kind(a) == ArgKind::DumpSession <==> a == "--dump-session"@,
        arg_kind(a) == ArgKind::ResetSession <==> a == "--reset-session"@,
        arg_kind(a) == ArgKind::SessionServer <==> a == "--session-server"@,
        arg_kind(a) == ArgKind::NoSessionServer <==> a == "--no-session-server"@,
{
    reveal_strlit("-h");
    reveal_strlit("--help");
    reveal_strlit("-n");
    reveal_strlit("--no-restore");
    reveal_strlit("--dump-session");
    reveal_strlit("--reset-session");
    reveal_strlit("--session-server");
    reveal_strlit("--no-session-server");
    assert("-h"@.len() == 2 && "-h"@[0] == '-' && "-h"@[1] == 'h');
    assert("-n"@.len() == 2 && "-n"@[0] == '-' && "-n"@[1] == 'n');
    assert("--help"@.len() == 6 && "--help"@[0] == '-');
    assert("--no-restore"@.len() == 12 && "--no-restore"@[0] == '-');
    assert("--dump-session"@.len() == 14 && "--dump-session"@[0] == '-');
    assert("--reset-session"@.len() == 15 && "--reset-session"@[0] == '-');
    assert("--session-server"@.len() == 16 && "--session-server"@[0] == '-');
    assert("--no-session-server"@.len() == 19 && "--no-session-server"@[0] == '-');
}

/// An argument that ends the reading, whatever comes behind it.
pub open spec fn is_last_word(k: ArgKind) -> bool {
    k == ArgKind::Help || k == ArgKind::DumpSession || k == ArgKind::Unknown
}

/// The settings after one more argument.
spec fn after_arg(a: Seq<char>, cli: CliModel) -> CliModel {
    match arg_kind(a) {
        ArgKind::ResetSession => CliModel { no_restore: true, ..cli },
        ArgKind::NoRestore => CliModel { no_restore: true, ..cli },
        ArgKind::SessionServer => CliModel { session_server: true, ..cli },
        ArgKind::NoSessionServer => CliModel { session_server: false, ..cli },
        ArgKind::File => CliModel { files: cli.files.push(a), ..cli },
        _ => cli,
    }
}

/// The number of resets after one more argument.
spec fn resets_after(a: Seq<char>, resets: nat) -> nat {
    if arg_kind(a) == ArgKind::ResetSession {
        resets + 1
    } else {
        resets
    }
}

proof fn lemma_one_more_arg(args: Seq<Seq<char>>, i: int, resets: nat, cli: CliModel)
    requires
        0 <= i < args.len(),
        !is_last_word(arg_kind(args[i])),
    ensures
        read_args(args, i, resets, cli) == read_args(
            args,
            i + 1,
            resets_after(args[i], resets),
            after_arg(args[i], cli),
        ),
{
}

/// The first argument that asks for help, for the session or for something unknown decides;
/// without one the program runs.
pub proof fn the_first_last_word_decides(args: Seq<Seq<char>>, i: int, resets: nat, cli: CliModel, k: int)
    requires
        0 <= i <= k <= args.len(),
        forall|j: int| i <= j < k ==> !is_last_word(arg_kind(#[trigger] args[j])),
        k < args.len() ==> is_last_word(arg_kind(args[k])),
    ensures
        k == args.len() <==> read_args(args, i, resets, cli).1 is Run,
        k < args.len() && arg_kind(args[k]) == ArgKind::Help ==> read_args(args, i, resets, cli).1
            == OutcomeModel::Help,
        k < args.len() && arg_kind(args[k]) == ArgKind::DumpSession ==> read_args(
            args,
            i,
            resets,
            cli,
        ).1 == OutcomeModel::DumpSession,
        k < args.len() && arg_kind(args[k]) == ArgKind::Unknown ==> read_args(
            args,
            i,
            resets,
            cli,
        ).1 == OutcomeModel::Unknown(args[k]),
    decreases k - i,
{
    if i < k {
        lemma_one_more_arg(args, i, resets, cli);
        the_first_last_word_decides(
            args,
            i + 1,
            resets_after(args[i], resets),
            after_arg(args[i], cli),
            k,
        );
    }
}

/// Files are opened in the order in which they are given, behind those there are, and with
/// nothing but files the settings stay.
pub proof fn files_are_opened_in_order(args: Seq<Seq<char>>, i: int, resets: nat, cli: CliModel)
    requires
        0 <= i <= args.len(),
        forall|j: int| i <= j < args.len() ==> arg_kind(#[trigger] args[j]) == ArgKind::File,
    ensures
        read_args(args, i, resets, cli) == (resets, OutcomeModel::Run(
            CliModel { files: cli.files + args.skip(i), ..cli },
        )),
    decreases args.len() - i,
{
    if i < args.len() {
        lemma_one_more_arg(args, i, resets, cli);
        files_are_opened_in_order(args, i + 1, resets, after_arg(args[i], cli));
        assert(cli.files.push(args[i]) + args.skip(i + 1) =~= cli.files + args.skip(i));
    } else {
        assert(cli.files + args.skip(i) =~= cli.files);
    }
}

/// The last session is restored unless one of the arguments says not to, and a reset is one
/// that does.
pub proof fn a_session_is_restored_unless_told_not_to(
    args: Seq<Seq<char>>,
    i: int,
    resets: nat,
    cli: CliModel,
)
    requires
        0 <= i <= args.len(),
        forall|j: int| i <= j < args.len() ==> !is_last_word(arg_kind(#[trigger] args[j])),
    ensures
        read_args(args, i, resets, cli).1 matches OutcomeModel::Run(c) && (c.no_restore
            <==> cli.no_restore || exists|j: int|
            i <= j < args.len() && (arg_kind(#[trigger] args[j]) == ArgKind::NoRestore || arg_kind(
                args[j],
            ) == ArgKind::ResetSession)),
        read_args(args, i, resets, cli).0 > resets <==> exists|j: int|
            i <= j < args.len() && arg_kind(#[trigger] args[j]) == ArgKind::ResetSession,
        read_args(args, i, resets, cli).0 >= resets,
        !no_args().no_restore,
    decreases args.len() - i,
{
    if i < args.len() {
        lemma_one_more_arg(args, i, resets, cli);
        a_session_is_restored_unless_told_not_to(
            args,
            i + 1,
            resets_after(args[i], resets),
            after_arg(args[i], cli),
        );
    }
}

/// The last argument on the session server decides on it, and without one it is served.
pub proof fn the_last_word_on_the_server_decides(
    args: Seq<Seq<char>>,
    i: int,
    resets: nat,
    cli: CliModel,
    k: int,
)
    requires
        0 <= i <= args.len(),
        i - 1 <= k < args.len(),
        forall|j: int| i <= j < args.len() ==> !is_last_word(arg_kind(#[trigger] args[j])),
        k >= i ==> arg_kind(args[k]) == ArgKind::SessionServer || arg_kind(args[k])
            == ArgKind::NoSessionServer,
        forall|j: int|
            k < j < args.len() ==> arg_kind(#[trigger] args[j]) != ArgKind::SessionServer
                && arg_kind(args[j]) != ArgKind::NoSessionServer,
    ensures
        read_args(args, i, resets, cli).1 matches OutcomeModel::Run(c) && c.session_server == (if k
            >= i {
            arg_kind(args[k]) == ArgKind::SessionServer
        } else {
            cli.session_server
        }),
        no_args().session_server,
    decreases args.len() - i,
{
    if i < args.len() {
        lemma_one_more_arg(args, i, resets, cli);
        the_last_word_on_the_server_decides(
            args,
            i + 1,
            resets_after(args[i], resets),
            after_arg(args[i], cli),
            if k >= i {
                k
            } else {
                i
            },
        );
    }
}

/// Files that are given are opened, and a session is restored only where none are given, where
/// there is one, and where nothing speaks against it.
pub proof fn how_the_program_starts(
    r: StartupPlan,
    no_restore: bool,
    sandboxed: bool,
    windows: usize,
    files: usize,
)
    requires
        starts_with(r, no_restore, sandboxed, windows, files),
    ensures
        files > 0 <==> r == StartupPlan::OpenFiles,
        r == StartupPlan::RestoreSession ==> !no_restore && !sandboxed && windows > 0,
        files == 0 && windows > 0 && !no_restore && !sandboxed ==> r == StartupPlan::RestoreSession,
        files == 0 && (no_restore || sandboxed || windows == 0) ==> r == StartupPlan::Fresh,
{
}

/// The longer nothing was opened, the longer the program waits, from a tenth of a second up to
/// a second.
pub proof fn an_idle_program_waits_longer(a: u64, b: u64, idle: u32, longer: u32)
    requires
        poll_delay_is(a, idle),
        poll_delay_is(b, longer),
        idle <= longer,
    ensures
        100 <= a <= b <= 1000,
        idle <= 3 ==> a == 100,
        longer > 10 ==> b == 1000,
        3 < idle <= 10 ==> a == 500,
{
}

/// Texts that are joined stand in their order with the separator between each two of them.
pub proof fn joined_texts_stand_in_order(v: Seq<Seq<char>>, x: Seq<char>, sep: Seq<char>)
    ensures
        joined(Seq::empty(), sep).len() == 0,
        joined(seq![x], sep) == x,
        v.len() > 0 ==> joined(v.push(x), sep) == joined(v, sep) + sep + x,
{
    assert(v.push(x).drop_last() =~= v);
}

} // verus!
