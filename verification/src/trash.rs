//! Moving an item to the Trash: which commands to run on each platform, and
//! what their outcomes add up to.
use vstd::prelude::*;

use crate::text::{push_str, trim, trimmed};

verus! {

/// The platform the program runs on.
#[derive(Clone, Copy, Debug, PartialEq, Eq, Structural)]
pub enum Platform {
    MacOs,
    Linux,
    Windows,
    Other,
}

/// A command that moves the item to the Trash; the item's path is passed as
/// the last argument, after `args`.
pub struct TrashCommand {
    pub program: String,
    pub args: Vec<String>,
}

pub struct TrashCommandView {
    pub program: Seq<char>,
    pub args: Seq<Seq<char>>,
}

impl View for TrashCommand {
    type V = TrashCommandView;

    open spec fn view(&self) -> TrashCommandView {
        TrashCommandView { program: self.program@, args: self.args@.map_values(|a: String| a@) }
    }
}

/// How running a command went.
#[derive(Debug)]
pub enum Attempt {
    /// It ran and reported success.
    Succeeded,
    /// It ran and reported failure; the text of the failure (what it wrote
    /// to its error stream, or the exit status it gave).
    Failed(String),
    /// The program is not installed.
    Missing,
    /// It could not be started; the error.
    Unlaunched(String),
}

pub enum AttemptView {
    Succeeded,
    Failed(Seq<char>),
    Missing,
    Unlaunched(Seq<char>),
}

impl View for Attempt {
    type V = AttemptView;

    open spec fn view(&self) -> AttemptView {
        match self {
            Attempt::Succeeded => AttemptView::Succeeded,
            Attempt::Failed(e) => AttemptView::Failed(e@),
            Attempt::Missing => AttemptView::Missing,
            Attempt::Unlaunched(e) => AttemptView::Unlaunched(e@),
        }
    }
}

/// The kind of error that a failed move reports.
#[derive(Clone, Copy, Debug, PartialEq, Eq, Structural)]
pub enum TrashErrorKind {
    NotFound,
    Unsupported,
    Other,
}

/// What moving the item came to.
#[derive(Debug)]
pub enum TrashVerdict {
    /// The item is in the Trash.
    Trashed,
    /// The item was left in place, for the reason given.
    Refused(TrashErrorKind, String),
    /// The command could not be started; its start error is the result.
    LaunchError,
}

pub enum TrashVerdictView {
    Trashed,
    Refused(TrashErrorKind, Seq<char>),
    LaunchError,
}

impl View for TrashVerdict {
    type V = TrashVerdictView;

    open spec fn view(&self) -> TrashVerdictView {
        match self {
            TrashVerdict::Trashed => TrashVerdictView::Trashed,
            TrashVerdict::Refused(k, m) => TrashVerdictView::Refused(*k, m@),
            TrashVerdict::LaunchError => TrashVerdictView::LaunchError,
        }
    }
}

/// The Finder script that deletes the item given as its argument.
pub open spec fn finder_args() -> Seq<Seq<char>> {
    seq![
        "-e"@,
        "on run argv"@,
        "-e"@,
        "set itemPath to item 1 of argv"@,
        "-e"@,
        "tell application \"Finder\""@,
        "-e"@,
        "delete (POSIX file itemPath as alias)"@,
        "-e"@,
        "end tell"@,
        "-e"@,
        "end run"@,
    ]
}

/// The PowerShell script that sends a folder to the Recycle Bin.
pub open spec fn recycle_folder_script() -> Seq<char> {
    "Add-Type -AssemblyName Microsoft.VisualBasic; [Microsoft.VisualBasic.FileIO.FileSystem]::DeleteDirectory($args[0], 'OnlyErrorDialogs', 'SendToRecycleBin')"@
}

/// The PowerShell script that sends a file to the Recycle Bin.
pub open spec fn recycle_file_script() -> Seq<char> {
    "Add-Type -AssemblyName Microsoft.VisualBasic; [Microsoft.VisualBasic.FileIO.FileSystem]::DeleteFile($args[0], 'OnlyErrorDialogs', 'SendToRecycleBin')"@
}

/// The commands tried, in order, to move an item (a folder where `is_dir`):
/// Finder through osascript on macOS, `gio trash` then `trash-put` on
/// Linux, PowerShell on Windows, none elsewhere.
pub open spec fn trash_plan(platform: Platform, is_dir: bool) -> Seq<TrashCommandView> {
    match platform {
        Platform::MacOs => seq![TrashCommandView { program: "osascript"@, args: finder_args() }],
        Platform::Linux => seq![
            TrashCommandView { program: "gio"@, args: seq!["trash"@] },
            TrashCommandView { program: "trash-put"@, args: Seq::empty() },
        ],
        Platform::Windows => seq![
            TrashCommandView {
                program: "powershell"@,
                args: seq![
                    "-NoProfile"@,
                    "-Command"@,
                    if is_dir {
                        recycle_folder_script()
                    } else {
                        recycle_file_script()
                    },
                ],
            },
        ],
        Platform::Other => Seq::empty(),
    }
}

fn owned_all(list: Vec<&str>) -> (v: Vec<String>)
    ensures
        v@.map_values(|a: String| a@) == list@.map_values(|a: &str| a@),
{
    let mut v: Vec<String> = Vec::new();
    let n = list.len();
    for i in 0..n
        invariant
            n == list@.len(),
            v@.map_values(|a: String| a@) == list@.take(i as int).map_values(|a: &str| a@),
    {
        let ghost before = v@;
        let o = list[i].to_owned();
        v.push(o);
        assert(list@.take(i + 1) =~= list@.take(i as int).push(list@[i as int]));
        assert(before.push(o).map_values(|a: String| a@) =~= before.map_values(|a: String| a@).push(
            o@,
        ));
        assert(list@.take(i as int).push(list@[i as int]).map_values(|a: &str| a@) =~= list@.take(
            i as int,
        ).map_values(|a: &str| a@).push(list@[i as int]@));
    }
    assert(list@.take(n as int) =~= list@);
    v
}

/// The commands to try, in order, to move an item to the Trash.
pub fn trash_commands(platform: Platform, is_dir: bool) -> (v: Vec<TrashCommand>)
    ensures
        v@.map_values(|c: TrashCommand| c@) == trash_plan(platform, is_dir),
        platform == Platform::MacOs ==> v@.len() == 1 && v@[0]@.program == "osascript"@,
        platform == Platform::Linux ==> {
            &&& v@.len() == 2
            &&& v@[0]@.program == "gio"@
            &&& v@[0]@.args == seq!["trash"@]
            &&& v@[1]@.program == "trash-put"@
            &&& v@[1]@.args.len() == 0
        },
        platform == Platform::Windows ==> {
            &&& v@.len() == 1
            &&& v@[0]@.program == "powershell"@
            &&& v@[0]@.args == seq![
                "-NoProfile"@,
                "-Command"@,
                if is_dir {
                    "Add-Type -AssemblyName Microsoft.VisualBasic; [Microsoft.VisualBasic.FileIO.FileSystem]::DeleteDirectory($args[0], 'OnlyErrorDialogs', 'SendToRecycleBin')"@
                } else {
                    "Add-Type -AssemblyName Microsoft.VisualBasic; [Microsoft.VisualBasic.FileIO.FileSystem]::DeleteFile($args[0], 'OnlyErrorDialogs', 'SendToRecycleBin')"@
                },
            ]
        },
        platform == Platform::Other ==> v@.len() == 0,
{
    let mut v: Vec<TrashCommand> = Vec::new();
    match platform {
        Platform::MacOs => {
            let args = owned_all(
                vec![
                    "-e",
                    "on run argv",
                    "-e",
                    "set itemPath to item 1 of argv",
                    "-e",
                    "tell application \"Finder\"",
                    "-e",
                    "delete (POSIX file itemPath as alias)",
                    "-e",
                    "end tell",
                    "-e",
                    "end run",
                ],
            );
            assert(args@.map_values(|a: String| a@) =~= finder_args());
            let c = TrashCommand { program: "osascript".to_owned(), args };
            assert(c@ == TrashCommandView { program: "osascript"@, args: finder_args() });
            v.push(c);
            assert(v@.map_values(|c: TrashCommand| c@) =~= trash_plan(platform, is_dir));
        },
        Platform::Linux => {
            let gio_args = owned_all(vec!["trash"]);
            assert(gio_args@.map_values(|a: String| a@) =~= seq!["trash"@]);
            let c1 = TrashCommand { program: "gio".to_owned(), args: gio_args };
            let c2 = TrashCommand { program: "trash-put".to_owned(), args: Vec::new() };
            assert(c2@.args =~= Seq::<Seq<char>>::empty());
            v.push(c1);
            v.push(c2);
            assert(v@.map_values(|c: TrashCommand| c@) =~= trash_plan(platform, is_dir));
        },
        Platform::Windows => {
            let script = if is_dir {
                "Add-Type -AssemblyName Microsoft.VisualBasic; [Microsoft.VisualBasic.FileIO.FileSystem]::DeleteDirectory($args[0], 'OnlyErrorDialogs', 'SendToRecycleBin')"
            } else {
                "Add-Type -AssemblyName Microsoft.VisualBasic; [Microsoft.VisualBasic.FileIO.FileSystem]::DeleteFile($args[0], 'OnlyErrorDialogs', 'SendToRecycleBin')"
            };
            let args = owned_all(vec!["-NoProfile", "-Command", script]);
            assert(args@.map_values(|a: String| a@) =~= seq!["-NoProfile"@, "-Command"@, script@]);
            let c = TrashCommand { program: "powershell".to_owned(), args };
            v.push(c);
            assert(v@.map_values(|c: TrashCommand| c@) =~= trash_plan(platform, is_dir));
        },
        Platform::Other => {
            assert(v@.map_values(|c: TrashCommand| c@) =~= trash_plan(platform, is_dir));
        },
    }
    v
}

/// The error of a command that ran and failed: what it wrote to its error
/// stream, trimmed, after "`program` failed: "; `fallback` where it wrote nothing
/// but white space.
pub open spec fn command_error(program: Seq<char>, stderr: Seq<char>, fallback: Seq<char>) -> Seq<
    char,
> {
    let message = trimmed(stderr);
    if message.len() == 0 {
        fallback
    } else {
        program + " failed: "@ + message
    }
}

/// The error of a command that ran and failed.
pub fn trash_command_error(program: &str, stderr: &str, fallback: &str) -> (m: String)
    ensures
        m@ == command_error(program@, stderr@, fallback@),
{
    let message = trim(stderr);
    if message.as_str().unicode_len() == 0 {
        fallback.to_owned()
    } else {
        let mut m = program.to_owned();
        push_str(&mut m, " failed: ");
        push_str(&mut m, message.as_str());
        m
    }
}

/// The error that one failed attempt on Linux adds to the report, if any.
pub open spec fn linux_failure(program: Seq<char>, attempt: AttemptView) -> Option<Seq<char>> {
    match attempt {
        AttemptView::Failed(e) => Some(
            command_error(program, e, program + " could not move the item to Trash"@),
        ),
        AttemptView::Unlaunched(e) => Some(program + " failed: "@ + e),
        _ => None,
    }
}

/// The errors that the attempts on Linux add to the report, in order.
pub open spec fn linux_failures(plan: Seq<TrashCommandView>, attempts: Seq<AttemptView>) -> Seq<
    Seq<char>,
>
    decreases attempts.len(),
{
    if attempts.len() == 0 {
        Seq::empty()
    } else {
        let pre = linux_failures(plan, attempts.drop_last());
        match linux_failure(plan[attempts.len() - 1].program, attempts.last()) {
            Some(m) => pre.push(m),
            None => pre,
        }
    }
}

/// Texts joined by "; ".
pub open spec fn join_semicolons(parts: Seq<Seq<char>>) -> Seq<char>
    decreases parts.len(),
{
    if parts.len() == 0 {
        Seq::empty()
    } else if parts.len() == 1 {
        parts[0]
    } else {
        join_semicolons(parts.drop_last()) + "; "@ + parts.last()
    }
}

/// Some attempt succeeded.
pub open spec fn any_succeeded(attempts: Seq<AttemptView>) -> bool {
    exists|i: int| 0 <= i < attempts.len() && #[trigger] attempts[i] is Succeeded
}

/// What the attempts so far come to, for an item on `platform`: `None` while
/// the next command of the plan is still to be run.  On macOS and Windows the
/// one command decides: success moves the item, a failure refuses it with
/// its error, a start error is the result.  On Linux the first success moves
/// the item; missing programs are passed over; once every command is tried,
/// the item is refused: as not found where no command could run, else with
/// the errors gathered.  Elsewhere the item is refused as unsupported.
pub open spec fn settled(platform: Platform, is_dir: bool, attempts: Seq<AttemptView>) -> Option<
    TrashVerdictView,
> {
    let plan = trash_plan(platform, is_dir);
    match platform {
        Platform::Other => Some(
            TrashVerdictView::Refused(
                TrashErrorKind::Unsupported,
                "moving items to Trash is not supported on this platform"@,
            ),
        ),
        Platform::Linux => if any_succeeded(attempts) {
            Some(TrashVerdictView::Trashed)
        } else if attempts.len() < plan.len() {
            None
        } else {
            let failures = linux_failures(plan, attempts);
            if failures.len() == 0 {
                Some(
                    TrashVerdictView::Refused(
                        TrashErrorKind::NotFound,
                        "could not find gio or trash-put; install GLib or trash-cli to move items to Trash"@,
                    ),
                )
            } else {
                Some(
                    TrashVerdictView::Refused(
                        TrashErrorKind::Other,
                        "could not move the item to Trash: "@ + join_semicolons(failures),
                    ),
                )
            }
        },
        _ => if attempts.len() == 0 {
            None
        } else {
            match attempts[0] {
                AttemptView::Succeeded => Some(TrashVerdictView::Trashed),
                AttemptView::Failed(e) => Some(
                    TrashVerdictView::Refused(
                        TrashErrorKind::Other,
                        command_error(
                            plan[0].program,
                            e,
                            if platform == Platform::MacOs {
                                "Finder could not move the item to Trash"@
                            } else {
                                "PowerShell could not move the item to Recycle Bin"@
                            },
                        ),
                    ),
                ),
                _ => Some(TrashVerdictView::LaunchError),
            }
        },
    }
}

/// On Linux both `gio trash` and `trash-put` are tried before the item is
/// given up: while fewer than two attempts have been made and none
/// succeeded, nothing is settled, whatever the earlier attempts were; any
/// success moves the item; and a refusal comes only after two attempts.
pub proof fn lemma_linux_tries_both(is_dir: bool, attempts: Seq<AttemptView>)
    ensures
        attempts.len() < 2 && !any_succeeded(attempts) ==> settled(Platform::Linux, is_dir, attempts)
            is None,
        any_succeeded(attempts) ==> settled(Platform::Linux, is_dir, attempts) == Some(
            TrashVerdictView::Trashed,
        ),
        (settled(Platform::Linux, is_dir, attempts) matches Some(TrashVerdictView::Refused(_, _)))
            ==> attempts.len() >= 2,
{
}

/// An attempt on Linux adds an error to the report exactly when its
/// command ran and failed or could not be started.
proof fn lemma_linux_failures_empty(plan: Seq<TrashCommandView>, attempts: Seq<AttemptView>)
    ensures
        linux_failures(plan, attempts).len() == 0 <==> forall|i: int|
            0 <= i < attempts.len() ==> (#[trigger] attempts[i] is Missing || attempts[i] is Succeeded),
    decreases attempts.len(),
{
    if attempts.len() > 0 {
        let pre = attempts.drop_last();
        lemma_linux_failures_empty(plan, pre);
        assert forall|i: int| 0 <= i < pre.len() implies #[trigger] pre[i] == attempts[i] by {}
        let last = attempts.last();
        if last is Missing || last is Succeeded {
            assert(linux_failures(plan, attempts) == linux_failures(plan, pre));
            if linux_failures(plan, pre).len() == 0 {
                assert forall|i: int| 0 <= i < attempts.len() implies (#[trigger] attempts[i] is Missing
                    || attempts[i] is Succeeded) by {
                    if i < pre.len() {
                        assert(pre[i] == attempts[i]);
                    }
                }
            } else {
                let j = choose|j: int| 0 <= j < pre.len() && !(#[trigger] pre[j] is Missing || pre[j] is Succeeded);
                assert(pre[j] == attempts[j]);
            }
        } else {
            assert(linux_failures(plan, attempts).len() == linux_failures(plan, pre).len() + 1);
            assert(!(attempts[attempts.len() - 1] is Missing || attempts[attempts.len() - 1] is Succeeded));
        }
    }
}

/// What the attempts come to on each platform: elsewhere than macOS, Linux
/// and Windows the item is refused as unsupported; on macOS and Windows the
/// one command decides (success moves the item, a failure refuses it, a
/// program that is missing or could not start is a start error); on Linux,
/// once both commands were tried without success, the item is refused as
/// not found where neither program was there, and with the errors gathered
/// where one ran and failed or could not start.
pub proof fn lemma_settled_outcomes(platform: Platform, is_dir: bool, attempts: Seq<AttemptView>)
    ensures
        platform == Platform::Other ==> (settled(platform, is_dir, attempts) matches Some(
            TrashVerdictView::Refused(TrashErrorKind::Unsupported, _),
        )),
        platform == Platform::MacOs || platform == Platform::Windows ==> {
            &&& attempts.len() == 0 ==> settled(platform, is_dir, attempts) is None
            &&& attempts.len() > 0 && attempts[0] is Succeeded ==> settled(platform, is_dir, attempts)
                == Some(TrashVerdictView::Trashed)
            &&& attempts.len() > 0 && attempts[0] is Failed ==> (settled(
                platform,
                is_dir,
                attempts,
            ) matches Some(TrashVerdictView::Refused(TrashErrorKind::Other, _)))
            &&& attempts.len() > 0 && (attempts[0] is Missing || attempts[0] is Unlaunched) ==> settled(
                platform,
                is_dir,
                attempts,
            ) == Some(TrashVerdictView::LaunchError)
        },
        platform == Platform::Linux && attempts.len() == 2 && !any_succeeded(attempts) ==> {
            &&& attempts[0] is Missing && attempts[1] is Missing ==> (settled(
                platform,
                is_dir,
                attempts,
            ) matches Some(TrashVerdictView::Refused(TrashErrorKind::NotFound, _)))
            &&& !(attempts[0] is Missing && attempts[1] is Missing) ==> (settled(
                platform,
                is_dir,
                attempts,
            ) matches Some(TrashVerdictView::Refused(TrashErrorKind::Other, _)))
        },
{
    if platform == Platform::Linux && attempts.len() == 2 && !any_succeeded(attempts) {
        lemma_linux_failures_empty(trash_plan(platform, is_dir), attempts);
        assert(!(attempts[0] is Succeeded));
        assert(!(attempts[1] is Succeeded));
    }
}

/// The views of a sequence of attempts.
pub open spec fn attempt_views(v: Seq<Attempt>) -> Seq<AttemptView> {
    v.map_values(|a: Attempt| a@)
}

/// What the attempts so far come to, for an item (a folder where `is_dir`)
/// on `platform`: `None` while the next command of `trash_commands` is to
/// be run, and its outcome added to `attempts`.
pub fn settle(platform: Platform, is_dir: bool, attempts: &Vec<Attempt>) -> (r: Option<TrashVerdict>)
    requires
        attempts@.len() <= trash_plan(platform, is_dir).len(),
        platform == Platform::Linux ==> forall|i: int|
            0 <= i < attempts@.len() - 1 ==> !(#[trigger] attempts@[i]@ is Succeeded),
    ensures
        r is None <==> settled(platform, is_dir, attempt_views(attempts@)) is None,
        r matches Some(v) ==> settled(platform, is_dir, attempt_views(attempts@)) == Some(v@),
        attempts@.len() == trash_plan(platform, is_dir).len() ==> r is Some,
        platform == Platform::Linux && attempts@.len() < 2 && (forall|i: int|
            0 <= i < attempts@.len() ==> !(#[trigger] attempts@[i]@ is Succeeded)) ==> r is None,
        platform == Platform::Linux && (exists|i: int|
            0 <= i < attempts@.len() && #[trigger] attempts@[i]@ is Succeeded) ==> r matches Some(
            TrashVerdict::Trashed,
        ),
        platform == Platform::Linux && (r matches Some(TrashVerdict::Refused(_, _)))
            ==> attempts@.len() == 2,
        platform == Platform::Linux && attempts@.len() == 2 && !(attempts@[0]@ is Succeeded) && !(
        attempts@[1]@ is Succeeded) ==> (r matches Some(TrashVerdict::Refused(k, _)) && k == (if attempts@[0]@ is Missing
            && attempts@[1]@ is Missing {
            TrashErrorKind::NotFound
        } else {
            TrashErrorKind::Other
        })),
        platform == Platform::Other ==> (r matches Some(
            TrashVerdict::Refused(TrashErrorKind::Unsupported, _),
        )),
        (platform == Platform::MacOs || platform == Platform::Windows) && attempts@.len() > 0 ==> {
            &&& attempts@[0]@ is Succeeded ==> (r matches Some(TrashVerdict::Trashed))
            &&& attempts@[0]@ is Failed ==> (r matches Some(
                TrashVerdict::Refused(TrashErrorKind::Other, _),
            ))
            &&& (attempts@[0]@ is Missing || attempts@[0]@ is Unlaunched) ==> (r matches Some(
                TrashVerdict::LaunchError,
            ))
        },
{
    proof {
        lemma_settled_outcomes(platform, is_dir, attempt_views(attempts@));
        lemma_linux_tries_both(is_dir, attempt_views(attempts@));
    }
    let ghost av = attempt_views(attempts@);
    let ghost plan = trash_plan(platform, is_dir);
    match platform {
        Platform::Other => {
            return Some(
                TrashVerdict::Refused(
                    TrashErrorKind::Unsupported,
                    "moving items to Trash is not supported on this platform".to_owned(),
                ),
            );
        },
        Platform::Linux => {
            let commands = trash_commands(platform, is_dir);
            assert(commands@.map_values(|c: TrashCommand| c@) == plan);
            let n = attempts.len();
            let mut failures: Vec<String> = Vec::new();
            assert(av.take(0) =~= Seq::<AttemptView>::empty());
            for i in 0..n
                invariant
                    n == attempts@.len(),
                    n <= plan.len(),
                    av == attempt_views(attempts@),
                    plan == trash_plan(platform, is_dir),
                    platform == Platform::Linux,
                    commands@.map_values(|c: TrashCommand| c@) == plan,
                    failures@.map_values(|m: String| m@) == linux_failures(plan, av.take(i as int)),
                    !any_succeeded(av.take(i as int)),
            {
                assert(av.take(i + 1).drop_last() =~= av.take(i as int));
                assert(av.take(i + 1).last() == attempts@[i as int]@);
                assert(plan[i as int].program == commands@[i as int].program@);
                let program = commands[i].program.as_str();
                match &attempts[i] {
                    Attempt::Succeeded => {
                        assert(av[i as int] is Succeeded);
                        return Some(TrashVerdict::Trashed);
                    },
                    Attempt::Failed(e) => {
                        let mut fallback = program.to_owned();
                        push_str(&mut fallback, " could not move the item to Trash");
                        let m = trash_command_error(program, e.as_str(), fallback.as_str());
                        failures.push(m);
                    },
                    Attempt::Missing => {},
                    Attempt::Unlaunched(e) => {
                        let mut m = program.to_owned();
                        push_str(&mut m, " failed: ");
                        push_str(&mut m, e.as_str());
                        failures.push(m);
                    },
                }
                assert(failures@.map_values(|m: String| m@) =~= linux_failures(plan, av.take(i + 1)));
                assert forall|j: int| 0 <= j < i + 1 implies !(#[trigger] av.take(i + 1)[j] is Succeeded) by {
                    if j < i {
                        assert(av.take(i + 1)[j] == av.take(i as int)[j]);
                    }
                }
            }
            assert(av.take(n as int) =~= av);
            if n < commands.len() {
                return None;
            }
            if failures.len() == 0 {
                return Some(
                    TrashVerdict::Refused(
                        TrashErrorKind::NotFound,
                        "could not find gio or trash-put; install GLib or trash-cli to move items to Trash".to_owned(),
                    ),
                );
            }
            let mut m = "could not move the item to Trash: ".to_owned();
            let k = failures.len();
            let ghost fs = failures@.map_values(|m: String| m@);
            let ghost head = m@;
            for j in 0..k
                invariant
                    k == failures@.len(),
                    fs == failures@.map_values(|m: String| m@),
                    m@ == head + join_semicolons(fs.take(j as int)),
            {
                assert(fs.take(j + 1).drop_last() =~= fs.take(j as int));
                if j > 0 {
                    push_str(&mut m, "; ");
                }
                push_str(&mut m, failures[j].as_str());
                assert(m@ =~= head + join_semicolons(fs.take(j + 1)));
            }
            assert(fs.take(k as int) =~= fs);
            return Some(TrashVerdict::Refused(TrashErrorKind::Other, m));
        },
        _ => {
            if attempts.len() == 0 {
                return None;
            }
            let commands = trash_commands(platform, is_dir);
            assert(commands@.map_values(|c: TrashCommand| c@) == plan);
            assert(plan[0].program == commands@[0].program@);
            match &attempts[0] {
                Attempt::Succeeded => Some(TrashVerdict::Trashed),
                Attempt::Failed(e) => {
                    let fallback = match platform {
                        Platform::MacOs => "Finder could not move the item to Trash",
                        _ => "PowerShell could not move the item to Recycle Bin",
                    };
                    let m = trash_command_error(commands[0].program.as_str(), e.as_str(), fallback);
                    Some(TrashVerdict::Refused(TrashErrorKind::Other, m))
                },
                _ => Some(TrashVerdict::LaunchError),
            }
        },
    }
}

} // verus!
