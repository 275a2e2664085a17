//! Choosing what to clean: from the command line, from the menu, and the
//! update of broom itself.
use vstd::prelude::*;

use crate::locations::{expand_tilde, expanded};
use crate::text::{push_str, same_text, trim, trimmed};
use crate::trash::Attempt;

verus! {

/// What a command-line argument asks for.
#[derive(Debug)]
pub enum Route {
    /// Install the latest release.
    Update,
    /// Clean the current folder.
    Here,
    /// Clean the downloads folder.
    Downloads,
    /// Clean the caches folder.
    Caches,
    /// Clean the folder at this path.
    Dir(String),
}

/// What the command-line argument `arg` asks for: `update`; `here` or `.`;
/// `downloads` or `installers`; `caches`; any other text is a folder to
/// clean, with a leading `~` read as the home folder `home`.
pub fn route_arg(arg: &str, home: Option<&str>) -> (r: Route)
    ensures
        arg@ == "update"@ ==> r is Update,
        arg@ != "update"@ && (arg@ == "here"@ || arg@ == "."@) ==> r is Here,
        arg@ != "update"@ && arg@ != "here"@ && arg@ != "."@ && (arg@ == "downloads"@ || arg@
            == "installers"@) ==> r is Downloads,
        arg@ != "update"@ && arg@ != "here"@ && arg@ != "."@ && arg@ != "downloads"@ && arg@
            != "installers"@ && arg@ == "caches"@ ==> r is Caches,
        arg@ != "update"@ && arg@ != "here"@ && arg@ != "."@ && arg@ != "downloads"@ && arg@
            != "installers"@ && arg@ != "caches"@ ==> (r matches Route::Dir(p) && p@ == expanded(
            arg@,
            match home {
                Some(h) => Some(h@),
                None => None,
            },
        )),
{
    if same_text(arg, "update") {
        Route::Update
    } else if same_text(arg, "here") || same_text(arg, ".") {
        Route::Here
    } else if same_text(arg, "downloads") || same_text(arg, "installers") {
        Route::Downloads
    } else if same_text(arg, "caches") {
        Route::Caches
    } else {
        Route::Dir(expand_tilde(arg, home))
    }
}

/// The entries of the menu, in order.
pub open spec fn menu_entries() -> Seq<Seq<char>> {
    seq![
        "This directory"@,
        "Choose another directory"@,
        "Downloads / installers"@,
        "Caches"@,
        "Update broom"@,
        "Quit"@,
    ]
}

/// The entries of the menu, in order.
pub fn menu_items() -> (v: Vec<&'static str>)
    ensures
        v@.map_values(|s: &str| s@) == menu_entries(),
{
    let v = vec![
        "This directory",
        "Choose another directory",
        "Downloads / installers",
        "Caches",
        "Update broom",
        "Quit",
    ];
    assert(v@.map_values(|s: &str| s@) =~= menu_entries());
    v
}

/// The entry the menu starts on, so that a bare Enter cleans the current
/// folder: "This directory".
pub fn default_menu_item() -> (i: usize)
    ensures
        i < menu_entries().len(),
        menu_entries()[i as int] == "This directory"@,
        i == 0,
{
    0
}

/// What an entry of the menu asks for.
#[derive(Clone, Copy, Debug, PartialEq, Eq, Structural)]
pub enum MenuChoice {
    Here,
    ChooseDirectory,
    Downloads,
    Caches,
    Update,
    Quit,
}

/// What the menu entry at position `index` asks for; past the last, quitting.
pub fn menu_choice(index: usize) -> (c: MenuChoice)
    ensures
        c == (if index == 0 {
            MenuChoice::Here
        } else if index == 1 {
            MenuChoice::ChooseDirectory
        } else if index == 2 {
            MenuChoice::Downloads
        } else if index == 3 {
            MenuChoice::Caches
        } else if index == 4 {
            MenuChoice::Update
        } else {
            MenuChoice::Quit
        }),
{
    match index {
        0 => MenuChoice::Here,
        1 => MenuChoice::ChooseDirectory,
        2 => MenuChoice::Downloads,
        3 => MenuChoice::Caches,
        4 => MenuChoice::Update,
        _ => MenuChoice::Quit,
    }
}

/// The folder that a typed answer names: the answer without white space at
/// either end, with a leading `~` read as the home folder `home`.
pub fn chosen_directory(input: &str, home: Option<&str>) -> (r: String)
    ensures
        r@ == expanded(
            trimmed(input@),
            match home {
                Some(h) => Some(h@),
                None => None,
            },
        ),
{
    let t = trim(input);
    expand_tilde(t.as_str(), home)
}

/// The program and arguments that install the latest release.
pub fn update_command() -> (r: (&'static str, Vec<&'static str>))
    ensures
        r.0@ == "cargo"@,
        r.1@.map_values(|s: &str| s@) == seq!["install"@, "broom-cli"@, "--force"@],
{
    let args = vec!["install", "broom-cli", "--force"];
    assert(args@.map_values(|s: &str| s@) =~= seq!["install"@, "broom-cli"@, "--force"@]);
    ("cargo", args)
}

/// What running the installer came to.
#[derive(Debug)]
pub enum UpdateVerdict {
    /// The latest release is installed.
    Updated,
    /// The update failed, for the reason given.
    Failed(String),
    /// The installer could not be started; its start error is the result.
    LaunchError,
}

/// What running the installer came to, from how the run went: a failure
/// carries the exit status it reported.
pub fn update_verdict(outcome: &Attempt) -> (v: UpdateVerdict)
    ensures
        outcome is Succeeded ==> v is Updated,
        outcome matches Attempt::Failed(status) ==> (v matches UpdateVerdict::Failed(m) && m@
            == "cargo install failed with status "@ + status@),
        outcome is Missing ==> (v matches UpdateVerdict::Failed(m) && m@
            == "cargo was not found in PATH; install Rust from https://rustup.rs and try again"@),
        outcome is Unlaunched ==> v is LaunchError,
{
    match outcome {
        Attempt::Succeeded => UpdateVerdict::Updated,
        Attempt::Failed(status) => {
            let mut m = "cargo install failed with status ".to_owned();
            push_str(&mut m, status.as_str());
            UpdateVerdict::Failed(m)
        },
        Attempt::Missing => UpdateVerdict::Failed(
            "cargo was not found in PATH; install Rust from https://rustup.rs and try again".to_owned(),
        ),
        Attempt::Unlaunched(_) => UpdateVerdict::LaunchError,
    }
}

} // verus!
