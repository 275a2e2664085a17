use broom::locations::{caches_dir, clean_caches, clean_downloads, clean_here, downloads_dir, expand_tilde};
use broom::menu::{
    chosen_directory, default_menu_item, menu_choice, menu_items, route_arg, update_command, update_verdict, MenuChoice,
    Route, UpdateVerdict,
};
use broom::trash::{settle, trash_command_error, trash_commands, Attempt, Platform, TrashErrorKind, TrashVerdict};

#[test]
fn tilde_expansion() {
    assert_eq!(expand_tilde("~", Some("/home/u")), "/home/u");
    assert_eq!(expand_tilde("~", None), "~");
    assert_eq!(expand_tilde("~/projects", Some("/home/u")), "/home/u/projects");
    assert_eq!(expand_tilde("~/projects", None), "~/projects");
    assert_eq!(expand_tilde("~/", Some("/home/u")), "/home/u/");
    assert_eq!(expand_tilde("~other", Some("/home/u")), "~other");
    assert_eq!(expand_tilde("/abs", Some("/home/u")), "/abs");
    assert_eq!(expand_tilde("~//etc", Some("/home/u")), "/etc");
}

#[test]
fn home_places() {
    assert_eq!(downloads_dir(Some("/home/u")).as_deref(), Some("/home/u/Downloads"));
    assert_eq!(caches_dir(Some("/home/u")).as_deref(), Some("/home/u/Library/Caches"));
    assert_eq!(downloads_dir(None), None);
    assert_eq!(caches_dir(None), None);
}

#[test]
fn cleaning_start_points() {
    assert_eq!(clean_downloads(Some("/h"), |_| true), Ok("/h/Downloads".to_owned()));
    assert_eq!(clean_downloads(Some("/h"), |_| false), Err("/h/Downloads does not exist.".to_owned()));
    assert_eq!(clean_downloads(None, |_| true), Err("Could not find your home directory.".to_owned()));
    assert_eq!(clean_caches(Some("/h"), |p| p == "/h/Library/Caches"), Ok("/h/Library/Caches".to_owned()));
    assert_eq!(clean_caches(None, |_| true), Err("Could not find your home directory.".to_owned()));
    assert_eq!(clean_here("/p", |_| true, |_| true), Ok(()));
    assert_eq!(clean_here("/p", |_| false, |_| panic!("not asked")), Err("/p does not exist.".to_owned()));
    assert_eq!(clean_here("/p", |_| true, |_| false), Err("/p is not a directory.".to_owned()));
}

#[test]
fn command_line_routes() {
    assert!(matches!(route_arg("update", None), Route::Update));
    assert!(matches!(route_arg("here", None), Route::Here));
    assert!(matches!(route_arg(".", None), Route::Here));
    assert!(matches!(route_arg("downloads", None), Route::Downloads));
    assert!(matches!(route_arg("installers", None), Route::Downloads));
    assert!(matches!(route_arg("caches", None), Route::Caches));
    match route_arg("~/projects", Some("/home/u")) {
        Route::Dir(p) => assert_eq!(p, "/home/u/projects"),
        _ => panic!("expected a folder"),
    }
    match route_arg("Update", None) {
        Route::Dir(p) => assert_eq!(p, "Update"),
        _ => panic!("expected a folder"),
    }
}

#[test]
fn menu() {
    assert_eq!(
        menu_items(),
        vec!["This directory", "Choose another directory", "Downloads / installers", "Caches", "Update broom", "Quit"]
    );
    assert_eq!(menu_choice(0), MenuChoice::Here);
    assert_eq!(menu_choice(1), MenuChoice::ChooseDirectory);
    assert_eq!(menu_choice(2), MenuChoice::Downloads);
    assert_eq!(menu_choice(3), MenuChoice::Caches);
    assert_eq!(menu_choice(4), MenuChoice::Update);
    assert_eq!(menu_choice(5), MenuChoice::Quit);
    assert_eq!(menu_choice(99), MenuChoice::Quit);
    assert_eq!(menu_items()[default_menu_item()], "This directory");
    assert_eq!(menu_choice(default_menu_item()), MenuChoice::Here);
    assert_eq!(chosen_directory("  ~/code \n", Some("/home/u")), "/home/u/code");
}

#[test]
fn updating() {
    let (program, args) = update_command();
    assert_eq!(program, "cargo");
    assert_eq!(args, vec!["install", "broom-cli", "--force"]);
    assert!(matches!(update_verdict(&Attempt::Succeeded), UpdateVerdict::Updated));
    match update_verdict(&Attempt::Failed("exit status: 101".into())) {
        UpdateVerdict::Failed(m) => assert_eq!(m, "cargo install failed with status exit status: 101"),
        _ => panic!("expected a failure"),
    }
    match update_verdict(&Attempt::Missing) {
        UpdateVerdict::Failed(m) => {
            assert_eq!(m, "cargo was not found in PATH; install Rust from https://rustup.rs and try again")
        }
        _ => panic!("expected a failure"),
    }
    assert!(matches!(update_verdict(&Attempt::Unlaunched("denied".into())), UpdateVerdict::LaunchError));
}

#[test]
fn trash_commands_per_platform() {
    let linux = trash_commands(Platform::Linux, false);
    assert_eq!(linux.len(), 2);
    assert_eq!(linux[0].program, "gio");
    assert_eq!(linux[0].args, vec!["trash"]);
    assert_eq!(linux[1].program, "trash-put");
    assert!(linux[1].args.is_empty());
    let mac = trash_commands(Platform::MacOs, true);
    assert_eq!(mac[0].program, "osascript");
    assert_eq!(mac[0].args.len(), 12);
    assert_eq!(mac[0].args[7], "delete (POSIX file itemPath as alias)");
    let win_dir = trash_commands(Platform::Windows, true);
    assert!(win_dir[0].args[2].contains("DeleteDirectory"));
    let win_file = trash_commands(Platform::Windows, false);
    assert!(win_file[0].args[2].contains("DeleteFile"));
    assert!(trash_commands(Platform::Other, false).is_empty());
}

#[test]
fn command_errors() {
    assert_eq!(trash_command_error("gio", "  boom \n", "fallback"), "gio failed: boom");
    assert_eq!(trash_command_error("gio", " \n\t", "fallback"), "fallback");
}

fn refused(v: Option<TrashVerdict>) -> (TrashErrorKind, String) {
    match v {
        Some(TrashVerdict::Refused(k, m)) => (k, m),
        _ => panic!("expected a refusal"),
    }
}

#[test]
fn linux_trash_outcomes() {
    let p = Platform::Linux;
    assert!(settle(p, false, &vec![]).is_none());
    assert!(matches!(settle(p, false, &vec![Attempt::Succeeded]), Some(TrashVerdict::Trashed)));
    assert!(settle(p, false, &vec![Attempt::Missing]).is_none());
    assert!(matches!(
        settle(p, false, &vec![Attempt::Missing, Attempt::Succeeded]),
        Some(TrashVerdict::Trashed)
    ));
    assert_eq!(
        refused(settle(p, false, &vec![Attempt::Missing, Attempt::Missing])),
        (
            TrashErrorKind::NotFound,
            "could not find gio or trash-put; install GLib or trash-cli to move items to Trash".to_owned()
        )
    );
    assert_eq!(
        refused(settle(p, false, &vec![Attempt::Failed("".into()), Attempt::Unlaunched("denied".into())])),
        (
            TrashErrorKind::Other,
            "could not move the item to Trash: gio could not move the item to Trash; trash-put failed: denied"
                .to_owned()
        )
    );
    assert_eq!(
        refused(settle(p, false, &vec![Attempt::Failed(" no trash \n".into()), Attempt::Missing])),
        (TrashErrorKind::Other, "could not move the item to Trash: gio failed: no trash".to_owned())
    );
}

#[test]
fn single_command_trash_outcomes() {
    assert!(settle(Platform::MacOs, true, &vec![]).is_none());
    assert!(matches!(settle(Platform::MacOs, true, &vec![Attempt::Succeeded]), Some(TrashVerdict::Trashed)));
    assert_eq!(
        refused(settle(Platform::MacOs, true, &vec![Attempt::Failed("".into())])),
        (TrashErrorKind::Other, "Finder could not move the item to Trash".to_owned())
    );
    assert_eq!(
        refused(settle(Platform::Windows, false, &vec![Attempt::Failed("Access denied".into())])),
        (TrashErrorKind::Other, "powershell failed: Access denied".to_owned())
    );
    assert_eq!(
        refused(settle(Platform::Windows, false, &vec![Attempt::Failed(String::new())])),
        (TrashErrorKind::Other, "PowerShell could not move the item to Recycle Bin".to_owned())
    );
    assert!(matches!(settle(Platform::MacOs, false, &vec![Attempt::Missing]), Some(TrashVerdict::LaunchError)));
    assert!(matches!(
        settle(Platform::Windows, false, &vec![Attempt::Unlaunched("x".into())]),
        Some(TrashVerdict::LaunchError)
    ));
    assert_eq!(
        refused(settle(Platform::Other, false, &vec![])),
        (TrashErrorKind::Unsupported, "moving items to Trash is not supported on this platform".to_owned())
    );
}
