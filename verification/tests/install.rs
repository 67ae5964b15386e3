use muxy_app::install::{installation_message, link_targets, unchanged, Destination, LinkCheck};
use muxy_app::paths::{bundled_target, path_parts, path_string, update_bundle, PathPart};

#[test]
fn temporary_translocated_retired_and_unbundled_paths_are_rejected() {
    for path in [
        "/tmp/Test.app",
        "/Volumes/Test.app",
        "/private/var/folders/Test.app",
        "/Applications/.muxy-beta-update-123/previous.app",
        "/Applications/AppTranslocation/Test.app",
    ] {
        assert!(bundled_target(&format!("{path}/Contents/MacOS/muxy-app")).is_err());
    }
    assert!(bundled_target("/bin/muxy-app").is_err());
    assert_eq!(
        bundled_target("/Applications/Muxy Beta.app/Contents/MacOS/muxy-app").expect("installed"),
        "/Applications/Muxy Beta.app/Contents/MacOS/muxy"
    );
}

#[test]
fn the_two_refusals_tell_where_the_app_must_be() {
    assert_eq!(
        bundled_target("/bin/muxy-app"),
        Err("Install and open Muxy Beta.app before installing its command line tool.".to_string())
    );
    assert_eq!(
        bundled_target("/Applications/Muxy Beta.app/Contents/MacOS/other"),
        Err("Move Muxy Beta.app to Applications and reopen it before installing its command line tool.".to_string())
    );
    assert!(bundled_target("/Applications/.app/Contents/MacOS/muxy-app").is_err());
    assert!(bundled_target("/private/tmp/A.app/Contents/MacOS/muxy-app").is_err());
    assert_eq!(
        bundled_target("/Applications//Muxy.app/./Contents/MacOS/muxy-app"),
        Ok("/Applications/Muxy.app/Contents/MacOS/muxy".to_string())
    );
}

#[test]
fn paths_read_as_components() {
    assert_eq!(
        path_parts("./a//b/../c/"),
        vec![
            PathPart::Current,
            PathPart::Normal("a".into()),
            PathPart::Normal("b".into()),
            PathPart::Parent,
            PathPart::Normal("c".into()),
        ]
    );
    assert_eq!(path_parts("/"), vec![PathPart::Root]);
    assert_eq!(path_parts(""), Vec::<PathPart>::new());
    assert_eq!(path_string(&path_parts("/usr//bin/./env")), "/usr/bin/env");
}

#[test]
fn updates_need_a_settled_bundle() {
    assert_eq!(
        update_bundle("/Applications/Muxy Beta.app/Contents/MacOS/muxy-app"),
        Ok("/Applications/Muxy Beta.app".to_string())
    );
    assert_eq!(
        update_bundle("/Volumes/Muxy/Muxy Beta.app/Contents/MacOS/muxy-app"),
        Err("Move Muxy Beta.app to Applications and reopen it before updating".to_string())
    );
    assert_eq!(
        update_bundle("/usr/local/bin/muxy-app"),
        Err("Automatic updates require an installed Muxy Beta.app".to_string())
    );
}

#[test]
fn managed_links_are_replaced_and_unrelated_paths_refused() {
    let managed = vec![b"/old/muxy".to_vec()];
    assert_eq!(
        link_targets("/app/muxy", "/home/u/.local/bin/muxy", &Destination::Missing, &managed),
        Ok(vec![b"/app/muxy".to_vec()])
    );
    assert_eq!(
        link_targets(
            "/app/muxy",
            "/home/u/.local/bin/muxy",
            &Destination::Link("/old/muxy".into()),
            &managed
        ),
        Ok(vec![b"/app/muxy".to_vec(), b"/old/muxy".to_vec()])
    );
    assert_eq!(
        link_targets(
            "/app/muxy",
            "/home/u/.local/bin/muxy",
            &Destination::Link("/app//muxy".into()),
            &Vec::new()
        ),
        Ok(vec![b"/app/muxy".to_vec(), b"/app//muxy".to_vec()])
    );
    assert_eq!(
        link_targets(
            "/app/muxy",
            "/bin/muxy",
            &Destination::Link("/usr/bin/false".into()),
            &managed
        ),
        Err("/bin/muxy is an unrelated link; move it before installing Muxy.".to_string())
    );
    assert_eq!(
        link_targets("/app/muxy", "/bin/muxy", &Destination::Other, &managed),
        Err("/bin/muxy already exists; move it before installing Muxy.".to_string())
    );
}

#[test]
fn a_destination_that_changed_stops_the_installation() {
    assert!(unchanged(None, LinkCheck::Missing));
    assert!(unchanged(Some((1, 2)), LinkCheck::Present { device: 1, inode: 2 }));
    assert!(!unchanged(Some((1, 2)), LinkCheck::Present { device: 1, inode: 3 }));
    assert!(!unchanged(None, LinkCheck::Present { device: 1, inode: 2 }));
    assert!(!unchanged(Some((1, 2)), LinkCheck::Missing));
    assert!(!unchanged(None, LinkCheck::Failed));
}

#[test]
fn the_report_tells_how_to_run_the_tool() {
    let (title, message) = installation_message(Ok("/home/u/.local/bin/muxy".into()), true);
    assert_eq!(title, "Command Line Tool Installed");
    assert_eq!(
        message,
        "Installed /home/u/.local/bin/muxy.\n\nRun muxy --help in your terminal."
    );
    let (_, message) = installation_message(Ok("/x/muxy".into()), false);
    assert!(message.ends_with("export PATH=\"$HOME/.local/bin:$PATH\""));
    assert_eq!(
        installation_message(Err("denied".into()), true),
        ("Could Not Install Command Line Tool", "denied".to_string())
    );
}
