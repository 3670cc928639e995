use sswm::hooks::{startup_command, startup_hook, SpawnOnStartupArg, Startup};

fn list(parts: &[&str]) -> Vec<String> {
    parts.iter().map(|p| p.to_string()).collect()
}

#[test]
fn startup_holds_its_path() {
    assert_eq!(Startup::new("/usr/bin/picom").path(), "/usr/bin/picom");
    assert_eq!(Startup::new(String::from("nm-applet")).path(), "nm-applet");
    assert_eq!(Startup::from_path("feh".to_string()).path(), "feh");
}

#[test]
fn startup_arg_runs_through_bash() {
    let hook = SpawnOnStartupArg::new("picom & nm-applet".to_string());
    assert_eq!(hook.prog(), "picom & nm-applet");
    assert_eq!(SpawnOnStartupArg::shell(), "bash");
    assert_eq!(hook.arguments(), list(&["-c", "picom & nm-applet"]));
}

#[test]
fn startup_programs_are_chained() {
    assert_eq!(startup_command(&list(&[])), "");
    assert_eq!(startup_command(&list(&["picom"])), "picom");
    assert_eq!(startup_command(&list(&["picom", "nm-applet"])), "picom && nm-applet");
    assert_eq!(startup_command(&list(&["a", "b", "c"])), "a && b && c");
    assert_eq!(startup_command(&list(&["a", "", "c"])), "a &&  && c");
}

#[test]
fn no_programs_no_hook() {
    assert_eq!(startup_hook(&list(&[])), None);
    assert_eq!(startup_hook(&list(&[""])), None);
    assert_eq!(
        startup_hook(&list(&["picom", "feh --bg-fill wall.png"])),
        Some(SpawnOnStartupArg::new("picom && feh --bg-fill wall.png".to_string()))
    );
    assert_eq!(startup_hook(&list(&["", ""])), Some(SpawnOnStartupArg::new(" && ".to_string())));
}
