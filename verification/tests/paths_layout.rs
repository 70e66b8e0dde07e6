use std::path::PathBuf;

use dsh_desktop::paths::AppPaths;

#[test]
fn current_pointer_is_in_the_state_directory() {
    let root = PathBuf::from("root");
    let paths = AppPaths {
        local_root: root.clone(),
        roaming_root: root.join("user"),
        launcher: root.join("launcher"),
        runtimes: root.join("runtimes"),
        cache: root.join("cache"),
        staging: root.join("staging"),
        state: root.join("state"),
        logs: root.join("logs"),
        dsh_home: root.join("user").join("home"),
    };
    assert_eq!(paths.current_pointer(), root.join("state").join("current.json"));
    assert_ne!(paths.current_pointer(), paths.state);
}
