use io_events::root::{select_root, Probe, RootError, MARKER_DIR, MAX_ROOT_HOPS};

fn walk(dirs: &[(&str, bool)]) -> Vec<Probe> {
    dirs.iter().map(|(d, m)| Probe { dir: d.to_string(), has_marker: *m }).collect()
}

#[test]
fn marker_three_levels_up_is_found() {
    let probes = walk(&[
        ("/g/GarrysMod/bin/linux64/x", false),
        ("/g/GarrysMod/bin/linux64", false),
        ("/g/GarrysMod/bin", false),
        ("/g/GarrysMod", true),
        ("/g", false),
    ]);
    assert_eq!(select_root(&probes), Ok("/g/GarrysMod".to_string()));
}

#[test]
fn marker_in_start_directory_is_found() {
    let probes = walk(&[("/srv/gmod", true), ("/srv", true)]);
    assert_eq!(select_root(&probes), Ok("/srv/gmod".to_string()));
}

#[test]
fn no_marker_within_bound_is_not_found() {
    let probes = walk(&[("/a/b/c/d/e/f", false), ("/a/b/c/d/e", false), ("/a/b/c/d", false), ("/a/b/c", false), ("/a/b", false)]);
    assert_eq!(select_root(&probes), Err(RootError::NotFound));
}

#[test]
fn marker_beyond_bound_is_not_found() {
    let probes = walk(&[
        ("/a/b/c/d/e/f", false),
        ("/a/b/c/d/e", false),
        ("/a/b/c/d", false),
        ("/a/b/c", false),
        ("/a/b", false),
        ("/a", true),
    ]);
    assert_eq!(select_root(&probes), Err(RootError::NotFound));
}

#[test]
fn reaching_filesystem_root_first_is_not_found() {
    assert_eq!(select_root(&walk(&[("/x", false), ("/", false)])), Err(RootError::NotFound));
    assert_eq!(select_root(&Vec::new()), Err(RootError::NotFound));
}

#[test]
fn root_constants_and_message() {
    assert_eq!(MAX_ROOT_HOPS, 5);
    assert_eq!(MARKER_DIR, "garrysmod");
    assert_eq!(RootError::NotFound.message(), "Garry's Mod root directory not found");
}
