use ppm::globset::GlobSet;
use ppm::watch::Watch;

fn glob_set(patterns: &[&str]) -> GlobSet {
    let mut set = GlobSet::new();
    for p in patterns {
        set.add(p).expect("pattern should compile");
    }
    set
}

#[test]
fn exclusion() {
    let mut watch = Watch::default();
    assert!(
        watch.is_excluded(".hidden"),
        "files starting with `.` should be excluded"
    );
    assert!(!watch.is_excluded("visible"));
    assert!(
        watch.is_excluded("/some/path/build-x86"),
        "dirs starting with `build` should be excluded"
    );

    watch.exclude = Some(glob_set(&["*.k"]));
    watch.included = Some(glob_set(&["toto.k"]));
    assert!(watch.is_excluded("toto1.k"));
    assert!(!watch.is_excluded("toto.k"));
}

/// The built-in exclusions: dotfiles, `build*`/`target*` anywhere, and
/// object files; plain names pass.
#[test]
fn default_excludes() {
    let watch = Watch::default();
    assert!(watch.is_excluded("x.o"));
    assert!(watch.is_excluded("target-debug"));
    assert!(watch.is_excluded("a/b/target-debug"));
    assert!(!watch.is_excluded("main.c"));
    assert!(!watch.is_excluded("src"));
}

/// An explicit inclusion always wins, even over the built-in exclusions.
#[test]
fn include_wins() {
    let mut watch = Watch::default();
    watch.included = Some(glob_set(&[".keepme", "*.o"]));
    assert!(!watch.is_excluded(".keepme"));
    assert!(!watch.is_excluded("x.o"));
    assert!(watch.is_excluded(".other"));
}

#[test]
fn glob_sets() {
    let set = glob_set(&["*.c", "**/test"]);
    assert_eq!(2, set.len());
    assert!(set.is_match("test.c"));
    assert!(!set.is_match("test.h"));

    let mut set = GlobSet::new();
    assert!(set.add("[invalid").is_err());
    assert_eq!(0, set.len());
}

#[test]
fn watch_paths() {
    let mut watch = Watch::new();
    assert_eq!(4, watch.max_depth);
    watch.add("/tmp/x");
    watch.add("/tmp/y");
    assert_eq!(2, watch.paths.len());
    assert_eq!("/tmp/x", watch.paths[0].as_str());
    assert_eq!("/tmp/y", watch.paths[1].as_str());
}
