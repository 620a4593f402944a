use std::path::Path;

use rustquit::paths::{
    join, name_has_extension, path_components, path_file_stem, path_starts_with,
};

const PATHS: [&str; 22] = [
    "", "/", "//", ".", "..", "./a", "a/.", "a/..", "/a/b", "/a//b/", "/a/./b", "a", ".hidden",
    "a.app", "/x/a.app/", "a.b.c", "..x", "a.", "/a/b/c.txt", "/a/bc", "./.", "/..",
];

#[test]
fn components_agree_with_std() {
    for path in PATHS {
        let ours: Vec<String> =
            path_components(path).into_iter().map(|part| part.into_iter().collect()).collect();
        let std: Vec<String> = Path::new(path)
            .components()
            .map(|part| part.as_os_str().to_str().unwrap().to_string())
            .collect();
        assert_eq!(ours, std, "{path:?}");
    }
}

#[test]
fn prefixes_agree_with_std() {
    for path in PATHS {
        for base in PATHS {
            assert_eq!(
                path_starts_with(path, base),
                Path::new(path).starts_with(base),
                "{path:?} {base:?}"
            );
        }
    }
}

#[test]
fn file_stems_agree_with_std() {
    for path in PATHS {
        let std = Path::new(path).file_stem().map(|stem| stem.to_str().unwrap().to_string());
        assert_eq!(path_file_stem(path), std, "{path:?}");
    }
}

#[test]
fn extensions_agree_with_std() {
    for name in ["a.app", ".app", "app", "a.b.app", "a.app.b", "a.", "..app", "a.App"] {
        let std = Path::new(name).extension().is_some_and(|extension| extension == "app");
        assert_eq!(name_has_extension(name, "app"), std, "{name:?}");
    }
}

#[test]
fn joining_agrees_with_std() {
    for base in ["", "/", "a", "a/", "/a/b"] {
        for rest in ["c", "c/d", "/e", ""] {
            let std = Path::new(base).join(rest);
            assert_eq!(join(base, rest), std.to_str().unwrap(), "{base:?} {rest:?}");
        }
    }
}
