use project::path::{
    components, file_name, is_absolute, join, parent, relativize_path, render_components,
    resolve_components, resolve_path, same_path, strip_prefix, PathComponent,
};
use project::path_order::{place_paths, Placement};
use std::path::{Component, Path, PathBuf};

const SAMPLES: [&str; 22] = [
    "", "/", ".", "..", "a", "a/b", "a//b", "a/./b", "./a", "./../a", "/a", "/a/", "//a/b", "/./a",
    "../a", "a/..", "a/../b", "/..", "a/b/c.txt", "./.", "a/.", "\u{e9}/\u{3042}",
];

fn std_names(path: &Path) -> Vec<String> {
    path.components()
        .map(|c| match c {
            Component::Prefix(_) => unreachable!(),
            Component::RootDir => "/".to_string(),
            Component::CurDir => ".".to_string(),
            Component::ParentDir => "..".to_string(),
            Component::Normal(name) => name.to_str().unwrap().to_string(),
        })
        .collect()
}

fn names(list: &[PathComponent]) -> Vec<String> {
    list.iter()
        .map(|c| match c {
            PathComponent::RootDir => "/".to_string(),
            PathComponent::CurDir => ".".to_string(),
            PathComponent::ParentDir => "..".to_string(),
            PathComponent::Normal(name) => name.clone(),
        })
        .collect()
}

#[test]
fn components_are_those_of_std() {
    for text in SAMPLES {
        assert_eq!(names(&components(text)), std_names(Path::new(text)), "{}", text);
    }
}

#[test]
fn equality_is_that_of_std() {
    for a in SAMPLES {
        for b in SAMPLES {
            assert_eq!(same_path(a, b), Path::new(a) == Path::new(b), "{} {}", a, b);
        }
    }
}

#[test]
fn prefixes_are_those_of_std() {
    for a in SAMPLES {
        for b in SAMPLES {
            let want = Path::new(a).strip_prefix(b).ok().map(PathBuf::from);
            let got = strip_prefix(a, b).map(PathBuf::from);
            assert_eq!(got, want, "{} {}", a, b);
        }
    }
}

#[test]
fn names_parents_and_joins_are_those_of_std() {
    for a in SAMPLES {
        let list = components(a);
        assert_eq!(is_absolute(a), Path::new(a).is_absolute());
        assert_eq!(
            file_name(a),
            Path::new(a).file_name().map(|n| n.to_str().unwrap().to_string())
        );
        assert_eq!(
            parent(&list).map(|p| PathBuf::from(render_components(&p))),
            Path::new(a).parent().map(PathBuf::from),
            "{}",
            a
        );
        for b in SAMPLES {
            let joined = render_components(&join(&list, &components(b)));
            assert_eq!(PathBuf::from(joined), Path::new(a).join(b), "{} {}", a, b);
        }
    }
}

#[test]
fn rendering_reads_back() {
    for text in SAMPLES {
        let list = components(text);
        assert_eq!(PathBuf::from(render_components(&list)), PathBuf::from(text));
    }
}

#[test]
fn order_is_that_of_std() {
    for a in SAMPLES {
        for b in SAMPLES {
            let want = match Path::new(a).cmp(Path::new(b)) {
                std::cmp::Ordering::Less => Placement::Before,
                std::cmp::Ordering::Equal => Placement::Same,
                std::cmp::Ordering::Greater => Placement::After,
            };
            assert_eq!(place_paths(a, b), want, "{} {}", a, b);
        }
    }
}

// The way from a base to a path, written with the iterators of std.
fn relativize_with_std(base: &Path, path: &Path) -> PathBuf {
    let mut path_components = path.components();
    let mut base_components = base.components();
    let mut out: Vec<Component> = Vec::new();
    loop {
        match (path_components.next(), base_components.next()) {
            (None, None) => break,
            (Some(a), None) => {
                out.push(a);
                out.extend(path_components.by_ref());
                break;
            }
            (None, _) => out.push(Component::ParentDir),
            (Some(a), Some(b)) if out.is_empty() && a == b => (),
            (Some(a), Some(Component::CurDir)) => out.push(a),
            (Some(a), Some(_)) => {
                out.push(Component::ParentDir);
                for _ in base_components {
                    out.push(Component::ParentDir);
                }
                out.push(a);
                out.extend(path_components.by_ref());
                break;
            }
        }
    }
    out.iter().map(|c| c.as_os_str()).collect()
}

fn resolve_with_std(base: &Path, path: &Path) -> PathBuf {
    let mut result = base.to_path_buf();
    for component in path.components() {
        match component {
            Component::ParentDir => {
                result.pop();
            }
            Component::CurDir => (),
            _ => result.push(component),
        }
    }
    result
}

#[test]
fn relative_paths_agree_with_std_iterators() {
    for base in SAMPLES {
        for path in SAMPLES {
            assert_eq!(
                PathBuf::from(relativize_path(base, path)),
                relativize_with_std(Path::new(base), Path::new(path)),
                "{} {}",
                base,
                path
            );
        }
    }
}

#[test]
fn resolved_paths_agree_with_std_iterators() {
    for base in SAMPLES {
        for path in SAMPLES {
            assert_eq!(
                PathBuf::from(resolve_path(base, path)),
                resolve_with_std(Path::new(base), Path::new(path)),
                "{} {}",
                base,
                path
            );
        }
    }
}

#[test]
fn relativize_examples() {
    assert_eq!(relativize_path("/a/b", "/a/b/c/d"), "c/d");
    assert_eq!(relativize_path("/a/b/c", "/a/x"), "../../x");
    assert_eq!(relativize_path("/a/b", "/a"), "..");
    assert_eq!(relativize_path("/a", "/a"), "");
}

#[test]
fn resolving_undoes_relativizing() {
    for (base, path) in [("/a/b/c", "/a/x/y"), ("/a", "/a/b"), ("a/b", "c"), ("/a/b", "/")] {
        let way = relativize_path(base, path);
        assert!(same_path(&resolve_path(base, &way), path));
    }
}

#[test]
fn resolving_in_two_steps() {
    for base in SAMPLES {
        for a in SAMPLES {
            for b in SAMPLES {
                let (base, a, b) = (components(base), components(a), components(b));
                let at_once = resolve_components(&base, &join(&a, &b));
                let in_two = resolve_components(&resolve_components(&base, &a), &b);
                assert_eq!(names(&at_once), names(&in_two));
            }
        }
    }
}

#[test]
fn no_relative_path_is_shorter() {
    for base in SAMPLES {
        for way in SAMPLES {
            if is_absolute(way) {
                continue;
            }
            let path = resolve_path(base, way);
            let relative = relativize_path(base, &path);
            assert!(components(&relative).len() <= components(way).len(), "{} {}", base, way);
        }
    }
}
