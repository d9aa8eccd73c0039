use ci::depend::{order_chosen, order_needed, Node};
use ci::error::{message, usage, CiError};
use ci::maps::StringMap;
use ci::paths::{
    components, extension, file_name, file_stem, is_absolute, join_path, less_path, lexical_components, parent, path_relative_to,
    relative_path_between,
};
use ci::repo::{locate_git_dir, GitAnswers};
use ci::strings::{contains, decimal, join, less_text, lines, pad_right, split_char, split_once, to_lower, trim, words};
use std::path::{Component, Path};

const PATHS: &[&str] = &[
    "", "/", ".", "..", "a", "a/", "./a", "a/.", "a//b", "/a/b", "//a", "a/../b", "/..", "../x", "a/./b/", ".hidden", "a.tar.gz",
    "dir.d/file", "x.", "/a/.b.c", "é/ü.txt", "./.", "a/..",
];

fn strings(items: &[&str]) -> Vec<String> {
    items.iter().map(|item| item.to_string()).collect()
}

fn shown(component: Component) -> String {
    component.as_os_str().to_str().expect("text").to_string()
}

#[test]
fn paths_are_those_of_the_standard_library() {
    for path in PATHS {
        let std_path = Path::new(path);
        assert_eq!(components(path), std_path.components().map(shown).collect::<Vec<_>>(), "{:?}", path);
        assert_eq!(is_absolute(path), std_path.is_absolute(), "{:?}", path);
        let name = std_path.file_name().map(|n| n.to_str().expect("text").to_string());
        assert_eq!(file_name(path), name, "{:?}", path);
        let up = std_path.parent().map(|p| p.to_str().expect("text").to_string());
        assert_eq!(parent(path), up, "{:?}", path);
        if let Some(name) = name {
            let std_name = Path::new(&name);
            assert_eq!(file_stem(&name), std_name.file_stem().expect("stem").to_str().expect("text"), "{:?}", path);
            assert_eq!(extension(&name), std_name.extension().map(|e| e.to_str().expect("text")).unwrap_or(""), "{:?}", path);
        }
        for other in PATHS {
            assert_eq!(join_path(path, other), std_path.join(other).to_str().expect("text"), "{:?} {:?}", path, other);
            assert_eq!(less_path(path, other), std_path < Path::new(other), "{:?} {:?}", path, other);
        }
    }
}

#[test]
fn relative_ways_lead_there() {
    assert_eq!(relative_path_between("/r/bin", "/r/ci.x64").as_deref(), Some("../ci.x64"));
    assert_eq!(relative_path_between("/r/dist", "/r/dist/ci").as_deref(), Some("ci"));
    assert_eq!(lexical_components("/a/./b/../c"), strings(&["/", "a", "c"]));
    assert_eq!(path_relative_to("/r", "sub"), "/r/sub");
    assert_eq!(path_relative_to("/r", "/abs"), "/abs");
}

#[test]
fn texts_are_those_of_the_standard_library() {
    for text in ["", " ", "a", " a\tb ", "\u{3000}x\u{a0}", "one\ntwo\r\n\nthree", "\n", "a\n", "A É ß", "x,y,,z,"] {
        assert_eq!(trim(text), text.trim(), "{:?}", text);
        assert_eq!(words(text), text.split_whitespace().map(|w| w.to_string()).collect::<Vec<_>>(), "{:?}", text);
        assert_eq!(lines(text), text.lines().map(|l| l.to_string()).collect::<Vec<_>>(), "{:?}", text);
        assert_eq!(split_char(text, ','), text.split(',').map(|p| p.to_string()).collect::<Vec<_>>(), "{:?}", text);
        assert_eq!(to_lower(text), text.to_ascii_lowercase(), "{:?}", text);
        assert_eq!(split_once(text, ','), text.split_once(','), "{:?}", text);
        for other in ["", "a", "two", "x,", "zz"] {
            assert_eq!(contains(text, other), text.contains(other), "{:?} {:?}", text, other);
            assert_eq!(less_text(text, other), text < other, "{:?} {:?}", text, other);
        }
    }
    for number in [0u64, 9, 10, 12345, u64::MAX] {
        assert_eq!(decimal(number), number.to_string());
    }
    assert_eq!(pad_right("ab", 4), "ab  ");
    assert_eq!(pad_right("abcde", 4), "abcde");
    assert_eq!(join(&strings(&["a", "b", "c"]), ", "), "a, b, c");
}

#[test]
fn maps_keep_their_names_in_order() {
    let mut map = StringMap::new();
    assert!(map.is_empty());
    for name in ["b", "a", "c", "b"] {
        map.insert(name.to_string(), format!("{}!", name));
    }
    assert_eq!(map.len(), 3);
    assert_eq!((0..map.len()).map(|i| map.name_at(i)).collect::<Vec<_>>(), vec!["a", "b", "c"]);
    assert_eq!(map.value_at(1), "b!");
    assert!(map.contains_key("c") && !map.contains_key("d"));
    let mut other = StringMap::new();
    other.insert("b".to_string(), "new".to_string());
    other.insert("d".to_string(), "d".to_string());
    map.overlay(&other);
    assert_eq!(map.get("b").map(String::as_str), Some("new"));
    assert_eq!(map.len(), 4);
}

fn node(id: &str, needs: &[&str]) -> Node {
    Node { id: id.to_string(), needs: strings(needs) }
}

#[test]
fn needs_come_first() {
    let nodes = [node("d", &["b", "c"]), node("b", &["a"]), node("c", &["a"]), node("a", &[])];
    assert_eq!(order_needed(&nodes, "job", &strings(&["d"])).expect("order"), vec![3, 1, 2, 0]);
    assert_eq!(order_chosen(&nodes, "job", &[2, 0]).expect("order"), vec![3, 2, 1, 0]);
    assert_eq!(order_needed(&nodes, "job", &strings(&["x"])).expect_err("unknown").to_text(), "unknown job dependency `x`");
    let own = [node("a", &["a"])];
    assert_eq!(order_needed(&own, "job", &strings(&["a"])).expect_err("cycle").to_text(), "cyclic job dependency involving `a`");
    assert!(order_chosen(&own, "job", &[0]).is_err());
}

#[test]
fn errors_have_codes() {
    assert_eq!(message("m".to_string()).exit_code(), 3);
    assert_eq!(usage("u".to_string()).exit_code(), 2);
    assert_eq!(CiError::NotFound("n".to_string()).exit_code(), 127);
    assert_eq!(CiError::NotExecutable("x".to_string()).exit_code(), 126);
    assert_eq!(usage("u".to_string()).to_text(), "u");
}

#[test]
fn git_says_where_the_repository_is() {
    let answers = GitAnswers { git_dir: ".git\n".to_string(), is_bare: "false\n".to_string() };
    assert_eq!(locate_git_dir("/r", &answers), ("/r/.git".to_string(), false));
    let bare = GitAnswers { git_dir: "/srv/x.git\n".to_string(), is_bare: "true\n".to_string() };
    assert_eq!(locate_git_dir("/r", &bare), ("/srv/x.git".to_string(), true));
}

#[test]
fn relative_paths_lead_to_their_goal() {
    let places = ["/", "/t", "/t/bin", "/t/ci.x64", "/t/a/../b/./c", "", ".", "a", "a/b", "./a//b/", "a/../c", "b/c/d"];
    for from in places {
        for to in places {
            match relative_path_between(from, to) {
                None => assert_ne!(is_absolute(from), is_absolute(to)),
                Some(way) => {
                    assert_eq!(is_absolute(from), is_absolute(to));
                    assert_eq!(lexical_components(&join_path(from, &way)), lexical_components(to), "{} {}", from, to);
                    assert_eq!(way == ".", lexical_components(from) == lexical_components(to));
                }
            }
        }
    }
    assert_eq!(relative_path_between("/t/bin", "/t/ci.x64").as_deref(), Some("../ci.x64"));
}

#[test]
fn orders_are_refused_only_for_a_reason() {
    let chain = [node("a", &[]), node("b", &["a"]), node("c", &["a", "b"])];
    assert_eq!(order_needed(&chain, "job", &strings(&["a", "b", "c"])).expect("order"), vec![0, 1, 2]);
    assert_eq!(order_chosen(&chain, "job", &[0, 1, 2]).expect("order"), vec![0, 1, 2]);
    let ring = [node("a", &["b"]), node("b", &["c"]), node("c", &["a"]), node("d", &[]), node("e", &["nope"])];
    assert_eq!(
        order_needed(&ring, "job", &strings(&["a"])).expect_err("cycle").to_text(),
        "cyclic job dependency involving `a`"
    );
    assert_eq!(order_needed(&ring, "job", &strings(&["d"])).expect("order"), vec![3]);
    assert_eq!(order_needed(&ring, "job", &strings(&["e"])).expect_err("unknown").to_text(), "unknown job dependency `nope`");
    assert!(order_chosen(&ring, "job", &[3, 1]).is_err());
}
