use sbom_generator::analyze::producers::maven::maven_file::get_parent_key;
use sbom_generator::utils::file_utils::is_in_git_directory;
use sbom_generator::utils::path::{
    directory, file_name, normal, path_parts, relative, resolve, text_of_parts,
};
use sbom_generator::utils::text::{ends_with, from_chars, join, same_text, to_chars};
use std::path::{Path, PathBuf};

const PATHS: [&str; 36] = [
    "",
    "/",
    "//",
    ".",
    "..",
    "./",
    "a",
    "/a",
    "a/",
    "/a/",
    "a//b",
    "/a/./b",
    "./a",
    "./a/.",
    "a/.",
    "a/./",
    "a/..",
    "a/../b",
    "/.",
    "/..",
    "//a",
    "/a/pom.xml",
    "/a/pom.xml/",
    "/a/pom.xml//",
    "/a/pom.xml/.",
    "/a/pom.xml/./",
    "/a/POM.XML",
    "/b",
    "/b/",
    "/b//x",
    "/b/x/pom.xml",
    "/b/./x//pom.xml",
    "/b/.git/config",
    "/b/.github/x",
    "b/x",
    ".../x",
];

fn chars(s: &str) -> Vec<char> {
    s.chars().collect()
}

#[test]
fn text_goes_to_characters_and_back() {
    assert_eq!(to_chars("h\u{e9}!"), vec!['h', '\u{e9}', '!']);
    assert_eq!(from_chars(&vec!['h', '\u{e9}', '!']), "h\u{e9}!");
    assert_eq!(from_chars(&Vec::new()), "");
    assert_eq!(join("ab", "cd"), "abcd");
    assert!(same_text("ab", "ab"));
    assert!(!same_text("ab", "aB"));
    assert!(!same_text("ab", "abc"));
    assert!(same_text("", ""));
}

#[test]
fn ends_with_looks_at_the_end() {
    assert!(ends_with(&chars("a/pom.xml"), &chars("pom.xml")));
    assert!(ends_with(&chars("pom.xml"), &chars("")));
    assert!(!ends_with(&chars("xml"), &chars("pom.xml")));
    assert!(!ends_with(&chars("a/pom.xmk"), &chars("pom.xml")));
}

#[test]
fn parts_are_the_root_and_the_components() {
    let texts = |p: &str| -> Vec<String> {
        path_parts(p).iter().map(|c| c.iter().collect()).collect()
    };
    assert_eq!(texts("/repo//sub/./pom.xml/"), vec!["/", "repo", "sub", "pom.xml"]);
    assert_eq!(texts("./a/./.."), vec![".", "a", ".."]);
    assert_eq!(texts("/./a"), vec!["/", "a"]);
    assert!(texts("").is_empty());
    assert_eq!(texts("///"), vec!["/"]);
    let parts = path_parts("/repo/sub/pom.xml");
    assert_eq!(text_of_parts(&parts, 0), "/repo/sub/pom.xml");
    assert_eq!(text_of_parts(&parts, 1), "repo/sub/pom.xml");
    assert_eq!(text_of_parts(&parts, 3), "pom.xml");
    assert_eq!(text_of_parts(&parts, 4), "");
}

#[test]
fn normal_form_reads_as_the_path_does() {
    assert_eq!(normal("/repo//sub/./pom.xml/"), "/repo/sub/pom.xml");
    assert_eq!(normal("./a//b"), "./a/b");
    assert_eq!(normal("a/../b"), "a/../b");
    assert_eq!(normal("///"), "/");
    assert_eq!(normal(""), "");
    for p in PATHS.iter() {
        let n = normal(p);
        assert_eq!(Path::new(&n), Path::new(p), "{:?}", p);
        assert_eq!(normal(&n), n, "{:?}", p);
    }
}

#[test]
fn file_name_is_the_last_component() {
    assert_eq!(file_name("/repo/sub/pom.xml").unwrap(), "pom.xml");
    assert_eq!(file_name("pom.xml").unwrap(), "pom.xml");
    assert_eq!(file_name("/repo/sub/").unwrap(), "sub");
    assert_eq!(file_name("/a/pom.xml/").unwrap(), "pom.xml");
    assert_eq!(file_name("/a/pom.xml/.").unwrap(), "pom.xml");
    assert!(file_name("/a/..").is_none());
    assert!(file_name("/").is_none());
    assert!(file_name(".").is_none());
    assert!(file_name("").is_none());
    for p in PATHS.iter() {
        let expected = Path::new(p).file_name().map(|n| n.to_str().unwrap().to_string());
        assert_eq!(file_name(p), expected, "{:?}", p);
    }
}

#[test]
fn relative_strips_the_parts_of_the_base() {
    assert_eq!(relative("/repo/sub/pom.xml", "/repo").unwrap(), "sub/pom.xml");
    assert_eq!(relative("/repo/sub/pom.xml", "/repo/").unwrap(), "sub/pom.xml");
    assert_eq!(relative("/repo//pom.xml", "/repo").unwrap(), "pom.xml");
    assert_eq!(relative("/b/x/pom.xml", "/b//x").unwrap(), "pom.xml");
    assert_eq!(relative("/b/./x//sub/pom.xml", "/b/x/.").unwrap(), "sub/pom.xml");
    assert_eq!(relative("/repo", "/repo").unwrap(), "");
    assert_eq!(relative("sub/pom.xml", "").unwrap(), "sub/pom.xml");
    assert_eq!(relative("/sub/pom.xml", "").unwrap(), "/sub/pom.xml");
    assert!(relative("/repository/pom.xml", "/repo").is_none());
    assert!(relative("/other/pom.xml", "/repo").is_none());
    assert!(relative("/rep", "/repo").is_none());
    assert!(relative("repo/pom.xml", "/repo").is_none());
    assert!(relative("/repo/pom.xml", "repo").is_none());
    for p in PATHS.iter() {
        for b in PATHS.iter() {
            let expected = Path::new(p).strip_prefix(Path::new(b)).ok();
            let found = relative(p, b);
            assert_eq!(found.is_some(), expected.is_some(), "{:?} from {:?}", p, b);
            if let (Some(found), Some(expected)) = (found, expected) {
                assert_eq!(Path::new(&found), expected, "{:?} from {:?}", p, b);
                assert_eq!(normal(&found), found);
            }
        }
    }
}

#[test]
fn directory_is_the_path_without_its_last_component() {
    assert_eq!(directory("/repo/sub/pom.xml"), "/repo/sub");
    assert_eq!(directory("/repo/sub//pom.xml/"), "/repo/sub");
    assert_eq!(directory("pom.xml"), "");
    assert_eq!(directory("/pom.xml"), "/");
    assert_eq!(directory("a/.."), "a");
    assert_eq!(directory("/"), "/");
    assert_eq!(directory(""), "");
    for p in PATHS.iter() {
        if let Some(expected) = Path::new(p).parent() {
            assert_eq!(Path::new(&directory(p)), expected, "{:?}", p);
        }
    }
}

#[test]
fn resolve_follows_the_directory() {
    assert_eq!(resolve("/repo/sub/", "../pom.xml"), "/repo/sub/../pom.xml");
    assert_eq!(resolve("/repo/sub", "../pom.xml"), "/repo/sub/../pom.xml");
    assert_eq!(resolve("", "pom.xml"), "pom.xml");
    assert_eq!(resolve("/", "pom.xml"), "/pom.xml");
    assert_eq!(resolve("/repo/sub/", "/abs/pom.xml"), "/abs/pom.xml");
    assert_eq!(resolve("a", ""), "a/");
    for p in PATHS.iter() {
        for r in ["../pom.xml", "..", "parent", "/abs/pom.xml", "./x", ""].iter() {
            if let Some(parent) = Path::new(p).parent() {
                let mut expected: PathBuf = parent.to_path_buf();
                expected.push(r);
                let found = resolve(&directory(p), r);
                assert_eq!(Path::new(&found), expected.as_path(), "{:?} and {:?}", p, r);
            }
        }
    }
}

#[test]
fn parent_key_names_the_descriptor_in_a_directory() {
    assert_eq!(get_parent_key("../pom.xml", "/repo/pom.xml", "/repo").unwrap(), "pom.xml");
    assert_eq!(get_parent_key("..", "/repo", "/repo").unwrap(), "pom.xml");
    assert_eq!(get_parent_key("..", "/repo", "/repo/").unwrap(), "pom.xml");
    assert_eq!(get_parent_key("../parent", "/repo/parent", "/repo").unwrap(), "parent/pom.xml");
    assert_eq!(
        get_parent_key("../parent/", "/repo/parent/", "/repo").unwrap(),
        "parent/pom.xml"
    );
    assert_eq!(
        get_parent_key("../other/parent-pom.xml", "/repo/other/parent-pom.xml", "/repo").unwrap(),
        "other/parent-pom.xml"
    );
    assert!(get_parent_key("../../pom.xml", "/elsewhere/pom.xml", "/repo").is_none());
}

#[test]
fn git_directory_is_left_out() {
    assert!(is_in_git_directory("/repo/.git/config", "/repo"));
    assert!(is_in_git_directory("/repo/.git", "/repo"));
    assert!(is_in_git_directory("/b/.git/config", "/b/"));
    assert!(is_in_git_directory("/b//.git/./config", "/b/."));
    assert!(!is_in_git_directory("/repo/.github/pom.xml", "/repo"));
    assert!(!is_in_git_directory("/repo/sub/.git/config", "/repo"));
    assert!(!is_in_git_directory("/repo/pom.xml", "/repo"));
    for p in PATHS.iter() {
        for d in PATHS.iter() {
            if d.is_empty() {
                continue;
            }
            let expected = Path::new(p).starts_with(format!("{}/.git", d));
            assert_eq!(is_in_git_directory(p, d), expected, "{:?} under {:?}", p, d);
        }
    }
}
