use sbom_generator::analyze::producers::maven::maven_file::{
    enrich_string_with_properties, MavenDependency,
};
use sbom_generator::analyze::producers::maven::model::{MavenDependencyScope, MavenDependencyType};
use sbom_generator::analyze::producers::maven::placeholder::{contains_marker, split_placeholder};
use sbom_generator::analyze::producers::maven::properties::{
    replace_properties, single_reference_of, Properties,
};
use sbom_generator::model::dependency::{Dependency, DependencyType};
use std::str::FromStr;

fn properties(pairs: &[(&str, &str)]) -> Properties {
    let mut p = Properties::new();
    for (k, v) in pairs {
        p.insert(k.to_string(), v.to_string());
    }
    p
}

fn dependency(group: &str, artifact: &str, version: Option<&str>) -> MavenDependency {
    let mut d = MavenDependency::new(group.to_string(), artifact.to_string());
    d.version = version.map(|v| v.to_string());
    d
}

#[test]
fn split_finds_the_first_placeholder() {
    let m = split_placeholder("akka-actor_${akka-scala.version}-x").unwrap();
    assert_eq!(m.before, "akka-actor_");
    assert_eq!(m.name, "akka-scala.version");
    assert_eq!(m.after, "-x");
}

#[test]
fn split_takes_the_name_as_long_as_it_can_be() {
    let m = split_placeholder("${a}-${b}").unwrap();
    assert_eq!(m.before, "");
    assert_eq!(m.name, "a}-${b");
    assert_eq!(m.after, "");
}

#[test]
fn split_needs_a_name_and_no_line_feed() {
    assert!(split_placeholder("plain").is_none());
    assert!(split_placeholder("${}").is_none());
    assert!(split_placeholder("${a\n}").is_none());
    assert!(split_placeholder("$ {a}").is_none());
    let m = split_placeholder("${a\n} ${b}").unwrap();
    assert_eq!(m.before, "${a\n} ");
    assert_eq!(m.name, "b");
}

#[test]
fn split_counts_characters_of_more_than_one_byte() {
    let m = split_placeholder("h\u{e9}llo ${n\u{e4}me} w\u{f6}rld").unwrap();
    assert_eq!(m.before, "h\u{e9}llo ");
    assert_eq!(m.name, "n\u{e4}me");
    assert_eq!(m.after, " w\u{f6}rld");
}

#[test]
fn enrich_string_replaces_the_first_placeholder() {
    let p = properties(&[("akka-scala.version", "2.12")]);
    assert_eq!(
        enrich_string_with_properties("akka-actor_${akka-scala.version}", &p),
        "akka-actor_2.12"
    );
    assert_eq!(enrich_string_with_properties("${akka-scala.version}", &p), "2.12");
}

#[test]
fn enrich_string_leaves_what_it_cannot_resolve() {
    let p = properties(&[("a", "1"), ("b", "2")]);
    assert_eq!(enrich_string_with_properties("${c}", &p), "${c}");
    assert_eq!(enrich_string_with_properties("${a}-${b}", &p), "${a}-${b}");
    assert_eq!(enrich_string_with_properties("plain", &p), "plain");
    assert_eq!(enrich_string_with_properties("", &p), "");
}

#[test]
fn enrich_resolves_group_artifact_and_version() {
    let p = properties(&[("g", "io.grp"), ("a", "art"), ("v", "2.0")]);
    let mut d = dependency("${g}", "x-${a}", Some("${v}"));
    d.scope = Some(MavenDependencyScope::Test);
    d.kind = Some(MavenDependencyType::Pom);
    let e = d.enrich(&p);
    assert_eq!(e.group_id, "io.grp");
    assert_eq!(e.artifact_id, "x-art");
    assert_eq!(e.version.unwrap(), "2.0");
    assert_eq!(e.scope, Some(MavenDependencyScope::Test));
    assert_eq!(e.kind, Some(MavenDependencyType::Pom));
    assert!(e.location.is_none());
}

#[test]
fn enrich_keeps_a_concrete_version() {
    let p = properties(&[("v", "2.0"), ("1.0", "9.9")]);
    let d = dependency("g", "a", Some("1.0"));
    assert_eq!(d.enrich(&p).version.unwrap(), "1.0");
    let d = dependency("g", "a", Some("$1.0{x}"));
    assert_eq!(d.enrich(&p).version.unwrap(), "$1.0{x}");
}

#[test]
fn enrich_leaves_an_absent_version_absent() {
    let p = properties(&[("v", "2.0")]);
    assert!(dependency("g", "a", None).enrich(&p).version.is_none());
}

#[test]
fn contains_marker_looks_for_dollar_and_brace() {
    assert!(contains_marker("${"));
    assert!(contains_marker("a${b"));
    assert!(contains_marker("ab${"));
    assert!(!contains_marker(""));
    assert!(!contains_marker("$"));
    assert!(!contains_marker("$ {"));
    assert!(!contains_marker("{$"));
    assert!(!contains_marker("price$"));
}

#[test]
fn valid_for_sbom_needs_a_version_and_no_marker() {
    assert!(dependency("g", "a", Some("1.0")).is_valid_for_sbom());
    assert!(!dependency("g", "a", None).is_valid_for_sbom());
    assert!(!dependency("${g}", "a", Some("1.0")).is_valid_for_sbom());
    assert!(!dependency("g", "x-${a}", Some("1.0")).is_valid_for_sbom());
    assert!(!dependency("g", "a", Some("${v}")).is_valid_for_sbom());
    assert!(!dependency("g", "a", Some("1.${")).is_valid_for_sbom());
}

#[test]
fn valid_for_sbom_takes_a_lone_dollar() {
    assert!(dependency("g$", "{a}", Some("1.0")).is_valid_for_sbom());
    assert!(dependency("g", "a", Some("$1")).is_valid_for_sbom());
}

#[test]
fn record_names_group_and_artifact() {
    let mut d = dependency("org.wiremock", "wiremock", Some("3.3.1"));
    d.scope = Some(MavenDependencyScope::Test);
    let r = d.to_dependency();
    assert_eq!(r.name, "org.wiremock:wiremock");
    assert_eq!(r.version.unwrap(), "3.3.1");
    assert_eq!(r.purl, "pkg:maven/org.wiremock:wiremock@3.3.1");
    assert_eq!(r.kind, DependencyType::Library);
    assert!(r.location.is_none());
    let r = Dependency::from(&d);
    assert_eq!(r.name, "org.wiremock:wiremock");
    let r: Dependency = (&dependency("", "", None)).into();
    assert_eq!(r.name, ":");
    assert!(r.version.is_none());
    assert_eq!(r.purl, "pkg:maven/:");
    let r = dependency("g", "a", None).to_dependency();
    assert_eq!(r.purl, "pkg:maven/g:a");
}

#[test]
fn single_reference_is_a_whole_placeholder() {
    assert_eq!(single_reference_of("${scala.version}").unwrap(), "scala.version");
    assert_eq!(single_reference_of("${a}-${b}").unwrap(), "a}-${b");
    assert!(single_reference_of("x${a}").is_none());
    assert!(single_reference_of("${a}x").is_none());
    assert!(single_reference_of("${}").is_none());
    assert!(single_reference_of("plain").is_none());
    assert!(single_reference_of("").is_none());
}

#[test]
fn replace_properties_is_one_pass() {
    let p = properties(&[("a", "${b}"), ("b", "${c}"), ("c", "1")]);
    let r = replace_properties(p);
    assert_eq!(r.len(), 3);
    assert_eq!(r.get("a").unwrap(), "${c}");
    assert_eq!(r.get("b").unwrap(), "1");
    assert_eq!(r.get("c").unwrap(), "1");
}

#[test]
fn replace_properties_leaves_what_is_no_whole_reference() {
    let p = properties(&[
        ("akka-scala.version", "${scala.version}"),
        ("scala.version", "2.12"),
        ("unbound", "${nothing}"),
        ("part", "v-${scala.version}"),
        ("self", "${self}"),
    ]);
    let r = p.substituted();
    assert_eq!(r.len(), 5);
    assert_eq!(r.get("akka-scala.version").unwrap(), "2.12");
    assert_eq!(r.get("scala.version").unwrap(), "2.12");
    assert_eq!(r.get("unbound").unwrap(), "${nothing}");
    assert_eq!(r.get("part").unwrap(), "v-${scala.version}");
    assert_eq!(r.get("self").unwrap(), "${self}");
    // the bindings that were passed over are as they were
    assert_eq!(p.get("akka-scala.version").unwrap(), "${scala.version}");
}

#[test]
fn scope_and_type_are_read_whatever_the_case() {
    assert_eq!(MavenDependencyScope::from_str("import"), Ok(MavenDependencyScope::Import));
    assert_eq!(MavenDependencyScope::from_str("TEST"), Ok(MavenDependencyScope::Test));
    assert_eq!(MavenDependencyScope::from_str("Provided"), Ok(MavenDependencyScope::Provided));
    assert_eq!(MavenDependencyScope::from_str("compile"), Err(()));
    assert_eq!(MavenDependencyScope::from_str(""), Err(()));
    assert_eq!(MavenDependencyType::from_str("POM"), Ok(MavenDependencyType::Pom));
    assert_eq!(MavenDependencyType::from_str("pom"), Ok(MavenDependencyType::Pom));
    assert_eq!(MavenDependencyType::from_str("jar"), Err(()));
    assert_eq!(MavenDependencyScope::parse("tEsT"), Some(MavenDependencyScope::Test));
    assert_eq!(MavenDependencyScope::from_lowercase("TEST"), None);
    assert_eq!(MavenDependencyType::parse("war"), None);
    assert_eq!(MavenDependencyType::from_lowercase("POM"), None);
}
