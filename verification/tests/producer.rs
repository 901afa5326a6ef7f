use sbom_generator::analyze::producers::maven::maven_file::MavenFile;
use sbom_generator::analyze::producers::maven::maven_producer::MavenProducer;
use sbom_generator::analyze::producers::maven::parse::ParseError;
use sbom_generator::analyze::producers::producer::{SbomProducer, SbomProducerConfiguration};
use sbom_generator::model::configuration::Configuration;
use sbom_generator::model::dependency::DependencyType;
use sbom_generator::sbom::generate::{component_of, components_of};

const ROOT_POM: &str = r#"<?xml version="1.0" encoding="UTF-8"?>
<project xmlns="http://maven.apache.org/POM/4.0.0">
  <modelVersion>4.0.0</modelVersion>
  <groupId>org.acme</groupId>
  <artifactId>root</artifactId>
  <version>1.0.0</version>
  <properties>
    <wiremock.version>3.3.1</wiremock.version>
  </properties>
  <dependencies>
    <dependency>
      <groupId>org.wiremock</groupId>
      <artifactId>wiremock</artifactId>
      <version>${wiremock.version}</version>
      <scope>test</scope>
    </dependency>
  </dependencies>
</project>
"#;

const PARENT_POM: &str = r#"<project>
  <groupId>io.grp</groupId>
  <artifactId>parent</artifactId>
  <version>1.0</version>
  <properties>
    <v>2.0</v>
  </properties>
  <dependencyManagement>
    <dependencies>
      <dependency>
        <groupId>io.grp</groupId>
        <artifactId>art</artifactId>
        <version>${v}</version>
      </dependency>
    </dependencies>
  </dependencyManagement>
</project>
"#;

const CHILD_POM: &str = r#"<project>
  <parent>
    <groupId>io.grp</groupId>
    <artifactId>parent</artifactId>
    <version>1.0</version>
  </parent>
  <artifactId>child</artifactId>
  <dependencies>
    <dependency>
      <groupId>io.grp</groupId>
      <artifactId>art</artifactId>
    </dependency>
    <dependency>
      <groupId>io.grp</groupId>
      <artifactId>own</artifactId>
      <version>${project.version}</version>
    </dependency>
    <dependency>
      <groupId>io.grp</groupId>
      <artifactId>open</artifactId>
      <version>${nothing}</version>
    </dependency>
  </dependencies>
</project>
"#;

fn configuration(base: &str) -> SbomProducerConfiguration {
    SbomProducerConfiguration { use_debug: false, base_path: base.to_string() }
}

#[test]
fn use_file_takes_the_descriptor_whatever_its_case() {
    let producer = MavenProducer::default();
    let c = configuration("/repo");
    assert!(producer.use_file("/repo/pom.xml", &c));
    assert!(producer.use_file("/repo/sub/POM.XML", &c));
    assert!(producer.use_file("Pom.Xml", &c));
    assert!(producer.use_file("/repo/pom.xml/", &c));
    assert!(producer.use_file("/repo/POM.xml//", &c));
    assert!(producer.use_file("/repo/pom.xml/.", &c));
    assert!(producer.use_file("./pom.xml", &c));
    assert!(!producer.use_file("/repo/pom.xml/..", &c));
    assert!(!producer.use_file("/", &c));
    assert!(!producer.use_file(".", &c));
    for p in ["/a/POM.XML", "/a/pom.xml", "/a/pom.xml.bak", "/a/mypom.xml", "/", "/a/pom.xml/", "a/..", "pom.xml/x"].iter() {
        let expected = match std::path::Path::new(p).file_name() {
            Some(e) => e.eq_ignore_ascii_case("pom.xml"),
            None => false,
        };
        assert_eq!(producer.use_file(p, &c), expected, "{:?}", p);
    }
    assert!(!producer.use_file("/repo/pom.xml.bak", &c));
    assert!(!producer.use_file("/repo/mypom.xml", &c));
    assert!(!producer.use_file("/repo/pom.xml/other", &c));
    assert!(!producer.use_file("/repo/build.gradle", &c));
    assert!(!producer.use_file("", &c));
    assert!(!producer.use_file("/repo/p\u{f6}m.xml", &c));
}

#[test]
fn root_descriptor_with_a_property_gives_one_record() {
    let producer = MavenProducer {};
    let file = MavenFile::new("/repo/pom.xml", ROOT_POM).expect("maven file is parsed");
    let records = producer.find_dependencies(&vec![file], &configuration("/repo"));
    assert_eq!(records.len(), 1);
    assert_eq!(records[0].name, "org.wiremock:wiremock");
    assert_eq!(records[0].version.as_deref(), Some("3.3.1"));
    assert_eq!(records[0].kind, DependencyType::Library);
    assert_eq!(records[0].purl, "pkg:maven/org.wiremock:wiremock@3.3.1");
    let location = records[0].location.as_ref().expect("a location");
    assert_eq!(location.block.file, "/repo/pom.xml");
    assert_eq!((location.block.start.line, location.block.start.col), (11, 5));
    assert_eq!((location.block.end.line, location.block.end.col), (16, 18));
    assert_eq!((location.name.start.line, location.name.start.col), (13, 19));
    assert_eq!((location.name.end.line, location.name.end.col), (13, 27));
    let version = location.version.as_ref().expect("a location of the version");
    assert_eq!((version.start.line, version.start.col), (14, 16));
    assert_eq!((version.end.line, version.end.col), (14, 35));
}

#[test]
fn run_resolves_every_descriptor_against_all() {
    let producer = MavenProducer {};
    // the child comes first: it is resolved when the parent is registered too
    let child = MavenFile::new("/repo/child/pom.xml", CHILD_POM).unwrap();
    let parent = MavenFile::new("/repo/pom.xml", PARENT_POM).unwrap();
    let outside = MavenFile::new("/elsewhere/pom.xml", ROOT_POM).unwrap();
    let files = vec![child, outside, parent];
    let records = producer.find_dependencies(&files, &configuration("/repo"));
    let listed: Vec<(&str, Option<&str>)> =
        records.iter().map(|r| (r.name.as_str(), r.version.as_deref())).collect();
    assert_eq!(listed, vec![("io.grp:art", Some("2.0")), ("io.grp:own", Some("1.0"))]);
    for r in records.iter() {
        assert!(!r.name.contains("${"));
        assert!(!r.version.as_ref().unwrap().contains("${"));
    }
    let again = producer.find_dependencies(&files, &configuration("/repo"));
    assert_eq!(format!("{:?}", records), format!("{:?}", again));
    let context = MavenProducer::register(&files, "/repo");
    assert_eq!(context.len(), 2);
    assert_eq!(MavenProducer::find_in_registry(&context).len(), 2);
}

#[test]
fn descriptor_without_an_artifact_is_not_read() {
    let content = "<project>\n  <groupId>g</groupId>\n  <version>1</version>\n</project>\n";
    assert_eq!(MavenFile::new("/repo/pom.xml", content).unwrap_err(), ParseError::MissingIdentity);
    assert_eq!(MavenFile::new("/repo/pom.xml", "").unwrap_err(), ParseError::MissingIdentity);
    assert_eq!(
        MavenFile::new("/repo/pom.xml", "<other><artifactId>a</artifactId></other>").unwrap_err(),
        ParseError::MissingIdentity
    );
}

#[test]
fn components_carry_a_package_url() {
    let file = MavenFile::new("/repo/pom.xml", ROOT_POM).unwrap();
    let records = MavenProducer {}.find_dependencies(&vec![file], &configuration("/repo"));
    let components = components_of(&records);
    assert_eq!(components.len(), 1);
    assert_eq!(components[0].name, "org.wiremock:wiremock");
    assert_eq!(components[0].kind, "library");
    assert_eq!(components[0].version.as_deref(), Some("3.3.1"));
    assert_eq!(components[0].purl.as_deref(), Some("pkg:maven/org.wiremock:wiremock@3.3.1"));
    let mut bare = records[0].clone();
    bare.version = None;
    let component = component_of(&bare);
    assert!(component.version.is_none());
    assert!(component.purl.is_none());
}

#[test]
fn configuration_describes_itself() {
    let c = Configuration {
        directory: "/repo".to_string(),
        output: "out.json".to_string(),
        use_debug: true,
    };
    assert_eq!(c.description(), "(directory=/repo, output=out.json, debug=true)\n");
    assert_eq!(
        c.report(),
        "Configuration\n=============\nDirectory: /repo\nOutput:    out.json\nDebug:     true\n"
    );
    let c = Configuration { directory: String::new(), output: String::new(), use_debug: false };
    assert_eq!(c.description(), "(directory=, output=, debug=false)\n");
}

#[test]
fn descriptors_in_a_circle_are_named_and_passed_over() {
    let own = "<project>\n  <parent>\n    <groupId>g</groupId>\n    <artifactId>own</artifactId>\n    <version>1</version>\n  </parent>\n  <groupId>g</groupId>\n  <artifactId>own</artifactId>\n  <version>1</version>\n  <dependencies>\n    <dependency>\n      <groupId>g</groupId>\n      <artifactId>d</artifactId>\n      <version>1</version>\n    </dependency>\n  </dependencies>\n</project>\n";
    let circle = MavenFile::new("/repo/own/pom.xml", own).unwrap();
    let root = MavenFile::new("/repo/pom.xml", ROOT_POM).unwrap();
    let files = vec![circle, root];
    let context = MavenProducer::register(&files, "/repo");
    assert_eq!(MavenProducer::find_unresolved(&context), vec!["/repo/own/pom.xml".to_string()]);
    let records = MavenProducer {}.find_dependencies(&files, &configuration("/repo"));
    assert_eq!(records.len(), 1);
    assert_eq!(records[0].name, "org.wiremock:wiremock");
}
