use sbom_generator::analyze::producers::maven::import::get_url;

#[test]
fn test_get_url() {
    assert_eq!(get_url("io.quarkus.platform", "quarkus-bom", "3.14.1"), "https://repo1.maven.org/maven2/io/quarkus/platform/quarkus-bom/3.14.1/quarkus-bom-3.14.1.pom");
}
