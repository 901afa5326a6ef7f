use sbom_generator::analyze::producers::maven::context::MavenProducerContext;
use sbom_generator::analyze::producers::maven::maven_file::MavenFile;
use sbom_generator::analyze::producers::maven::model::{MavenDependencyScope, MavenDependencyType};

const BASE: &str = "/work/resources/maven";

const HIERARCHY_POM: &str = r#"<?xml version="1.0" encoding="UTF-8"?>
<project xmlns="http://maven.apache.org/POM/4.0.0"
         xmlns:xsi="http://www.w3.org/2001/XMLSchema-instance"
         xsi:schemaLocation="http://maven.apache.org/POM/4.0.0 http://maven.apache.org/xsd/maven-4.0.0.xsd">
    <modelVersion>4.0.0</modelVersion>

    <groupId>com.example.hierarchy</groupId>
    <artifactId>hierarchy-parent</artifactId>
    <version>1.0-SNAPSHOT</version>
    <packaging>pom</packaging>

    <modules>
        <module>subproject</module>
    </modules>

    <properties>
        <slf4j.version>2.0.13</slf4j.version>
        <akka.version>2.6.21</akka.version>
        <immutables.version>2.8.8</immutables.version>
        <akka-scala.version>${scala.version}</akka-scala.version>
        <scala.version>2.12</scala.version>
    </properties>

    <dependencyManagement>
        <dependencies>
            <dependency>
                <groupId>com.typesafe.akka</groupId>
                <artifactId>akka-actor_${akka-scala.version}</artifactId>
                <version>${akka.version}</version>
            </dependency>
            <dependency>
                <groupId>com.typesafe.akka</groupId>
                <artifactId>akka-slf4j_${akka-scala.version}</artifactId>
                <version>${akka.version}</version>
            </dependency>
            <dependency>
                <groupId>com.typesafe.akka</groupId>
                <artifactId>akka-stream_${akka-scala.version}</artifactId>
                <version>${akka.version}</version>
            </dependency>
            <dependency>
                <groupId>com.typesafe.akka</groupId>
                <artifactId>akka-testkit_${akka-scala.version}</artifactId>
                <version>${akka.version}</version>
                <scope>test</scope>
            </dependency>
            <dependency>
                <groupId>org.slf4j</groupId>
                <artifactId>slf4j-api</artifactId>
                <version>${slf4j.version}</version>
            </dependency>
            <dependency>
                <groupId>org.slf4j</groupId>
                <artifactId>slf4j-simple</artifactId>
                <version>${slf4j.version}</version>
            </dependency>
            <dependency>
                <groupId>org.immutables</groupId>
                <artifactId>value</artifactId>
                <version>${immutables.version}</version>
            </dependency>
            <dependency>
                <groupId>org.immutables</groupId>
                <artifactId>value-annotations</artifactId>
                <version>${immutables.version}</version>
            </dependency>
            <dependency>
                <groupId>com.google.code.findbugs</groupId>
                <artifactId>jsr305</artifactId>
                <version>3.0.2</version>
            </dependency>
            <dependency>
                <groupId>junit</groupId>
                <artifactId>junit</artifactId>
                <version>4.13.2</version>
                <scope>test</scope>
            </dependency>
            <dependency>
                <groupId>org.mockito</groupId>
                <artifactId>mockito-core</artifactId>
                <version>5.12.0</version>
                <scope>test</scope>
            </dependency>
        </dependencies>
    </dependencyManagement>

    <dependencies>
        <dependency>
            <groupId>com.google.code.findbugs</groupId>
            <artifactId>jsr305</artifactId>
        </dependency>
        <dependency>
            <groupId>org.immutables</groupId>
            <artifactId>value-annotations</artifactId>
            <scope>provided</scope>
        </dependency>
    </dependencies>
</project>
"#;

const SUBPROJECT_POM: &str = r#"<?xml version="1.0" encoding="UTF-8"?>
<project xmlns="http://maven.apache.org/POM/4.0.0">
    <modelVersion>4.0.0</modelVersion>

    <parent>
        <relativePath>../pom.xml</relativePath>
    </parent>

    <artifactId>subproject</artifactId>

    <dependencies>
        <dependency>
            <groupId>org.slf4j</groupId>
            <artifactId>slf4j-api</artifactId>
        </dependency>
        <dependency>
            <groupId>com.typesafe.akka</groupId>
            <artifactId>akka-actor_${akka-scala.version}</artifactId>
        </dependency>
    </dependencies>
</project>
"#;

const SIMPLE_POM: &str = r#"<?xml version="1.0" encoding="UTF-8"?>
<project xmlns="http://maven.apache.org/POM/4.0.0">
  <modelVersion>4.0.0</modelVersion>
  <groupId>com.example.simple</groupId>
  <artifactId>simple</artifactId>
  <version>1.2-SNAPSHOT</version>
  <packaging>jar</packaging>

  <properties>
    <project.build.sourceEncoding>UTF-8</project.build.sourceEncoding>
    <maven.compiler.source>1.8</maven.compiler.source>
    <maven.compiler.target>1.8</maven.compiler.target>
    <json.version>20090211</json.version>
    <junit.version>4.12</junit.version>
    <guava.version>31.1-jre</guava.version>
    <jackson.version>2.15.2</jackson.version>
    <log4j.version>2.20.0</log4j.version>
  </properties>

  <dependencies>
    <dependency>
      <groupId>org.json</groupId>
      <artifactId>json</artifactId>
      <version>${json.version}</version>
    </dependency>
    <dependency>
      <groupId>junit</groupId>
      <artifactId>junit</artifactId>
      <version>${junit.version}</version>
      <scope>test</scope>
    </dependency>
    <dependency>
      <groupId>com.google.guava</groupId>
      <artifactId>guava</artifactId>
      <version>${guava.version}</version>
    </dependency>
    <dependency>
      <groupId>com.fasterxml.jackson.core</groupId>
      <artifactId>jackson-core</artifactId>
      <version>${jackson.version}</version>
    </dependency>
    <dependency>
      <groupId>com.fasterxml.jackson.core</groupId>
      <artifactId>jackson-databind</artifactId>
      <version>${jackson.version}</version>
    </dependency>
    <dependency>
      <groupId>com.fasterxml.jackson.core</groupId>
      <artifactId>jackson-annotations</artifactId>
      <version>${jackson.version}</version>
    </dependency>
    <dependency>
      <groupId>org.apache.logging.log4j</groupId>
      <artifactId>log4j-api</artifactId>
      <version>${log4j.version}</version>
    </dependency>
    <dependency>
      <groupId>org.apache.logging.log4j</groupId>
      <artifactId>log4j-core</artifactId>
      <version>${log4j.version}</version>
    </dependency>
    <dependency>
      <groupId>commons-io</groupId>
      <artifactId>commons-io</artifactId>
      <version>2.11.0</version>
    </dependency>
    <dependency>
      <groupId>commons-codec</groupId>
      <artifactId>commons-codec</artifactId>
      <version>1.15</version>
    </dependency>
    <dependency>
      <groupId>org.apache.commons</groupId>
      <artifactId>commons-lang3</artifactId>
      <version>3.12.0</version>
    </dependency>
    <dependency>
      <groupId>org.apache.commons</groupId>
      <artifactId>commons-collections4</artifactId>
      <version>4.4</version>
    </dependency>
    <dependency>
      <groupId>org.apache.httpcomponents</groupId>
      <artifactId>httpclient</artifactId>
      <version>4.5.14</version>
    </dependency>
    <dependency>
      <groupId>org.yaml</groupId>
      <artifactId>snakeyaml</artifactId>
      <version>2.0</version>
    </dependency>
    <dependency>
      <groupId>org.mockito</groupId>
      <artifactId>mockito-core</artifactId>
      <version>4.11.0</version>
      <scope>test</scope>
    </dependency>
  </dependencies>
</project>
"#;

const IMPORT_POM: &str = r#"<?xml version="1.0" encoding="UTF-8"?>
<project xmlns="http://maven.apache.org/POM/4.0.0">
  <modelVersion>4.0.0</modelVersion>
  <groupId>org.acme</groupId>
  <artifactId>pom-import</artifactId>
  <version>1.0.0-SNAPSHOT</version>

  <properties>
    <compiler-plugin.version>3.13.0</compiler-plugin.version>
    <maven.compiler.release>17</maven.compiler.release>
    <project.build.sourceEncoding>UTF-8</project.build.sourceEncoding>
    <project.reporting.outputEncoding>UTF-8</project.reporting.outputEncoding>
    <quarkus.platform.artifact-id>quarkus-bom</quarkus.platform.artifact-id>
    <quarkus.platform.group-id>io.quarkus.platform</quarkus.platform.group-id>
    <quarkus.platform.version>3.14.1</quarkus.platform.version>
    <skipITs>true</skipITs>
    <surefire-plugin.version>3.3.1</surefire-plugin.version>
    <wiremock.version>3.3.1</wiremock.version>
  </properties>

  <dependencyManagement>
    <dependencies>
      <dependency>
        <groupId>${quarkus.platform.group-id}</groupId>
        <artifactId>${quarkus.platform.artifact-id}</artifactId>
        <version>${quarkus.platform.version}</version>
        <type>pom</type>
        <scope>import</scope>
      </dependency>
    </dependencies>
  </dependencyManagement>

  <dependencies>
    <dependency>
      <groupId>io.quarkus</groupId>
      <artifactId>quarkus-arc</artifactId>
    </dependency>
    <dependency>
      <groupId>io.quarkus</groupId>
      <artifactId>quarkus-rest</artifactId>
    </dependency>
    <dependency>
      <groupId>io.quarkus</groupId>
      <artifactId>quarkus-rest-jackson</artifactId>
    </dependency>
    <dependency>
      <groupId>io.quarkus</groupId>
      <artifactId>quarkus-rest-client-jackson</artifactId>
    </dependency>
    <dependency>
      <groupId>io.quarkus</groupId>
      <artifactId>quarkus-junit5</artifactId>
      <scope>test</scope>
    </dependency>
    <dependency>
      <groupId>io.rest-assured</groupId>
      <artifactId>rest-assured</artifactId>
      <scope>test</scope>
    </dependency>
    <dependency>
      <groupId>org.wiremock</groupId>
      <artifactId>wiremock</artifactId>
      <version>${wiremock.version}</version>
      <scope>test</scope>
    </dependency>
  </dependencies>
</project>
"#;

#[test]
fn test_parse_properties() {
    let base = format!("{}/hierarchy", BASE);
    let mut context = MavenProducerContext::new(base.clone());
    let path = format!("{}/pom.xml", base);
    let maven_file = MavenFile::new(&path, HIERARCHY_POM).expect("maven file is parsed");

    assert_eq!(maven_file.properties.len(), 6);
    assert_eq!(
        maven_file.properties.get("project.version").unwrap(),
        "1.0-SNAPSHOT"
    );
    assert_eq!(
        maven_file.properties.get("slf4j.version").unwrap(),
        "2.0.13"
    );
    assert_eq!(maven_file.properties.get("akka.version").unwrap(), "2.6.21");
    assert_eq!(
        maven_file.properties.get("immutables.version").unwrap(),
        "2.8.8"
    );
    assert_eq!(
        maven_file.properties.get("akka-scala.version").unwrap(),
        "${scala.version}"
    );
    assert_eq!(maven_file.properties.get("scala.version").unwrap(), "2.12");

    assert!(context.accepts(&maven_file.path));
    context.add_maven_file(&maven_file);

    // ensure that we can get the same properties from the sub-directory.
    let sub_path = format!("{}/subproject/pom.xml", base);
    let subfile = MavenFile::new(&sub_path, SUBPROJECT_POM).expect("maven file is parsed");
    assert_eq!(
        subfile.parent_target().unwrap(),
        format!("{}/subproject/../pom.xml", base)
    );
    let subfile = subfile.with_parent_at(&path, &base);

    let sub_properties = subfile.get_all_properties(&context).unwrap();
    assert_eq!(sub_properties.len(), 6);
    assert_eq!(
        sub_properties.get("project.version").unwrap(),
        "1.0-SNAPSHOT"
    );
    assert_eq!(sub_properties.get("slf4j.version").unwrap(), "2.0.13");
    assert_eq!(sub_properties.get("akka.version").unwrap(), "2.6.21");
    assert_eq!(sub_properties.get("immutables.version").unwrap(), "2.8.8");
    assert_eq!(sub_properties.get("akka-scala.version").unwrap(), "2.12");
    assert_eq!(sub_properties.get("scala.version").unwrap(), "2.12");
}

#[test]
fn test_parse_simple_pom() {
    let path = format!("{}/simple/pom.xml", BASE);
    let maven_file = MavenFile::new(&path, SIMPLE_POM).expect("maven file is parsed");

    assert_eq!(maven_file.dependencies.len(), 15);
    assert_eq!(maven_file.properties.len(), 9);
    assert_eq!(
        maven_file
            .properties
            .get("project.build.sourceEncoding")
            .unwrap(),
        "UTF-8"
    );
    assert_eq!(
        maven_file.properties.get("json.version").unwrap(),
        "20090211"
    );
    assert_eq!(
        maven_file.properties.get("project.version").unwrap(),
        "1.2-SNAPSHOT"
    );
}

#[test]
fn test_parse_pom_with_dependency() {
    let path = format!("{}/pom-import/pom.xml", BASE);
    let maven_file = MavenFile::new(&path, IMPORT_POM).expect("maven file is parsed");

    assert_eq!(maven_file.dependencies.len(), 7);
    assert_eq!(maven_file.properties.len(), 11);
    assert_eq!(maven_file.dependencies[0].group_id, "io.quarkus");
    assert_eq!(maven_file.dependencies[0].artifact_id, "quarkus-arc");
    assert!(maven_file.dependencies[0].kind.is_none());
    assert!(maven_file.dependencies[0].scope.is_none());
    assert!(maven_file.dependencies[0].version.is_none());

    assert_eq!(maven_file.dependencies[1].group_id, "io.quarkus");
    assert_eq!(maven_file.dependencies[1].artifact_id, "quarkus-rest");
    assert!(maven_file.dependencies[1].kind.is_none());
    assert!(maven_file.dependencies[1].scope.is_none());
    assert!(maven_file.dependencies[1].version.is_none());

    assert_eq!(maven_file.dependencies[2].group_id, "io.quarkus");
    assert_eq!(
        maven_file.dependencies[2].artifact_id,
        "quarkus-rest-jackson"
    );
    assert!(maven_file.dependencies[2].kind.is_none());
    assert!(maven_file.dependencies[2].scope.is_none());
    assert!(maven_file.dependencies[2].version.is_none());

    assert_eq!(maven_file.dependencies[3].group_id, "io.quarkus");
    assert_eq!(
        maven_file.dependencies[3].artifact_id,
        "quarkus-rest-client-jackson"
    );
    assert!(maven_file.dependencies[3].kind.is_none());
    assert!(maven_file.dependencies[3].scope.is_none());
    assert!(maven_file.dependencies[3].version.is_none());

    assert_eq!(maven_file.dependencies[4].group_id, "io.quarkus");
    assert_eq!(maven_file.dependencies[4].artifact_id, "quarkus-junit5");
    assert!(maven_file.dependencies[4].kind.is_none());
    assert_eq!(
        maven_file.dependencies[4].scope.clone().unwrap(),
        MavenDependencyScope::Test
    );
    assert!(maven_file.dependencies[4].version.is_none());

    assert_eq!(maven_file.dependencies[5].group_id, "io.rest-assured");
    assert_eq!(maven_file.dependencies[5].artifact_id, "rest-assured");
    assert!(maven_file.dependencies[5].kind.is_none());
    assert_eq!(
        maven_file.dependencies[5].scope.clone().unwrap(),
        MavenDependencyScope::Test
    );
    assert!(maven_file.dependencies[5].version.is_none());

    assert_eq!(maven_file.dependencies[6].group_id, "org.wiremock");
    assert_eq!(maven_file.dependencies[6].artifact_id, "wiremock");
    assert!(maven_file.dependencies[6].kind.is_none());
    assert_eq!(
        maven_file.dependencies[6].scope.clone().unwrap(),
        MavenDependencyScope::Test
    );
    assert_eq!(
        maven_file.dependencies[6].version.clone().unwrap(),
        "${wiremock.version}"
    );

    assert_eq!(maven_file.dependency_management.len(), 1);
    assert_eq!(
        maven_file.dependency_management[0].artifact_id,
        "${quarkus.platform.artifact-id}"
    );
    assert_eq!(
        maven_file.dependency_management[0].scope.clone().unwrap(),
        MavenDependencyScope::Import
    );
    assert_eq!(
        maven_file.dependency_management[0].group_id,
        "${quarkus.platform.group-id}"
    );
    assert_eq!(
        maven_file.dependency_management[0]
            .clone()
            .version
            .unwrap()
            .as_str(),
        "${quarkus.platform.version}"
    );
    assert_eq!(
        maven_file.dependency_management[0].clone().kind.unwrap(),
        MavenDependencyType::Pom
    );
}

#[test]
fn test_parse_pom_with_dependency_management() {
    let path = format!("{}/hierarchy/pom.xml", BASE);
    let maven_file = MavenFile::new(&path, HIERARCHY_POM).expect("maven file is parsed");

    assert_eq!(maven_file.dependencies.len(), 2);
    assert_eq!(maven_file.dependency_management.len(), 11);
    assert_eq!(maven_file.properties.len(), 6);

    assert_eq!(
        maven_file.dependencies[0].group_id,
        "com.google.code.findbugs"
    );
    assert_eq!(maven_file.dependencies[0].artifact_id, "jsr305");
    assert!(maven_file.dependencies[0].kind.is_none());
    assert!(maven_file.dependencies[0].scope.is_none());
    assert!(maven_file.dependencies[0].version.is_none());

    assert_eq!(maven_file.dependencies[1].group_id, "org.immutables");
    assert_eq!(maven_file.dependencies[1].artifact_id, "value-annotations");
    assert!(maven_file.dependencies[1].kind.is_none());
    assert_eq!(
        maven_file.dependencies[1].clone().scope.unwrap(),
        MavenDependencyScope::Provided
    );
    assert!(maven_file.dependencies[1].version.is_none());

    assert_eq!(
        maven_file.dependency_management[0].group_id,
        "com.typesafe.akka"
    );
    assert_eq!(
        maven_file.dependency_management[0].artifact_id,
        "akka-actor_${akka-scala.version}"
    );
    assert!(maven_file.dependency_management[0].kind.is_none());
    assert!(maven_file.dependency_management[0].scope.is_none());
    assert_eq!(
        maven_file.dependency_management[0]
            .version
            .clone()
            .unwrap()
            .as_str(),
        "${akka.version}"
    );

    assert_eq!(
        maven_file.dependency_management[1].group_id,
        "com.typesafe.akka"
    );
    assert_eq!(
        maven_file.dependency_management[1].artifact_id,
        "akka-slf4j_${akka-scala.version}"
    );
    assert!(maven_file.dependency_management[1].kind.is_none());
    assert!(maven_file.dependency_management[1].scope.is_none());
    assert_eq!(
        maven_file.dependency_management[1]
            .version
            .clone()
            .unwrap()
            .as_str(),
        "${akka.version}"
    );
}
