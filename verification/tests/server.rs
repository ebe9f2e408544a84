use mcplug::server::discovery::pick_server;
use mcplug::server::detect::{build_from_filename, detect_platform, PlatformKind};
use mcplug::server::java::parse_java_version_output;
use mcplug::server::start_command::StartCommand;
use mcplug::util::McVersion;

#[test]
fn brand_detection() {
    let names = vec!["META-INF/versions/26.2/purpur-26.2.jar".to_string()];
    assert_eq!(detect_platform("io.papermc.paperclip.Main", "", &names, "server.jar"), PlatformKind::Purpur);
    assert_eq!(detect_platform("io.papermc.paperclip.Main", "abc\t26.2/paper-26.2.jar\t26.2", &[], "x.jar"), PlatformKind::Paper);
    assert_eq!(detect_platform("com.velocitypowered.proxy.Velocity", "", &[], "velocity.jar"), PlatformKind::Velocity);
    assert_eq!(detect_platform("org.bukkit.craftbukkit.Main", "", &[], "spigot.jar"), PlatformKind::Spigot);
    assert_eq!(detect_platform("net.minecraft.bundler.Main", "", &[], "server.jar"), PlatformKind::Vanilla);
}

#[test]
fn build_numbers() {
    assert_eq!(build_from_filename("paper-26.2-123.jar"), Some(123));
    assert_eq!(build_from_filename("purpur-1.21.11-2450.jar"), Some(2450));
    assert_eq!(build_from_filename("paper-1.21.1-37.jar"), Some(37));
    assert_eq!(build_from_filename("server.jar"), None);
    assert_eq!(build_from_filename("pufferfish-paperclip-1.21.8-R0.1-SNAPSHOT-mojmap.jar"), None);
}

#[test]
fn parses_versions() {
    let p = parse_java_version_output;
    assert_eq!(p("openjdk version \"21.0.11\" 2026-04-21 LTS\nOpenJDK Runtime"), Some(21));
    assert_eq!(p("openjdk version \"25.0.4\" 2026-07-21"), Some(25));
    assert_eq!(p("java version \"1.8.0_392\""), Some(8));
    assert_eq!(p("nonsense"), None);
}

#[test]
fn finds_java_and_jar() {
    let c = StartCommand::parse(
        "/usr/lib/jvm/java-25-openjdk-amd64/bin/java -Xms4096M -Xmx4096M -XX:+UseG1GC -jar paper-26.2-123.jar nogui",
    );
    assert_eq!(c.java(), Some("/usr/lib/jvm/java-25-openjdk-amd64/bin/java"));
    assert_eq!(c.jar(), Some("paper-26.2-123.jar"));
    assert!(c.with_jar("paper-26.2-130.jar").contains("-jar paper-26.2-130.jar nogui"));
}

#[test]
fn handles_quotes() {
    let c = StartCommand::parse(r#"java -jar "my server.jar" --nogui"#);
    assert_eq!(c.jar(), Some("my server.jar"));
    assert_eq!(c.with_jar("x y.jar"), r#"java -jar "x y.jar" --nogui"#);
    assert_eq!(StartCommand::parse("bash start.sh").jar(), None);
}

#[test]
fn with_java_quotes_paths_with_spaces() {
    let c = StartCommand::parse("java -jar server.jar");
    assert_eq!(c.with_java("/opt/my jdk/bin/java"), r#""/opt/my jdk/bin/java" -jar server.jar"#);
    assert_eq!(StartCommand::parse("").java(), None);
}

#[test]
fn split_then_join_round_trips() {
    let tokens = vec!["java".to_string(), "-jar".to_string(), "a \"b\" c.jar".to_string(), "".to_string()];
    let c = StartCommand { tokens: tokens.clone() };
    let line = c.with_java("java");
    assert_eq!(StartCommand::parse(&line).tokens, tokens);
    assert_eq!(StartCommand::parse(r#"a\ b 'c d' "e\"f""#).tokens, vec!["a b", "c d", "e\"f"]);
}

#[test]
fn minecraft_versions() {
    let v = McVersion::parse("26.2").unwrap();
    assert_eq!(v.to_string(), "26.2");
    assert!(v.is_release());
    let p = McVersion::parse("1.21.5-pre1").unwrap();
    assert_eq!(p.patch, Some(5));
    assert_eq!(p.to_string(), "1.21.5-pre1");
    assert!(!p.is_release());
    assert!(McVersion::parse("26.3").unwrap().newer_than(&v));
    assert!(McVersion::parse("26.2.1").unwrap().same_line(&v));
    assert!(p.older_than(&McVersion::parse("1.21.5").unwrap()));
    assert_eq!(McVersion::parse("25w14a"), None);
    assert_eq!(McVersion::parse("1.21-"), None);
    assert_eq!(McVersion::parse("+1.21"), None);
}

fn manual(id: &str, name: &str) -> mcplug::server::discovery::Server {
    let m = mcplug::config::model::ManualServer {
        id: id.to_string(),
        name: name.to_string(),
        path: format!("/srv/{id}"),
        start_command: None,
        ping_port: None,
        control: mcplug::config::model::ControlConfig::Absent,
        backup_slug: None,
    };
    mcplug::server::discovery::manual_server(&m, mcplug::server::discovery::JarProbe::NotFound, mcplug::server::perms::Access::Missing)
}

#[test]
fn picking_a_server_by_query() {
    let servers = vec![manual("survival", "Survival"), manual("creative", "Creative World"), manual("survival-2", "Survival Two")];
    assert_eq!(pick_server(&servers, "creative world"), Ok(1));
    assert_eq!(pick_server(&servers, "creat"), Ok(1));
    assert_eq!(pick_server(&servers, "survival"), Ok(0));
    assert_eq!(pick_server(&servers, "SURV"), Err("\"SURV\" matches several servers: survival, survival-2".to_string()));
    assert_eq!(pick_server(&servers, "lobby"), Err("no server matches \"lobby\" (see `mcplug servers`)".to_string()));
}

#[test]
fn rewritten_commands_parse_back() {
    let c = StartCommand::parse("java -Xmx4G -jar \"my server.jar\" nogui");
    let again = StartCommand::parse(&c.with_jar("paper 2.jar"));
    assert_eq!(again.tokens, vec!["java", "-Xmx4G", "-jar", "paper 2.jar", "nogui"]);
    assert_eq!(again.jar(), Some("paper 2.jar"));
    let j = StartCommand::parse(&c.with_java("/opt/jdk 25/bin/java"));
    assert_eq!(j.tokens, vec!["/opt/jdk 25/bin/java", "-Xmx4G", "-jar", "my server.jar", "nogui"]);
    assert_eq!(mcplug::server::start_command::shell_split("a  b\tc"), vec!["a", "b", "c"]);
}
