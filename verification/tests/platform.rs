use mcplug::platform::bukkit::{descriptor_from_text, Bukkit};
use mcplug::platform::{DescriptorCompat, PluginDescriptor};
use mcplug::server::detect::PlatformKind;
use mcplug::util::McVersion;

#[test]
fn lenient_yaml() {
    let d = descriptor_from_text(
        "name: Vault\nversion: 1.7.3\napi-version: 1.13\nauthor: Sleaker\ndepend: WorldEdit\nsoftdepend: [LuckPerms, Essentials]\n",
    )
    .unwrap();
    assert_eq!(d.name, "Vault");
    assert_eq!(d.version.as_deref(), Some("1.7.3"));
    assert_eq!(d.api_version.as_deref(), Some("1.13"));
    assert_eq!(d.authors, vec!["Sleaker"]);
    assert_eq!(d.depend, vec!["WorldEdit"]);
    assert_eq!(d.softdepend, vec!["LuckPerms", "Essentials"]);
    let b = Bukkit { kind: PlatformKind::Paper };
    assert_eq!(b.descriptor_compat(&d, &McVersion::parse("26.2").unwrap()), DescriptorCompat::Supported);
    let newer = PluginDescriptor { api_version: Some("26.3".into()), ..d };
    assert_eq!(b.descriptor_compat(&newer, &McVersion::parse("26.2").unwrap()), DescriptorCompat::TooNew);
}

#[test]
fn descriptor_needs_a_name() {
    assert!(descriptor_from_text("version: 1.0\n").is_none());
    assert!(descriptor_from_text("- a\n- b\n").is_none());
}

#[test]
fn descriptor_without_api_version_is_unknown() {
    let d = descriptor_from_text("name: X\n").unwrap();
    let b = Bukkit { kind: PlatformKind::Paper };
    assert_eq!(b.descriptor_compat(&d, &McVersion::parse("1.21.4").unwrap()), DescriptorCompat::Unknown);
}
