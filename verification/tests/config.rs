use mcplug::config::paths::{config_dir, state_dir, sudo_user_home, DirInputs};
use mcplug::config::secrets::Secrets;

fn inputs() -> DirInputs {
    DirInputs { env_dir: None, is_root: false, etc_config_exists: false, sudo_home: None, platform_dir: Some("/home/a/.config".to_string()) }
}

#[test]
fn config_dir_order() {
    assert_eq!(config_dir(&inputs()), "/home/a/.config/mcplug");
    let mut i = inputs();
    i.sudo_home = Some("/home/b".to_string());
    assert_eq!(config_dir(&i), "/home/b/.config/mcplug");
    i.is_root = true;
    i.etc_config_exists = true;
    assert_eq!(config_dir(&i), "/etc/mcplug");
    i.env_dir = Some("/opt/cfg".to_string());
    assert_eq!(config_dir(&i), "/opt/cfg");
    let mut j = inputs();
    j.platform_dir = None;
    assert_eq!(config_dir(&j), "./mcplug");
}

#[test]
fn state_dir_order() {
    assert_eq!(state_dir(&None, false, &Some("/home/a/.local/state".to_string())), "/home/a/.local/state/mcplug");
    assert_eq!(state_dir(&None, true, &None), "/var/lib/mcplug");
    assert_eq!(state_dir(&Some("/x".to_string()), true, &None), "/x");
}

#[test]
fn sudo_home_from_passwd() {
    let passwd = "root:x:0:0:root:/root:/bin/bash\nalice:x:1000:1000:Alice:/home/alice:/bin/bash\n";
    assert_eq!(sudo_user_home(Some("alice"), Some(passwd)).as_deref(), Some("/home/alice"));
    assert_eq!(sudo_user_home(Some("root"), Some(passwd)), None);
    assert_eq!(sudo_user_home(Some("bob"), Some(passwd)), None);
    assert_eq!(sudo_user_home(None, Some(passwd)), None);
    assert_eq!(sudo_user_home(Some("short"), Some("short:x:1\nshort:x:1:1:S:/home/s:/bin/sh\n")).as_deref(), Some("/home/s"));
}

#[test]
fn secrets_set_and_read_back() {
    let mut s = Secrets::default();
    s.set("rcon/survival", Some("pw1")).unwrap();
    s.set("rcon/creative", Some("pw2")).unwrap();
    s.set("rcon/survival", Some("pw3")).unwrap();
    assert_eq!(s.rcon_password("survival"), "pw3");
    assert_eq!(s.rcon_password("creative"), "pw2");
    s.set("rcon/creative", None).unwrap();
    assert_eq!(s.rcon_password("creative"), "");
    s.set("modrinth", Some("tok")).unwrap();
    assert_eq!(s.modrinth_token.as_deref(), Some("tok"));
    s.set("modrinth", Some("")).unwrap();
    assert_eq!(s.modrinth_token, None);
    s.set("mcsmanager", Some("k")).unwrap();
    assert_eq!(s.mcsm_api_key.as_deref(), Some("k"));
    let e = s.set("discord", Some("x")).unwrap_err();
    assert_eq!(e, "unknown secret \"discord\": use modrinth, github, mcsm or rcon/<server-id>");
}

#[test]
fn secrets_status() {
    let mut s = Secrets::default();
    s.set("rcon/zeta", Some("a")).unwrap();
    s.set("rcon/alpha", Some("b")).unwrap();
    s.set("github", Some("g")).unwrap();
    let lines = s.status_lines("/etc/mcplug", true);
    assert_eq!(
        lines,
        vec![
            "config dir: /etc/mcplug".to_string(),
            "modrinth token: -".to_string(),
            "github token:   set".to_string(),
            "mcsm api key:   set (from mcbackup env)".to_string(),
            "rcon/alpha:        set".to_string(),
            "rcon/zeta:        set".to_string(),
        ]
    );
}

#[test]
fn mcsm_key_falls_back_to_env_file() {
    let s = Secrets::default();
    assert_eq!(s.mcsm_key_with_fallback(Some("# mcbackup\nMCSM_APIKEY = \"abc\"\n")).as_deref(), Some("abc"));
    assert_eq!(s.mcsm_key_with_fallback(Some("OTHER=1\n")), None);
    assert_eq!(s.mcsm_key_with_fallback(None), None);
}
