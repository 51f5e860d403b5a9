use desktop_cockpit::projects::{
    expand_user_home, extract_xml_attribute, file_name_of, recent_intellij_projects,
};

#[test]
fn extracts_attributes() {
    let line = r#"    <entry key="$USER_HOME$/code/cockpit" value="x">"#;
    assert_eq!(
        extract_xml_attribute(line, "key").as_deref(),
        Some("$USER_HOME$/code/cockpit")
    );
    assert_eq!(extract_xml_attribute(line, "value").as_deref(), Some("x"));
    assert_eq!(extract_xml_attribute(line, "name"), None);
    assert_eq!(extract_xml_attribute(r#"<entry key="open"#, "key"), None);
    assert_eq!(extract_xml_attribute(r#"k="" "#, "k").as_deref(), Some(""));
}

#[test]
fn expands_the_home_marker() {
    assert_eq!(
        expand_user_home("$USER_HOME$/a/$USER_HOME$", Some("/home/me")),
        "/home/me/a//home/me"
    );
    assert_eq!(expand_user_home("$USER_HOME$/a", None), "$USER_HOME$/a");
    assert_eq!(expand_user_home("/opt/x", Some("/home/me")), "/opt/x");
}

#[test]
fn takes_the_last_path_component() {
    assert_eq!(file_name_of("/home/me/code/cockpit").as_deref(), Some("cockpit"));
    assert_eq!(file_name_of("/home/me/code/cockpit/").as_deref(), Some("cockpit"));
    assert_eq!(file_name_of("code/./").as_deref(), Some("code"));
    assert_eq!(file_name_of("a/..").as_deref(), None);
    assert_eq!(file_name_of("/").as_deref(), None);
    assert_eq!(file_name_of("").as_deref(), None);
    assert_eq!(file_name_of(".").as_deref(), None);
    assert_eq!(file_name_of("name").as_deref(), Some("name"));
    for path in ["/a/b", "a//b/", "x/.hidden", "./y", "a/.", "..", "/a/b/..", "a/...", "./"] {
        let expected = std::path::Path::new(path)
            .file_name()
            .and_then(|n| n.to_str())
            .map(String::from);
        assert_eq!(file_name_of(path), expected, "path {path}");
    }
}

#[test]
fn lists_recent_projects_last_first() {
    let content = r#"<application>
  <component name="RecentProjectsManager">
    <option name="additionalInfo">
      <map>
        <entry key="$USER_HOME$/code/alpha">
        <entry key="/work/beta" />
        <entry key="$USER_HOME$/code/alpha/">
        <entry key="/work/gamma">
        <entry value="/nope">
        <entry key="/work/delta">
      </map>
    </option>
  </component>
</application>"#;

    assert_eq!(
        recent_intellij_projects(content, Some("/home/me"), 3),
        vec!["delta".to_string(), "gamma".to_string(), "beta".to_string()]
    );
    assert_eq!(
        recent_intellij_projects(content, None, 10),
        vec![
            "delta".to_string(),
            "gamma".to_string(),
            "beta".to_string(),
            "alpha".to_string()
        ]
    );
    assert!(recent_intellij_projects("", Some("/home/me"), 3).is_empty());
}
