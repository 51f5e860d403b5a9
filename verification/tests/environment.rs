use desktop_cockpit::environment::{
    containers_from_output, running_containers, running_containers_json_like, ContainerInfo,
};

fn container(name: &str, engine: &'static str) -> ContainerInfo {
    ContainerInfo {
        name: name.to_string(),
        engine,
    }
}

#[test]
fn reads_names_from_engine_output() {
    let containers = containers_from_output("  Web-App \n\n db\r\nCACHE", "docker");

    assert_eq!(
        containers,
        vec![
            container("web-app", "docker"),
            container("db", "docker"),
            container("cache", "docker")
        ]
    );
    assert!(containers_from_output("", "podman").is_empty());
    assert_eq!(
        containers_from_output("ÉCOLE\n", "podman"),
        vec![container("École", "podman")]
    );
}

#[test]
fn merges_orders_and_deduplicates() {
    let docker = vec![container("web", "docker"), container("db", "docker"), container("web", "docker")];
    let podman = vec![container("api", "podman"), container("db", "podman")];

    let running = running_containers(docker, podman);

    assert_eq!(
        running,
        vec![
            container("db", "docker"),
            container("web", "docker"),
            container("api", "podman"),
            container("db", "podman")
        ]
    );
    assert!(running_containers(Vec::new(), Vec::new()).is_empty());
}

#[test]
fn writes_status_like_json() {
    let text = running_containers_json_like(&[container("db", "docker"), container("api", "podman")]);

    assert_eq!(text, "{\n  \"db@docker\": \"UP\",\n  \"api@podman\": \"UP\"\n}");
    assert_eq!(running_containers_json_like(&[]), "{\n}");
}
