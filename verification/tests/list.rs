use portmap::list::{list_output, list_rows};
use portmap::model::{App, ContainerPort, KnownPort};

fn app(id: i64, name: &str, port: i64, category: &str) -> App {
    App { id, name: name.to_string(), port, category: category.to_string() }
}

fn container(port: u16, name: &str, source: &str) -> ContainerPort {
    ContainerPort { port, container_name: name.to_string(), source: source.to_string() }
}

fn known(port: u16, name: &str) -> KnownPort {
    KnownPort { port, name: name.to_string() }
}

#[test]
fn list_output_without_ports() {
    assert_eq!(list_output(&[], &[], &[], &[], 1337), "No ports found.\n");
    assert_eq!(list_output(&[], &[], &[container(5432, "pg", "docker")], &[known(5000, "AirPlay")], 1337), "No ports found.\n");
}

#[test]
fn list_output_readme_example() {
    let apps = vec![
        app(1, "my vite app", 9900, "frontend"),
        app(2, "website", 9951, "frontend"),
        app(3, "azure-mcp", 9952, "mcp"),
        app(4, "logfire-http-mcp", 9953, "mcp"),
        app(5, "vibber-mcp", 9954, "mcp"),
        app(6, "api", 9955, "backend"),
        app(7, "google-mcp", 9956, "backend"),
        app(8, "billing", 9957, "backend"),
    ];
    let alive = vec![5000, 7000, 9900, 9951, 9952, 9953, 9954, 9955, 9957, 9958];
    let knowns = vec![known(5000, "AirPlay Receiver"), known(7000, "AirPlay Streaming")];
    assert_eq!(
        list_output(&apps, &alive, &[], &knowns, 1337),
        "PORT   NAME               CATEGORY  STATUS\n1337   portmap            portmap   down\n9900   my vite app        frontend  up\n9951   website            frontend  up\n9952   azure-mcp          mcp       up\n9953   logfire-http-mcp   mcp       up\n9954   vibber-mcp         mcp       up\n9955   api                backend   up\n9956   google-mcp         backend   down\n9957   billing            backend   up\n5000   AirPlay Receiver             up\n7000   AirPlay Streaming            up\n9958   -                            up\n"
    );
}

#[test]
fn list_output_containers_unnamed_and_out_of_range() {
    let apps = vec![
        app(1, "zeta", 8080, "backend"),
        app(2, "", 3000, "frontend"),
        app(3, "alpha", 8080, "api"),
        app(4, "café", 70000, "db"),
        app(5, "web", 5173, "frontend"),
    ];
    let alive = vec![1337, 3000, 5432, 8080, 6379, 9000];
    let containers = vec![container(5432, "postgres-1", "docker"), container(8080, "api-1", "docker"), container(6379, "redis", "podman")];
    let knowns = vec![known(9000, "PHP-FPM")];
    assert_eq!(
        list_output(&apps, &alive, &containers, &knowns, 1337),
        "PORT   NAME        CATEGORY  STATUS\n1337   portmap     portmap   up\n0      café        db        down\n3000   -           frontend  up\n5173   web         frontend  down\n8080   zeta        backend   up (docker)\n8080   alpha       api       up (docker)\n5432   postgres-1  docker    up\n6379   redis       podman    up\n9000   PHP-FPM               up\n"
    );
}

#[test]
fn list_output_widths_count_bytes_and_pad_characters() {
    assert_eq!(
        list_output(&[app(1, "日本語語", 4000, "")], &[4000], &[], &[], 1337),
        "PORT   NAME          CATEGORY  STATUS\n1337   portmap       portmap   down\n4000   日本語語                    up\n"
    );
}

#[test]
fn list_output_dashboard_only() {
    assert_eq!(list_output(&[], &[1337], &[], &[], 1337), "PORT   NAME     CATEGORY  STATUS\n1337   portmap  portmap   up\n");
    assert_eq!(
        list_output(&[app(1, "web", 3000, "frontend")], &[], &[], &[], 1337),
        "PORT   NAME     CATEGORY  STATUS\n1337   portmap  portmap   down\n3000   web      frontend  down\n"
    );
}

#[test]
fn list_output_sort_is_stable() {
    let apps = vec![app(1, "a", 2, "x"), app(2, "b", 1, "x"), app(3, "c", 2, "x"), app(4, "d", 1, "x")];
    assert_eq!(
        list_output(&apps, &[], &[], &[], 1337),
        "PORT   NAME     CATEGORY  STATUS\n1337   portmap  portmap   down\n1      b        x         down\n1      d        x         down\n2      a        x         down\n2      c        x         down\n"
    );
}

#[test]
fn list_rows_shape() {
    let apps = vec![app(1, "b", 9000, "x"), app(2, "a", 3000, "y")];
    let alive = vec![3000, 4000, 1337, 9000];
    let rows = list_rows(&apps, &alive, &[container(4000, "cache", "docker")], &[], 1337);
    let seen: Vec<(String, u16, String, String, &str)> =
        rows.iter().map(|r| (r.name.clone(), r.port, r.category.clone(), r.source.clone(), r.status)).collect();
    assert_eq!(
        seen,
        vec![
            ("portmap".to_string(), 1337, "portmap".to_string(), String::new(), "up"),
            ("a".to_string(), 3000, "y".to_string(), String::new(), "up"),
            ("b".to_string(), 9000, "x".to_string(), String::new(), "up"),
            ("cache".to_string(), 4000, "docker".to_string(), String::new(), "up"),
        ]
    );
}

#[test]
fn list_output_last_container_on_a_port_wins() {
    let containers = vec![container(8080, "old", "docker"), container(8080, "new", "podman")];
    assert_eq!(
        list_output(&[], &[8080], &containers, &[], 1337),
        "PORT   NAME     CATEGORY  STATUS\n1337   portmap  portmap   down\n8080   new      podman    up\n"
    );
}
