use timetrack::config::{default_task_url_prefix, Config};
use timetrack::pbs::{sort_tasks_by_id_desc, AuthConfig, PbsTask};
use timetrack::projects::{find_by_id, Project};

fn auth() -> AuthConfig {
    AuthConfig {
        login_url: "https://example.invalid/login".to_string(),
        username: "user".to_string(),
        password: "not a real password".to_string(),
    }
}

#[test]
fn find_by_id_returns_the_first_match() {
    let projects = vec![
        Project { id: "a".to_string(), name: "Alpha".to_string(), color: 1 },
        Project { id: "b".to_string(), name: "Beta".to_string(), color: 2 },
        Project { id: "b".to_string(), name: "Beta again".to_string(), color: 3 },
    ];
    let hit = find_by_id(&projects, &"b".to_string()).expect("present");
    assert_eq!(hit.name, "Beta");
    assert_eq!(hit.color, 2);
    assert!(find_by_id(&projects, &"c".to_string()).is_none());
    assert!(find_by_id(&vec![], &"a".to_string()).is_none());
}

#[test]
fn the_default_task_url_prefix_is_fixed() {
    assert_eq!(
        default_task_url_prefix(),
        "https://pbs2.praguebest.cz/main.php?pageid=110&action=detail&id="
    );
}

#[test]
fn config_falls_back_to_the_default_prefix() {
    let with = Config::new(auth(), Some("https://example.invalid/task?id=".to_string()));
    assert_eq!(with.task_url_prefix, "https://example.invalid/task?id=");
    let without = Config::new(auth(), None);
    assert_eq!(without.task_url_prefix, default_task_url_prefix());
    assert_eq!(without.auth.username, "user");
}

#[test]
fn tasks_sort_by_descending_id() {
    let tasks = vec![
        PbsTask { id: 3, name: "three".to_string() },
        PbsTask { id: 11, name: "eleven".to_string() },
        PbsTask { id: 7, name: "seven".to_string() },
        PbsTask { id: 7, name: "seven again".to_string() },
    ];
    let sorted = sort_tasks_by_id_desc(&tasks);
    assert_eq!(sorted.len(), 4);
    let ids: Vec<i32> = sorted.iter().map(|t| t.id).collect();
    assert_eq!(ids, vec![11, 7, 7, 3]);
    assert_eq!(sorted[0].name, "eleven");
    let empty = sort_tasks_by_id_desc(&vec![]);
    assert!(empty.is_empty());
}

#[test]
fn duplicating_a_task_copies_every_field() {
    let t = PbsTask { id: 5, name: "five".to_string() };
    let d = t.duplicate();
    assert_eq!(d.id, 5);
    assert_eq!(d.name, "five");
}
