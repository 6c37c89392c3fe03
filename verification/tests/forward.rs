use port_shadow::forward::ForwardManager;
use port_shadow::ssh::{forward_command_args, remote_command_args};

#[test]
fn manager_tracks_started_and_stopped_forwards() {
    let mut m = ForwardManager::new();
    assert!(!m.is_active(3000));
    m.start_forward(3000, 3000, Some("dev".to_string()));
    m.start_forward(5432, 15432, None);
    assert!(m.is_active(3000));
    assert!(m.is_active(5432));
    let mut ports = m.active_remote_ports();
    ports.sort();
    assert_eq!(ports, vec![3000, 5432]);
    let stopped = m.stop_forward(5432).unwrap();
    assert_eq!(stopped.remote_port, 5432);
    assert_eq!(stopped.local_port, 15432);
    assert!(!m.is_active(5432));
    assert!(m.stop_forward(5432).is_none());
    assert!(m.is_active(3000));
}

#[test]
fn teardown_all_removes_every_forward() {
    let mut m = ForwardManager::new();
    m.start_forward(1, 1, None);
    m.start_forward(2, 2, None);
    m.start_forward(3, 3, None);
    m.start_forward(2, 20, Some("two".to_string()));
    let gone = m.teardown_all();
    let mut ports: Vec<u16> = gone.iter().map(|(p, _)| *p).collect();
    ports.sort();
    assert_eq!(ports, vec![1, 2, 3]);
    for (p, f) in &gone {
        assert_eq!(f.remote_port, *p);
        if *p == 2 {
            assert_eq!(f.local_port, 20);
            assert_eq!(f.label.as_deref(), Some("two"));
        }
    }
    assert!(m.active_remote_ports().is_empty());
    assert!(m.teardown_all().is_empty());
}

#[test]
fn reaping_removes_only_exited_active_forwards() {
    let mut m = ForwardManager::new();
    m.start_forward(1, 1, None);
    m.start_forward(2, 2, None);
    let removed = m.reap_dead_forwards(&[2, 7, 2]);
    assert_eq!(removed, vec![2]);
    assert!(m.is_active(1));
    assert!(!m.is_active(2));
}

#[test]
fn remote_command_arguments() {
    let extra = vec!["-i".to_string(), "~/.ssh/id".to_string()];
    let args = remote_command_args("user@h", 2222, Some("/tmp/h.sock"), &extra, "ls", true);
    assert_eq!(
        args,
        vec![
            "-o", "BatchMode=yes", "-o", "StrictHostKeyChecking=accept-new", "-p", "2222", "-o",
            "ControlPath=/tmp/h.sock", "-o", "ControlMaster=no", "-i", "~/.ssh/id", "user@h", "ls",
        ]
    );
    let args = remote_command_args("h", 22, Some("/tmp/h.sock"), &[], "ls", false);
    assert_eq!(
        args,
        vec!["-o", "BatchMode=yes", "-o", "StrictHostKeyChecking=accept-new", "-p", "22", "h", "ls"]
    );
}

#[test]
fn forward_command_arguments() {
    let args = forward_command_args("user@h", 22, None, &[], 8080, 9341, true);
    assert_eq!(
        args,
        vec![
            "-N", "-o", "BatchMode=yes", "-o", "StrictHostKeyChecking=accept-new", "-p", "22",
            "-L", "9341:localhost:8080", "user@h",
        ]
    );
    let extra = vec!["-v".to_string()];
    let args = forward_command_args("h", 2200, Some("/s"), &extra, 1, 2, true);
    assert_eq!(
        args,
        vec![
            "-N", "-o", "BatchMode=yes", "-o", "StrictHostKeyChecking=accept-new", "-p", "2200",
            "-o", "ControlPath=/s", "-o", "ControlMaster=no", "-v", "-L", "2:localhost:1", "h",
        ]
    );
}
