use polygone::mesh::{MeshNode, MeshTask, Peer};

fn peer(id: &str, cpu: u8, ram: u32, tasks: u32) -> Peer {
    Peer {
        id: id.into(),
        name: format!("node-{id}"),
        address: "127.0.0.1:4001".into(),
        discovered_at_ms: 0,
        last_seen_ms: 0,
        rtt_ms: 5,
        cpu_load: cpu,
        free_ram_mib: ram,
        running_tasks: tasks,
        tasks_completed: 0,
    }
}

fn task(cpu: u8, ram: u32) -> MeshTask {
    MeshTask { id: "t1".into(), kind: "test".into(), cpu_cost: cpu, ram_mib: ram, created_at_ms: 0 }
}

#[test]
fn announce_and_count() {
    let mut m = MeshNode::new();
    m.announce(peer("a", 10, 1024, 0));
    m.announce(peer("b", 20, 2048, 1));
    assert_eq!(m.peers().len(), 2);
}

#[test]
fn best_peer_picks_lowest_load() {
    let mut m = MeshNode::new();
    m.announce(peer("busy", 90, 1024, 10));
    m.announce(peer("idle", 5, 4096, 0));
    assert_eq!(m.submit(task(10, 256)), Some("idle".into()));
}

#[test]
fn too_heavy_task_filtered() {
    let mut m = MeshNode::new();
    m.announce(peer("a", 80, 1024, 0));
    assert!(m.submit(task(50, 256)).is_none());
}

#[test]
fn sweep_drops_stale() {
    let mut m = MeshNode::new();
    // Seen at the epoch: long stale now.
    m.announce_at(peer("a", 0, 1024, 0), 0);
    assert_eq!(m.sweep(), 1);
    assert!(m.peers().is_empty());
}

#[test]
fn load_score_punishes_cpu_and_ram() {
    let busy = peer("b", 80, 64, 0);
    let idle = peer("i", 5, 4096, 0);
    assert!(busy.load_score() > idle.load_score());
}

#[test]
fn load_score_exact_values() {
    // 10 per percent of CPU, 500 under 256 MiB free, 50 per running task.
    assert_eq!(peer("x", 80, 64, 0).load_score(), 1300);
    assert_eq!(peer("y", 5, 4096, 2).load_score(), 150);
    assert_eq!(peer("z", 0, 256, 0).load_score(), 0);
}

#[test]
fn announce_replaces_same_id() {
    let mut m = MeshNode::new();
    m.announce(peer("a", 10, 1024, 0));
    m.announce(peer("a", 30, 2048, 0));
    let ps = m.peers();
    assert_eq!(ps.len(), 1);
    assert_eq!(ps[0].cpu_load, 30);
}

#[test]
fn submit_counts_running_task_and_complete_clears() {
    let mut m = MeshNode::new();
    m.announce(peer("a", 10, 1024, 0));
    assert_eq!(m.submit(task(10, 256)), Some("a".into()));
    assert_eq!(m.pending_tasks(), 1);
    assert_eq!(m.peers()[0].running_tasks, 1);
    assert!(m.complete("t1"));
    assert!(!m.complete("t1"));
    assert_eq!(m.pending_tasks(), 0);
}

#[test]
fn peers_sorted_by_score() {
    let mut m = MeshNode::new();
    m.announce(peer("hot", 90, 1024, 0));
    m.announce(peer("cool", 1, 4096, 0));
    m.announce(peer("warm", 40, 4096, 0));
    let names: Vec<String> = m.peers().into_iter().map(|p| p.id).collect();
    assert_eq!(names, vec!["cool".to_string(), "warm".to_string(), "hot".to_string()]);
}

#[test]
fn best_peer_ties_go_to_first() {
    let t = task(10, 256);
    let ps = vec![peer("first", 10, 1024, 0), peer("second", 10, 1024, 0)];
    assert_eq!(t.best_index(&ps), Some(0));
    assert_eq!(t.best_peer(&ps).map(|p| p.id.clone()), Some("first".to_string()));
}

#[test]
fn fresh_peer_survives_sweep() {
    let mut m = MeshNode::new();
    m.announce(peer("a", 0, 1024, 0));
    assert_eq!(m.sweep(), 0);
    assert_eq!(m.peers().len(), 1);
}

#[test]
fn pending_tasks_count_distinct_ids_placed_and_not_completed() {
    let mut m = MeshNode::new();
    m.announce(peer("a", 10, 1024, 0));
    let named = |id: &str, ram: u32| MeshTask { id: id.into(), kind: "test".into(), cpu_cost: 10, ram_mib: ram, created_at_ms: 0 };
    assert!(m.submit(named("x", 100)).is_some());
    assert!(m.submit(named("y", 100)).is_some());
    // The same id again replaces the pending task.
    assert!(m.submit(named("x", 200)).is_some());
    assert_eq!(m.pending_tasks(), 2);
    // A task no peer can take changes nothing.
    assert!(m.submit(named("z", 1_000_000)).is_none());
    assert_eq!(m.pending_tasks(), 2);
    assert!(m.complete("x"));
    assert!(!m.complete("z"));
    assert_eq!(m.pending_tasks(), 1);
    m.sweep_at(0);
    assert_eq!(m.pending_tasks(), 1);
}
