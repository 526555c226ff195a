use taep_controller::hw::PortStats;
use taep_controller::metrics::Metrics;
use taep_controller::metrics::MetricsCollector;

fn stats(base: u64) -> PortStats {
    PortStats {
        packets_in: base,
        packets_out: base + 1,
        octets_in: base * 100,
        octets_out: base * 100 + 1,
        packets_dropped_buffer_full: base / 10,
    }
}

#[test]
fn from_stats_copies_every_counter() {
    let m = Metrics::from_stats(3, &stats(500));
    assert_eq!(m.chassis_port, 3);
    assert_eq!(m.packets_in, 500);
    assert_eq!(m.packets_out, 501);
    assert_eq!(m.octets_in, 50_000);
    assert_eq!(m.octets_out, 50_001);
    assert_eq!(m.packets_dropped_buffer_full, 50);
}

#[test]
fn snapshots_replace_per_port() {
    let mut collector = MetricsCollector::init();
    collector.record_metrics(Metrics::from_stats(1, &stats(100)));
    collector.record_metrics(Metrics::from_stats(2, &stats(200)));
    collector.record_metrics(Metrics::from_stats(1, &stats(300)));
    let all = collector.get_port_stats();
    assert_eq!(all.len(), 2);
    let port1 = all.iter().find(|m| m.chassis_port == 1).unwrap();
    assert_eq!(port1.packets_in, 300);
    let port2 = all.iter().find(|m| m.chassis_port == 2).unwrap();
    assert_eq!(port2.packets_in, 200);
}

#[test]
fn two_polls_keep_the_latest_counters() {
    let mut collector = MetricsCollector::init();
    collector.run(1);
    assert_eq!(collector.poll_interval_in_seconds, 1);
    let first = vec![Metrics::from_stats(1, &stats(100)), Metrics::from_stats(2, &stats(150))];
    collector.collect_port_stats(&first);
    let second = vec![Metrics::from_stats(1, &stats(180)), Metrics::from_stats(2, &stats(260))];
    collector.collect_port_stats(&second);
    let all = collector.get_port_stats();
    assert_eq!(all.len(), 2);
    for m in &all {
        let earlier = first.iter().find(|f| f.chassis_port == m.chassis_port).unwrap();
        // counters do not go backwards between polls
        assert!(m.packets_in >= earlier.packets_in);
        assert!(m.octets_out >= earlier.octets_out);
    }
    assert_eq!(all.iter().find(|m| m.chassis_port == 1).unwrap().packets_in, 180);
    assert_eq!(all.iter().find(|m| m.chassis_port == 2).unwrap().packets_in, 260);
}

#[test]
fn read_copies_do_not_alias_the_collector() {
    let mut collector = MetricsCollector::init();
    collector.record_metrics(Metrics::from_stats(1, &stats(100)));
    let copy = collector.get_port_stats();
    collector.record_metrics(Metrics::from_stats(1, &stats(999)));
    assert_eq!(copy[0].packets_in, 100);
}
