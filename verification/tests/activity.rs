use styx_runtime::{
    address_string, map_to_log_line, progress_changed, ActivityLog, IpAddress, LogLevel,
    LogLine, RuntimeEvent, SocketAddress, TorrentId, TorrentStatus, MAX_LOG_LINES,
};

fn v6(segs: [u16; 8], port: u16) -> SocketAddress {
    let [a, b, c, d, e, f, g, h] = segs;
    SocketAddress::new(IpAddress::V6(a, b, c, d, e, f, g, h), port)
}

#[test]
fn addresses_are_written_as_std_writes_them() {
    let cases: Vec<(SocketAddress, &str)> = vec![
        (SocketAddress::new(IpAddress::V4(192, 168, 0, 1), 6881), "192.168.0.1:6881"),
        (v6([0, 0, 0, 0, 0, 0, 0, 1], 80), "[::1]:80"),
        (v6([0x2001, 0xdb8, 0, 0, 1, 0, 0, 1], 443), "[2001:db8::1:0:0:1]:443"),
        (v6([0, 0, 0, 0, 0, 0xffff, 0xc000, 0x0280], 1), "[::ffff:192.0.2.128]:1"),
        (v6([1, 0, 2, 0, 3, 0, 4, 0], 9), "[1:0:2:0:3:0:4:0]:9"),
        (v6([0, 0, 0, 0, 0, 0, 0, 0], 7), "[::]:7"),
        (v6([0xfe80, 0, 0, 0, 0xabcd, 0, 0, 0], 5), "[fe80::abcd:0:0:0]:5"),
    ];
    for (ours, expected) in cases {
        assert_eq!(address_string(&ours), expected);
    }
}

#[test]
fn events_become_log_lines() {
    let id = TorrentId::new([0x0f; 20]);
    let hex = "0F".repeat(20);
    let line = map_to_log_line(&RuntimeEvent::TorrentAdded { torrent: id }).unwrap();
    assert_eq!(line.level, LogLevel::Info);
    assert_eq!(line.message, format!("torrent {hex} added"));

    let line = map_to_log_line(&RuntimeEvent::StateChanged {
        torrent: id,
        from: TorrentStatus::Checking,
        to: TorrentStatus::Discovering,
    })
    .unwrap();
    assert_eq!(line.message, format!("torrent {hex}: Checking → Discovering"));

    let line = map_to_log_line(&RuntimeEvent::PeerDisconnected {
        torrent: id,
        addr: SocketAddress::new(IpAddress::V4(10, 0, 0, 1), 51413),
    })
    .unwrap();
    assert_eq!(line.level, LogLevel::Warn);
    assert_eq!(line.message, format!("peer 10.0.0.1:51413 disconnected for torrent {hex}"));

    let line = map_to_log_line(&RuntimeEvent::TaskFailed { torrent: id, reason: "disk full".to_string() })
        .unwrap();
    assert_eq!(line.level, LogLevel::Error);
    assert_eq!(line.message, format!("torrent {hex} failed: disk full"));

    assert!(map_to_log_line(&RuntimeEvent::ValidationStarted).is_none());
}

#[test]
fn the_log_keeps_only_the_newest_lines() {
    let mut log = ActivityLog::new();
    for i in 0..(MAX_LOG_LINES + 5) {
        log.push_log(LogLine { level: LogLevel::Info, message: format!("{i}") });
    }
    let lines = log.logs();
    assert_eq!(lines.len(), MAX_LOG_LINES);
    assert_eq!(lines[0].message, "5");
    assert_eq!(lines[MAX_LOG_LINES - 1].message, format!("{}", MAX_LOG_LINES + 4));
}

#[test]
fn ticks_record_speed_samples() {
    let mut log = ActivityLog::new();
    for i in 0..70u64 {
        log.finish_tick(i, 2 * i);
    }
    let samples = log.speed_samples();
    assert_eq!(samples.len(), 60);
    assert_eq!(samples[0].second, 10);
    assert_eq!(samples[59].down_rate, 69);
    assert_eq!(samples[59].up_rate, 138);
}

#[test]
fn progress_events_call_for_a_snapshot() {
    let id = TorrentId::new([1; 20]);
    assert!(progress_changed(&vec![RuntimeEvent::TaskCompleted { torrent: id }]));
    assert!(!progress_changed(&vec![RuntimeEvent::TorrentAdded { torrent: id }]));
    let mut log = ActivityLog::new();
    log.record_events(&vec![
        RuntimeEvent::TorrentAdded { torrent: id },
        RuntimeEvent::ValidationStarted,
        RuntimeEvent::TaskCompleted { torrent: id },
    ]);
    assert_eq!(log.logs().len(), 2);
}
