use linux_stats::counters::{stat_bytes, stat_text};
use linux_stats::memory::{meminfo_bytes, meminfo_text};
use linux_stats::sockets::{net_bytes, net_text};
use linux_stats::{MemInfo, Socket, SocketState, SocketTimerState, Stat};

#[test]
fn stat_round_trip_concrete() {
    let s = Stat {
        cpu: vec![1, 2, 3],
        cpus: vec![vec![4, 5], vec![], vec![6]],
        intr: vec![7, 0, 9],
        ctxt: 19226041,
        btime: 1465047533,
        processes: 18056,
        procs_running: 2,
        procs_blocked: 1,
        softirq: vec![5057579, 2],
    };
    let text = stat_text(&s);
    assert_eq!(stat_bytes(&text).unwrap(), s);
}

#[test]
fn stat_round_trip_zero() {
    let s = Stat::default();
    let text = stat_text(&s);
    assert_eq!(stat_bytes(&text).unwrap(), s);
}

#[test]
fn meminfo_round_trip_concrete() {
    let m = MemInfo {
        mem_total: 3521920,
        mem_free: 1878240,
        active: 134352,
        active_anon: 1094728,
        active_file: 99,
        inactive: 266336,
        inactive_anon: 17664,
        inactive_file: 12,
        writeback: 3,
        writeback_tmp: 4,
        vmalloc_total: 34359738367,
        ..Default::default()
    };
    let text = meminfo_text(&m);
    assert_eq!(meminfo_bytes(&text).unwrap(), m);
}

#[test]
fn net_round_trip_concrete() {
    let socks = vec![
        Socket {
            sl: 49,
            local_address: [127, 0, 0, 1],
            local_port: 4402,
            remote_address: [46, 238, 65, 91],
            remote_port: 80,
            state: SocketState::Listen,
            tx_queue: 0xA,
            rx_queue: 2,
            timer: SocketTimerState::Active(0xB),
            uid: 1001,
            inode: 2796814,
        },
        Socket {
            sl: 0,
            local_address: [0, 0, 0, 0],
            local_port: 0,
            remote_address: [255, 255, 255, 255],
            remote_port: 65535,
            state: SocketState::Established,
            tx_queue: u64::MAX,
            rx_queue: 0,
            timer: SocketTimerState::Inactive,
            uid: 0,
            inode: 0,
        },
    ];
    let text = net_text(&socks);
    assert_eq!(net_bytes(&text).unwrap(), socks);
}

#[test]
fn net_round_trip_empty_table() {
    let socks: Vec<Socket> = vec![];
    let text = net_text(&socks);
    assert_eq!(net_bytes(&text).unwrap(), socks);
}
