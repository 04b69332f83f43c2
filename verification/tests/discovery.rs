use karl::controller::Controller;
use karl::dashboard::{cancel_host, get_hosts, HostStatus};

#[test]
fn discovered_hosts_are_sorted_and_unique() {
    let mut c = Controller::new();
    assert!(c.find_hosts().is_empty());
    let a = 0x0A00_0002u32;
    let b = 0x0A00_0001u32;
    c.discover(Some(8000), &vec![None, Some(a), Some(b)]);
    c.discover(Some(7000), &vec![Some(a)]);
    c.discover(Some(9000), &vec![Some(b)]);
    c.discover(Some(8000), &vec![Some(a)]);
    c.discover(None, &vec![Some(b)]);
    c.discover(Some(1), &vec![None, None]);
    c.discover(Some(2), &vec![]);
    let hosts = c.find_hosts();
    assert_eq!(hosts, vec![(b, 9000), (a, 7000), (a, 8000)]);
    let mut std_sorted = hosts.clone();
    std_sorted.reverse();
    std_sorted.sort();
    assert_eq!(hosts, std_sorted);
}

fn status(id: &str, confirmed: bool, active: usize, secs: u64) -> HostStatus {
    HostStatus { id: id.to_string(), confirmed, active_requests: active, secs_since_last_msg: secs }
}

#[test]
fn hosts_listing() {
    let hosts = vec![
        status("h1", true, 2, 0),
        status("h2", false, 0, 0),
        status("h3", true, 0, 20),
        status("h4", true, 1, 21),
        status("h5", false, 3, 100),
    ];
    let res = get_hosts(&hosts);
    assert_eq!(res.confirmed.len(), 3);
    assert_eq!(res.confirmed[0].id, "h1");
    assert_eq!(res.confirmed[0].activeModules, 2);
    assert!(res.confirmed[0].online);
    assert_eq!(res.confirmed[1].id, "h3");
    assert!(res.confirmed[1].online);
    assert_eq!(res.confirmed[2].id, "h4");
    assert_eq!(res.confirmed[2].activeModules, 1);
    assert!(!res.confirmed[2].online);
    assert_eq!(res.unconfirmed, vec!["h2".to_string(), "h5".to_string()]);
    let empty = get_hosts(&vec![]);
    assert!(empty.confirmed.is_empty() && empty.unconfirmed.is_empty());
}

#[test]
fn active_modules_truncate_to_u32() {
    let res = get_hosts(&vec![status("big", true, (u32::MAX as usize) + 3, 0)]);
    assert_eq!(res.confirmed[0].activeModules, 2);
}

#[test]
fn cancel_host_status() {
    assert_eq!(cancel_host(true), 200);
    assert_eq!(cancel_host(false), 404);
}

#[test]
fn discovered_hosts_are_never_forgotten() {
    let mut c = Controller::new();
    c.discover(Some(80), &vec![Some(5)]);
    let before = c.find_hosts();
    c.discover(Some(81), &vec![Some(4)]);
    c.discover(None, &vec![Some(9)]);
    let after = c.find_hosts();
    for h in before.iter() {
        assert!(after.contains(h));
    }
    assert_eq!(after, vec![(4, 81), (5, 80)]);
}
