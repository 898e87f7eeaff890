use gopro_cam_tray::gopro::{
    detect, http_get, is_virtual, start, started, stop, CameraTask, Interface, ScanStep,
};
use gopro_cam_tray::http::Address;

fn address(a: u8, b: u8, c: u8, d: u8) -> Address {
    Address { a, b, c, d }
}

fn interface(name: &str, v4: Option<Address>) -> Interface {
    Interface { name: name.to_string(), loopback: false, v4 }
}

// Runs a search; answers tell which addresses answer. Gives what was probed, too.
fn search(list: Option<Vec<Interface>>, camera: Option<Address>) -> (Option<Address>, Vec<Address>) {
    let mut scan = detect(list);
    let mut probed = Vec::new();
    let mut step = scan.begin();
    loop {
        match step {
            ScanStep::Done(found) => return (found, probed),
            ScanStep::Probe(e) => {
                assert_eq!(e.path, "/gopro/webcam/version");
                assert_eq!(e.timeout, 2_000_000_000);
                probed.push(e.ip);
                let reply = if camera == Some(e.ip) {
                    Ok("{}".to_string())
                } else {
                    Err("timeout during connect".to_string())
                };
                step = scan.next(reply);
            }
        }
    }
}

#[test]
fn virtual_interfaces_are_told_by_their_names() {
    for name in ["br-0", "veth12", "docker0", "virbr0", "tap1", "tun0", "vmnet8", "ztabc", "DOCKER0", "Veth"] {
        assert!(is_virtual(name), "{name}");
    }
    for name in ["eth0", "enp0s20u1", "br0", "usb0", "atap", "zz", "", "t"] {
        assert!(!is_virtual(name), "{name}");
    }
}

#[test]
fn only_camera_networks_are_candidates() {
    let at = |a, b, c, d| interface("usb0", Some(address(a, b, c, d))).candidate();
    assert_eq!(at(172, 24, 106, 54), Some(address(172, 24, 106, 51)));
    assert_eq!(at(172, 20, 0, 1), Some(address(172, 20, 0, 51)));
    assert_eq!(at(172, 29, 255, 1), Some(address(172, 29, 255, 51)));
    assert_eq!(at(172, 19, 0, 1), None);
    assert_eq!(at(172, 30, 0, 1), None);
    assert_eq!(at(10, 24, 0, 1), None);
    assert_eq!(interface("usb0", None).candidate(), None);
    assert_eq!(interface("docker0", Some(address(172, 24, 0, 1))).candidate(), None);
    let mut lo = interface("lo", Some(address(172, 24, 0, 1)));
    lo.loopback = true;
    assert_eq!(lo.candidate(), None);
}

#[test]
fn the_first_that_answers_is_found() {
    let list = || {
        Some(vec![
            interface("lo", Some(address(127, 0, 0, 1))),
            interface("docker0", Some(address(172, 20, 0, 1))),
            interface("eth0", Some(address(172, 21, 5, 9))),
            interface("usb0", Some(address(172, 24, 106, 54))),
            interface("usb0", None),
            interface("usb1", Some(address(172, 25, 1, 2))),
        ])
    };
    let all = vec![address(172, 21, 5, 51), address(172, 24, 106, 51), address(172, 25, 1, 51)];

    let (found, probed) = search(list(), Some(all[1]));
    assert_eq!(found, Some(all[1]));
    assert_eq!(probed, all[..2]);

    let (found, probed) = search(list(), Some(all[0]));
    assert_eq!(found, Some(all[0]));
    assert_eq!(probed, all[..1]);

    let (found, probed) = search(list(), None);
    assert_eq!(found, None);
    assert_eq!(probed, all);
}

#[test]
fn without_interfaces_nothing_is_found() {
    assert_eq!(search(None, None), (None, vec![]));
    assert_eq!(search(Some(vec![]), None), (None, vec![]));
}

#[test]
fn a_search_that_is_over_stays_over() {
    let mut scan = detect(None);
    assert!(matches!(scan.next(Ok(String::new())), ScanStep::Done(None)));
}

fn paths(plan: Vec<CameraTask>) -> Vec<String> {
    plan.into_iter()
        .map(|t| match t {
            CameraTask::Request(e) => {
                assert_eq!(e.ip, address(172, 24, 106, 51));
                assert_eq!(e.timeout, 4_000_000_000);
                e.path
            }
            CameraTask::Pause(ms) => format!("pause {ms}"),
        })
        .collect()
}

#[test]
fn starting_clears_a_stale_session_first() {
    let ip = address(172, 24, 106, 51);
    assert_eq!(paths(stop(ip)), ["/gopro/webcam/stop", "/gopro/webcam/exit"]);
    assert_eq!(
        paths(start(ip)),
        ["/gopro/webcam/stop", "/gopro/webcam/exit", "pause 600", "/gopro/webcam/start"]
    );
}

#[test]
fn only_the_last_reply_tells_whether_the_camera_started() {
    let ok = || Ok("{}".to_string());
    let err = |e: &str| Err(e.to_string());
    assert_eq!(started(vec![err("a"), err("b"), ok()]), Ok(()));
    assert_eq!(started(vec![ok(), ok(), err("HTTP status 500")]), Err("HTTP status 500".to_string()));
}

#[test]
fn control_requests_have_four_seconds() {
    let e = http_get(address(1, 2, 3, 4), "/p");
    assert_eq!((e.ip, e.path.as_str(), e.timeout), (address(1, 2, 3, 4), "/p", 4_000_000_000));
    assert!(e.raw.is_empty());
}
