use wifi_control::{Action, CreateStep, Outcome, Reply, Session, WFError, WiFi};

fn finished(stdout: &str, stderr: &str) -> Outcome {
    Outcome::Finished { stdout: stdout.as_bytes().to_vec(), stderr: stderr.as_bytes().to_vec() }
}

fn words(v: &[&str]) -> Vec<String> {
    v.iter().map(|s| s.to_string()).collect()
}

fn run_args(a: Action) -> Vec<String> {
    match a {
        Action::Run(args) => args,
        other => panic!("{:?}", other),
    }
}

#[test]
fn disconnect_success() {
    let wifi = WiFi::new("wlan1".to_string());
    let mut s = Session::disconnect(&wifi);
    assert_eq!(s.command(), words(&["device", "disconnect", "wlan1"]));
    let a = s.advance(finished("successfully disconnected", ""));
    assert!(matches!(a, Action::Finish(Ok(Reply::Unit))));
    assert!(s.is_done());
}

#[test]
fn hotspot_create_stops_at_failed_add() {
    let wifi = WiFi::new("wlan0".to_string());
    let mut s = Session::create(&wifi, "Net".to_string(), Some("secret123".to_string()));
    assert_eq!(
        s.command(),
        words(&["con", "add", "type", "wifi", "ifname", "wlan0", "con-name", "Hotspot",
            "autoconnect", "yes", "ssid", "Net"])
    );
    let a = s.advance(finished("Error: failed to add", ""));
    match a {
        Action::Finish(Err(WFError::HotspotCreate(step, m))) => {
            assert_eq!(step, CreateStep::Add);
            assert_eq!(m, "Error: failed to add");
        }
        other => panic!("{:?}", other),
    }
    assert!(s.is_done());
}

#[test]
fn hotspot_create_runs_four_steps() {
    let wifi = WiFi::new("wlan0".to_string());
    let mut s = Session::create(&wifi, "Net".to_string(), None);
    let mode = run_args(s.advance(finished("Connection 'Hotspot' (1) successfully added.", "")));
    assert_eq!(
        mode,
        words(&["con", "modify", "Hotspot", "802-11-wireless.mode", "ap",
            "802-11-wireless.band", "bg", "ipv4.method", "shared"])
    );
    let sec = run_args(s.advance(finished("", "")));
    assert_eq!(sec, words(&["con", "modify", "Hotspot", "wifi-sec.key-mgmt", "wpa-psk"]));
    let key = run_args(s.advance(finished("\n", "")));
    assert_eq!(key, words(&["con", "modify", "Hotspot", "wifi-sec.psk", "parola_default"]));
    assert!(!s.is_done());
    assert!(matches!(s.advance(finished("", "")), Action::Finish(Ok(Reply::Unit))));
    assert!(s.is_done());
}

#[test]
fn hotspot_modify_output_names_the_step() {
    let wifi = WiFi::new("wlan0".to_string());
    let mut s = Session::create(&wifi, "Net".to_string(), Some("pw".to_string()));
    run_args(s.advance(finished("successfully added", "")));
    let a = s.advance(finished("Warning: mode", ""));
    assert!(matches!(a, Action::Finish(Err(WFError::HotspotCreate(CreateStep::Mode, _)))));
}

#[test]
fn scan_end_to_end() {
    let wifi = WiFi::new("wlp2s0".to_string());
    let mut s = Session::scan(&wifi);
    assert_eq!(s.command(), words(&["device", "wifi", "rescan", "ifname", "wlp2s0"]));
    let list = run_args(s.advance(finished("", "")));
    assert_eq!(list, words(&["device", "wifi", "list", "ifname", "wlp2s0"]));
    let header = "IN-USE  BSSID              SSID        MODE   CHAN  RATE       SIGNAL  BARS  SECURITY";
    let line = format!(
        "{:<8}{:<19}{:<12}{:<7}{:<6}{:<11}{:<8}{:<6}{}",
        "", "AA:BB:CC:DD:EE:FF", "HomeNet", "Infra", "6", "130 Mbit/s", "87", "▂▄▆█", "WPA2"
    );
    let out = format!("{}\n{}\n", header, line);
    match s.advance(finished(&out, "")) {
        Action::Finish(Ok(Reply::Networks(nets))) => {
            assert_eq!(nets.len(), 1);
            assert_eq!(nets[0].bssid, "AA:BB:CC:DD:EE:FF");
            assert_eq!(nets[0].ssid, "HomeNet");
            assert_eq!(nets[0].signal, 87);
        }
        other => panic!("{:?}", other),
    }
}

#[test]
fn scan_stops_when_rescan_prints() {
    let wifi = WiFi::new("wlan0".to_string());
    let mut s = Session::scan(&wifi);
    let a = s.advance(finished("Error: scanning not allowed", ""));
    assert!(matches!(a, Action::Finish(Err(WFError::WifiAction(m))) if m == "Error: scanning not allowed"));
}

#[test]
fn connect_uses_configured_interface() {
    let wifi = WiFi::new("wlan7".to_string());
    let mut s = Session::connect(&wifi, "Home Net".to_string(), "pw".to_string());
    assert_eq!(
        s.command(),
        words(&["device", "wifi", "connect", "Home Net", "password", "pw", "ifname", "wlan7"])
    );
    let a = s.advance(finished("", "Error: No network with SSID 'Home Net' found."));
    assert!(matches!(a, Action::Finish(Err(WFError::CommandErr(_)))));
}

#[test]
fn start_and_stop_hotspot() {
    let wifi = WiFi::new("wlan0".to_string());
    let mut up = Session::start(&wifi);
    assert_eq!(up.command(), words(&["con", "up", "Hotspot"]));
    assert!(matches!(
        up.advance(finished("Connection successfully activated (D-Bus active path: x)", "")),
        Action::Finish(Ok(Reply::Unit))
    ));
    let mut down = Session::stop(&wifi);
    assert_eq!(down.command(), words(&["con", "down", "Hotspot"]));
    assert!(matches!(down.advance(finished("nothing", "")), Action::Finish(Err(WFError::WifiAction(_)))));
    assert!(matches!(Session::stop(&wifi).advance(Outcome::LaunchFailed), Action::Finish(Err(WFError::CommandIO))));
}

#[test]
fn wifi_keeps_its_interface() {
    let wifi = WiFi::new("wlan3".to_string());
    assert_eq!(wifi.interface(), "wlan3");
    assert_eq!(WiFi::interfaces(), vec!["lol".to_string()]);
}
