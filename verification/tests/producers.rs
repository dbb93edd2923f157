use sim868_emulator::sim868::{GnssConfig, GnssConfiguration, Sim868};
use sim868_emulator::urc::{RegistrationWatcher, CREG_POLL_SECONDS, GNSS_IDLE_MILLIS};

const REPORT: &str = "AT+UGNSINF=1,2,4,1,2,4,12,4,1";

#[test]
fn default_receiver_is_off_with_five_seconds() {
    let gnss = GnssConfiguration::default();
    assert!(!gnss.power());
    assert!(!gnss.urc_enabled());
    assert_eq!(gnss.urc(), 5);
}

#[test]
fn receiver_that_is_off_reports_nothing() {
    let mut gnss = GnssConfiguration::default();
    for _ in 0..10 {
        let cycle = gnss.urc_cycle(None);
        assert_eq!(cycle.report, None);
        assert_eq!(cycle.wait_millis, 100);
        assert_eq!(cycle.wait_millis, GNSS_IDLE_MILLIS);
    }
    assert!(!gnss.power());
    assert_eq!(gnss.urc(), 5);
}

#[test]
fn receiver_that_is_on_reports_every_interval() {
    let mut gnss = GnssConfiguration::default();
    gnss.set_power(true);
    let cycle = gnss.urc_cycle(None);
    assert_eq!(cycle.report, Some(REPORT.to_string()));
    assert_eq!(cycle.wait_millis, 5000);
}

#[test]
fn interval_of_one_second_gives_a_report_each_second() {
    let mut gnss = GnssConfiguration::default();
    gnss.set_power(true);
    gnss.set_urc(1);
    for n in [1u32, 3, 10, 60] {
        let mut reports = 0;
        let mut waited = 0;
        for _ in 0..n {
            let cycle = gnss.urc_cycle(None);
            if cycle.report.is_some() {
                reports += 1;
            }
            waited += cycle.wait_millis;
        }
        assert_eq!(reports, n);
        assert_eq!(waited, n * 1000);
    }
}

#[test]
fn interval_request_is_applied_before_the_report() {
    let mut gnss = GnssConfiguration::default();
    gnss.set_power(true);
    let cycle = gnss.urc_cycle(Some(GnssConfig::URC(3)));
    assert_eq!(cycle.report, Some(REPORT.to_string()));
    assert_eq!(cycle.wait_millis, 3000);
    assert_eq!(gnss.urc(), 3);
    let cycle = gnss.urc_cycle(None);
    assert_eq!(cycle.wait_millis, 3000);
    let cycle = gnss.urc_cycle(Some(GnssConfig::URC(255)));
    assert_eq!(cycle.wait_millis, 255000);
}

#[test]
fn interval_is_clamped_when_it_is_set() {
    let mut gnss = GnssConfiguration::default();
    gnss.set_power(true);
    let cycle = gnss.urc_cycle(Some(GnssConfig::URC(0)));
    assert_eq!(cycle.wait_millis, 1000);
    assert_eq!(gnss.urc(), 1);
    gnss.set_urc(0);
    assert_eq!(gnss.urc(), 1);
    gnss.set_urc(200);
    assert_eq!(gnss.urc(), 200);
    gnss.apply(GnssConfig::URC(0));
    assert_eq!(gnss.urc(), 1);
}

#[test]
fn status_request_changes_nothing() {
    let mut gnss = GnssConfiguration::default();
    gnss.set_power(true);
    let cycle = gnss.urc_cycle(Some(GnssConfig::STATUS(false)));
    assert_eq!(cycle.report, Some(REPORT.to_string()));
    assert_eq!(cycle.wait_millis, 5000);
    assert!(gnss.power());
    assert!(!gnss.urc_enabled());
    gnss.apply(GnssConfig::STATUS(true));
    assert!(gnss.power());
    assert!(!gnss.urc_enabled());
    assert_eq!(gnss.urc(), 5);
}

#[test]
fn request_handed_to_a_receiver_that_is_off_is_kept() {
    let mut gnss = GnssConfiguration::default();
    let cycle = gnss.urc_cycle(Some(GnssConfig::URC(2)));
    assert_eq!(cycle.report, None);
    assert_eq!(cycle.wait_millis, 100);
    assert_eq!(gnss.urc(), 2);
    gnss.set_power(true);
    let cycle = gnss.urc_cycle(None);
    assert_eq!(cycle.wait_millis, 2000);
}

#[test]
fn switching_the_receiver_takes_effect_at_the_next_cycle() {
    let mut gnss = GnssConfiguration::default();
    assert_eq!(gnss.urc_cycle(None).report, None);
    gnss.set_power(true);
    assert!(gnss.urc_cycle(None).report.is_some());
    gnss.set_power(false);
    assert_eq!(gnss.urc_cycle(None).report, None);
    gnss.set_urc_enabled(true);
    assert!(gnss.urc_enabled());
    assert_eq!(gnss.urc_cycle(None).report, None);
}

#[test]
fn gnss_producer_starts_once_on_a_device_that_is_on() {
    let mut sim = Sim868::new(true, GnssConfiguration::default());
    assert!(sim.start_gnss());
    assert!(sim.gnss_reporting);
    assert!(!sim.start_gnss());
    assert!(sim.gnss_reporting);
}

#[test]
fn gnss_producer_does_not_start_on_a_device_that_is_off() {
    let mut sim = Sim868::new(false, GnssConfiguration::default());
    assert!(!sim.start_gnss());
    assert!(!sim.gnss_reporting);
    sim.power = true;
    assert!(sim.start_gnss());
}

#[test]
fn change_of_status_is_announced_once() {
    let mut watcher = RegistrationWatcher::new(0);
    assert_eq!(watcher.observe(1), Some("+CREG: 1".to_string()));
    assert_eq!(watcher.last_status(), 1);
    assert_eq!(watcher.observe(1), None);
    assert_eq!(watcher.observe(1), None);
    assert_eq!(watcher.last_status(), 1);
}

#[test]
fn unchanged_status_is_never_announced() {
    let mut watcher = RegistrationWatcher::new(2);
    for _ in 0..20 {
        assert_eq!(watcher.observe(2), None);
    }
}

#[test]
fn every_transition_is_announced_in_order() {
    let mut watcher = RegistrationWatcher::new(0);
    let observed = [0u8, 2, 2, 1, 1, 1, 5, 0, 0, 255, 10];
    let mut lines = Vec::new();
    for status in observed {
        if let Some(line) = watcher.observe(status) {
            lines.push(line);
        }
    }
    assert_eq!(
        lines,
        vec![
            "+CREG: 2".to_string(),
            "+CREG: 1".to_string(),
            "+CREG: 5".to_string(),
            "+CREG: 0".to_string(),
            "+CREG: 255".to_string(),
            "+CREG: 10".to_string(),
        ]
    );
    assert_eq!(watcher.last_status(), 10);
}

#[test]
fn registration_producer_starts_from_the_current_status() {
    let mut sim = Sim868::new(true, GnssConfiguration::default());
    sim.reg_status = 3;
    let mut watcher = sim.creg_thread();
    assert_eq!(watcher.last_status(), 3);
    assert_eq!(watcher.observe(sim.reg_status), None);
    sim.reg_status = 1;
    assert_eq!(watcher.observe(sim.reg_status), Some("+CREG: 1".to_string()));
}

#[test]
fn registration_producer_looks_every_five_seconds() {
    assert_eq!(CREG_POLL_SECONDS, 5);
}
