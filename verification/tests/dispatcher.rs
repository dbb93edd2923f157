use sim868_emulator::command::{parse_command, Command, InfoKind};
use sim868_emulator::sim868::{batch_text, GSMConfig, GnssConfiguration, Sim868};

fn device() -> Sim868 {
    Sim868::new(true, GnssConfiguration::default())
}

fn lines(sim: &mut Sim868, command: &str) -> Vec<String> {
    sim.process_at(command).expect("there is a response to every line")
}

#[test]
fn new_device_has_default_configuration() {
    let sim = device();
    assert!(sim.power);
    assert!(sim.working);
    assert_eq!(sim.reg_status, 0);
    assert!(!sim.gnss_reporting);
    assert!(!sim.creg_reporting);
    assert_eq!(sim.configs.baudrate(), 115200);
    assert!(!sim.configs.echo());
    assert_eq!(sim.configs.cmee(), 0);
    assert_eq!(sim.configs.fun_mode(), None);
    assert_eq!(sim.configs.rst_mod(), None);
    assert!(!sim.configs.creg_urc());
    assert!(!sim.gnss.power());
    assert_eq!(sim.gnss.urc(), 5);
    assert!(!sim.gnss.urc_enabled());
}

#[test]
fn new_device_ignores_the_receiver_handed_in() {
    let mut gnss = GnssConfiguration::default();
    gnss.set_power(true);
    gnss.set_urc(9);
    let sim = Sim868::new(false, gnss);
    assert!(!sim.power);
    assert!(!sim.gnss.power());
    assert_eq!(sim.gnss.urc(), 5);
}

#[test]
fn fresh_configuration_matches_the_device_default() {
    let config = GSMConfig::new();
    assert_eq!(config.baudrate(), 115200);
    assert!(!config.echo());
    assert_eq!(config.cmee(), 0);
    assert_eq!(config.fun_mode(), None);
    assert_eq!(config.rst_mod(), None);
}

#[test]
fn attention_is_answered_by_one_line() {
    let mut sim = device();
    assert_eq!(lines(&mut sim, "AT"), vec!["AT\r\nOK".to_string()]);
    assert_eq!(sim.configs.fun_mode(), None);
    assert!(!sim.configs.echo());
}

#[test]
fn attention_is_not_echoed() {
    let mut sim = device();
    lines(&mut sim, "ATE1");
    assert!(sim.configs.echo());
    assert_eq!(lines(&mut sim, "AT"), vec!["AT\r\nOK".to_string()]);
    assert!(sim.configs.echo());
}

#[test]
fn short_lines_count_as_attention() {
    let mut sim = device();
    assert_eq!(lines(&mut sim, ""), vec!["AT\r\nOK".to_string()]);
    assert_eq!(lines(&mut sim, "A"), vec!["AT\r\nOK".to_string()]);
    assert_eq!(lines(&mut sim, "xy"), vec!["AT\r\nOK".to_string()]);
    assert_eq!(lines(&mut sim, "  AT \r"), vec!["AT\r\nOK".to_string()]);
    assert_eq!(lines(&mut sim, "\u{e9}"), vec!["AT\r\nOK".to_string()]);
}

#[test]
fn length_of_a_line_is_counted_in_bytes() {
    let mut sim = device();
    assert_eq!(parse_command("\u{65e5}"), Command::Unknown);
    assert_eq!(
        lines(&mut sim, "\u{65e5}"),
        vec!["Not Implemendted Command\u{65e5}".to_string()]
    );
}

#[test]
fn supported_baud_rate_is_acknowledged() {
    let mut sim = device();
    assert_eq!(lines(&mut sim, "AT+IPR=115200"), vec!["\r\nOK\r\n".to_string()]);
    assert_eq!(sim.configs.baudrate(), 115200);
}

#[test]
fn other_baud_rate_is_refused() {
    let mut sim = device();
    assert_eq!(lines(&mut sim, "AT+IPR=9600"), vec!["+CME ERROR:0".to_string()]);
    assert_eq!(sim.configs.baudrate(), 115200);
}

#[test]
fn refusal_is_not_echoed() {
    let mut sim = device();
    lines(&mut sim, "ATE1");
    assert_eq!(lines(&mut sim, "AT+IPR=9600"), vec!["+CME ERROR:0".to_string()]);
    assert_eq!(lines(&mut sim, "AT+CFUN=9"), vec!["+CME ERROR:0".to_string()]);
    assert_eq!(
        lines(&mut sim, "bogus"),
        vec!["Not Implemendted Commandbogus".to_string()]
    );
}

#[test]
fn baud_rate_is_read_as_an_unsigned_number() {
    let mut sim = device();
    assert_eq!(lines(&mut sim, "AT+IPR=+115200"), vec!["\r\nOK\r\n".to_string()]);
    assert_eq!(lines(&mut sim, "AT+IPR=00115200"), vec!["\r\nOK\r\n".to_string()]);
    assert_eq!(lines(&mut sim, "AT+IPR="), vec!["+CME ERROR:0".to_string()]);
    assert_eq!(lines(&mut sim, "AT+IPR=+"), vec!["+CME ERROR:0".to_string()]);
    assert_eq!(lines(&mut sim, "AT+IPR=115200x"), vec!["+CME ERROR:0".to_string()]);
    assert_eq!(lines(&mut sim, "AT+IPR=-115200"), vec!["+CME ERROR:0".to_string()]);
    assert_eq!(lines(&mut sim, "AT+IPR"), vec!["+CME ERROR:0".to_string()]);
    assert_eq!(
        lines(&mut sim, "AT+IPR=99999999999999999999999999"),
        vec!["+CME ERROR:0".to_string()]
    );
}

#[test]
fn baud_rate_query_reports_the_rate() {
    let mut sim = device();
    assert_eq!(
        lines(&mut sim, "AT+IPR?"),
        vec!["\r\n+IPR: 115200\r\n".to_string(), "\r\nOK\r\n".to_string()]
    );
    assert_eq!(lines(&mut sim, "AT+IPR?x"), vec!["+CME ERROR:0".to_string()]);
}

#[test]
fn full_functionality_runs_the_power_up_sequence() {
    let mut sim = device();
    assert_eq!(
        lines(&mut sim, "AT+CFUN=1"),
        vec![
            "\r\n+CREG: 0\r\n".to_string(),
            "\r\n+CPIN: READY\r\n".to_string(),
            "\r\n+CGREG:2\r\n".to_string(),
            "\r\nCall Ready\r\n".to_string(),
            "\r\nOK\r\n".to_string(),
        ]
    );
    assert_eq!(sim.configs.fun_mode(), Some(1));
    assert_eq!(sim.configs.rst_mod(), None);
}

#[test]
fn full_functionality_with_echo_ends_with_ok() {
    let mut sim = device();
    lines(&mut sim, "ATE1");
    let batch = lines(&mut sim, "AT+CFUN=1");
    assert_eq!(batch.len(), 6);
    assert_eq!(batch[0], "AT+CFUN=1\r");
    assert_eq!(batch[5], "\r\nOK\r\n");
    assert_eq!(sim.configs.fun_mode(), Some(1));
}

#[test]
fn other_functionality_modes_are_acknowledged() {
    let mut sim = device();
    assert_eq!(lines(&mut sim, "AT+CFUN=0"), vec!["\r\nOK\r\n".to_string()]);
    assert_eq!(sim.configs.fun_mode(), Some(0));
    assert_eq!(lines(&mut sim, "AT+CFUN=4"), vec!["\r\nOK\r\n".to_string()]);
    assert_eq!(sim.configs.fun_mode(), Some(4));
}

#[test]
fn reset_mode_is_stored_and_announced() {
    let mut sim = device();
    assert_eq!(
        lines(&mut sim, "AT+CFUN=0,1"),
        vec!["\r\nOK\r\n".to_string(), "\r\n+CFUN=1\r\n".to_string()]
    );
    assert_eq!(sim.configs.fun_mode(), Some(0));
    assert_eq!(sim.configs.rst_mod(), Some(1));
    assert_eq!(lines(&mut sim, "AT+CFUN=4,0"), vec!["\r\nOK\r\n".to_string()]);
    assert_eq!(sim.configs.rst_mod(), Some(0));
    let batch = lines(&mut sim, "AT+CFUN=1,1");
    assert_eq!(batch.len(), 6);
    assert_eq!(batch[4], "\r\nOK\r\n");
    assert_eq!(batch[5], "\r\n+CFUN=1\r\n");
}

#[test]
fn stored_modes_stay_until_assigned_anew() {
    let mut sim = device();
    lines(&mut sim, "AT+CFUN=4,1");
    lines(&mut sim, "AT+CMEE=2");
    lines(&mut sim, "ATE1");
    lines(&mut sim, "AT+CFUN=7");
    lines(&mut sim, "AT+IPR=9600");
    lines(&mut sim, "nonsense");
    assert_eq!(sim.configs.fun_mode(), Some(4));
    assert_eq!(sim.configs.rst_mod(), Some(1));
    lines(&mut sim, "AT+CFUN=0");
    assert_eq!(sim.configs.fun_mode(), Some(0));
    assert_eq!(sim.configs.rst_mod(), Some(1));
}

#[test]
fn malformed_functionality_command_is_refused() {
    let mut sim = device();
    for command in [
        "AT+CFUN", "AT+CFUN=", "AT+CFUN=2", "AT+CFUN=7", "AT+CFUN=1,", "AT+CFUN=1,x",
        "AT+CFUN=1;1", "AT+CFUN=1,11", "AT+CFUN=?", "AT+CFUN??", "AT+CFUN=a",
    ] {
        assert_eq!(lines(&mut sim, command), vec!["+CME ERROR:0".to_string()]);
        assert_eq!(sim.configs.fun_mode(), None);
        assert_eq!(sim.configs.rst_mod(), None);
    }
}

#[test]
fn functionality_query_reports_the_stored_mode() {
    let mut sim = device();
    assert_eq!(lines(&mut sim, "AT+CFUN?"), vec!["+CME ERROR:0".to_string()]);
    lines(&mut sim, "AT+CFUN=4");
    assert_eq!(
        lines(&mut sim, "AT+CFUN?"),
        vec!["\r\n+CFUN: 4\r\n".to_string(), "\r\nOK\r\n".to_string()]
    );
    assert_eq!(sim.configs.fun_mode(), Some(4));
}

#[test]
fn saving_the_settings_is_acknowledged() {
    let mut sim = device();
    assert_eq!(lines(&mut sim, "AT&W"), vec!["\r\nOK\r\n".to_string()]);
    assert_eq!(lines(&mut sim, "AT&W0"), vec!["\r\nOK\r\n".to_string()]);
}

#[test]
fn echo_is_switched_on_and_off() {
    let mut sim = device();
    assert_eq!(lines(&mut sim, "ATE1"), vec!["\r\nOK\r\n".to_string()]);
    assert!(sim.configs.echo());
    assert_eq!(
        lines(&mut sim, "AT&W"),
        vec!["AT&W\r".to_string(), "\r\nOK\r\n".to_string()]
    );
    assert_eq!(
        lines(&mut sim, "ATE0"),
        vec!["ATE0\r".to_string(), "\r\nOK\r\n".to_string()]
    );
    assert!(!sim.configs.echo());
    assert_eq!(lines(&mut sim, "AT&W"), vec!["\r\nOK\r\n".to_string()]);
}

#[test]
fn echo_repeats_the_line_as_it_came() {
    let mut sim = device();
    lines(&mut sim, "ATE1");
    assert_eq!(
        lines(&mut sim, "  AT+CGMI \t"),
        vec![
            "  AT+CGMI \t\r".to_string(),
            "\r\nSIMCOM_Ltd\r\n".to_string(),
            "\r\nOK\r\n".to_string(),
        ]
    );
}

#[test]
fn malformed_echo_command_is_refused() {
    let mut sim = device();
    for command in ["ATE", "ATE2", "ATE11", "ATEx", "ATE 1"] {
        assert_eq!(lines(&mut sim, command), vec!["+CME ERROR:0".to_string()]);
        assert!(!sim.configs.echo());
    }
}

#[test]
fn verbosity_is_stored() {
    let mut sim = device();
    for level in 0u8..=2 {
        let command = format!("AT+CMEE={}", level);
        assert_eq!(lines(&mut sim, &command), vec!["\r\nOK\r\n".to_string()]);
        assert_eq!(sim.configs.cmee(), level);
    }
    for command in ["AT+CMEE=3", "AT+CMEE", "AT+CMEE?", "AT+CMEE=", "AT+CMEE=12", "AT+CMEE=x"] {
        assert_eq!(lines(&mut sim, command), vec!["+CME ERROR:0".to_string()]);
        assert_eq!(sim.configs.cmee(), 2);
    }
}

#[test]
fn identification_texts_are_fixed() {
    let mut sim = device();
    let expected = [
        ("AT+CGMI", "\r\nSIMCOM_Ltd\r\n"),
        ("AT+CGMM", "\r\nSIMCOM_SIM868\r\n"),
        ("AT+CGSN", "\r\n86737803397915\r\n"),
        ("AT+CGMR", "\r\n1418B05Scustome\r\n"),
    ];
    for (command, text) in expected {
        assert_eq!(
            lines(&mut sim, command),
            vec![text.to_string(), "\r\nOK\r\n".to_string()]
        );
    }
    lines(&mut sim, "AT+CFUN=4,1");
    lines(&mut sim, "AT+CMEE=1");
    lines(&mut sim, "AT+CREG=1");
    sim.reg_status = 3;
    sim.power = false;
    for (command, text) in expected {
        assert_eq!(
            lines(&mut sim, command),
            vec![text.to_string(), "\r\nOK\r\n".to_string()]
        );
    }
}

#[test]
fn identification_command_takes_no_argument() {
    let mut sim = device();
    for command in ["AT+CGMI?", "AT+CGMMx", "AT+CGSN=1", "AT+CGMR "] {
        let expected = if command == "AT+CGMR " {
            vec!["\r\n1418B05Scustome\r\n".to_string(), "\r\nOK\r\n".to_string()]
        } else {
            vec!["+CME ERROR:0".to_string()]
        };
        assert_eq!(lines(&mut sim, command), expected);
    }
}

#[test]
fn registration_reports_are_switched_on() {
    let mut sim = device();
    assert_eq!(lines(&mut sim, "AT+CREG=1"), vec!["\r\nOK\r\n".to_string()]);
    assert!(sim.configs.creg_urc());
    assert!(sim.creg_reporting);
    assert_eq!(lines(&mut sim, "AT+CREG=1"), vec!["\r\nOK\r\n".to_string()]);
    assert!(sim.creg_reporting);
    assert_eq!(lines(&mut sim, "AT+CREG=0"), vec!["\r\nOK\r\n".to_string()]);
    assert!(!sim.configs.creg_urc());
    assert!(sim.creg_reporting);
}

#[test]
fn switching_registration_reports_off_starts_nothing() {
    let mut sim = device();
    assert_eq!(lines(&mut sim, "AT+CREG=0"), vec!["\r\nOK\r\n".to_string()]);
    assert!(!sim.creg_reporting);
    assert_eq!(
        lines(&mut sim, "AT+CREG?"),
        vec!["\r\n+CREG: 0,0\r\n".to_string(), "\r\nOK\r\n".to_string()]
    );
    assert!(!sim.creg_reporting);
}

#[test]
fn registration_query_reports_setting_and_status() {
    let mut sim = device();
    lines(&mut sim, "AT+CREG=1");
    sim.reg_status = 5;
    assert_eq!(
        lines(&mut sim, "AT+CREG?"),
        vec!["\r\n+CREG: 1,5\r\n".to_string(), "\r\nOK\r\n".to_string()]
    );
    sim.reg_status = 255;
    assert_eq!(
        lines(&mut sim, "AT+CREG?"),
        vec!["\r\n+CREG: 1,255\r\n".to_string(), "\r\nOK\r\n".to_string()]
    );
}

#[test]
fn malformed_registration_command_is_refused() {
    let mut sim = device();
    for command in ["AT+CREG", "AT+CREG=2", "AT+CREG=", "AT+CREG=11", "AT+CREG?1"] {
        assert_eq!(lines(&mut sim, command), vec!["+CME ERROR:0".to_string()]);
        assert!(!sim.configs.creg_urc());
        assert!(!sim.creg_reporting);
    }
}

#[test]
fn unknown_line_is_repeated_verbatim() {
    let mut sim = device();
    assert_eq!(
        lines(&mut sim, "ATD12345;"),
        vec!["Not Implemendted CommandATD12345;".to_string()]
    );
    assert_eq!(
        lines(&mut sim, "  hello world  "),
        vec!["Not Implemendted Command  hello world  ".to_string()]
    );
    assert_eq!(
        lines(&mut sim, "at+cgmi"),
        vec!["Not Implemendted Commandat+cgmi".to_string()]
    );
}

#[test]
fn commands_leave_power_receiver_and_status_alone() {
    let mut sim = device();
    sim.reg_status = 2;
    sim.gnss.set_power(true);
    sim.gnss.set_urc(7);
    for command in ["AT", "AT+CFUN=1,1", "ATE1", "AT+CMEE=1", "AT+CREG=1", "AT+IPR?", "x y z"] {
        lines(&mut sim, command);
        assert!(sim.power);
        assert!(sim.working);
        assert_eq!(sim.reg_status, 2);
        assert!(sim.gnss.power());
        assert_eq!(sim.gnss.urc(), 7);
        assert!(!sim.gnss_reporting);
    }
}

#[test]
fn rejects_tells_what_process_at_refuses() {
    let mut sim = device();
    assert!(sim.rejects(Command::Malformed));
    assert!(sim.rejects(Command::SetBaud { rate: 9600 }));
    assert!(!sim.rejects(Command::SetBaud { rate: 115200 }));
    assert!(sim.rejects(Command::QueryFunction));
    assert!(!sim.rejects(Command::Unknown));
    assert!(!sim.rejects(Command::Attention));
    lines(&mut sim, "AT+CFUN=0");
    assert!(!sim.rejects(Command::QueryFunction));
}

#[test]
fn cfun_handles_its_own_lines_only() {
    let mut sim = device();
    assert_eq!(sim.cfun("AT+CFUN=4,2"), vec!["\r\nOK\r\n".to_string()]);
    assert_eq!(sim.configs.fun_mode(), Some(4));
    assert_eq!(sim.configs.rst_mod(), Some(2));
    assert_eq!(
        sim.cfun("AT+CFUN?"),
        vec!["\r\n+CFUN: 4\r\n".to_string(), "\r\nOK\r\n".to_string()]
    );
    assert_eq!(sim.cfun("ATE1"), vec!["+CME ERROR:0".to_string()]);
    assert!(!sim.configs.echo());
    assert_eq!(sim.cfun("AT"), vec!["+CME ERROR:0".to_string()]);
}

#[test]
fn ipr_answers_with_one_line() {
    let mut sim = device();
    assert_eq!(sim.ipr("AT+IPR=115200"), "\r\nOK\r\n");
    assert_eq!(sim.ipr("AT+IPR=57600"), "+CME ERROR:0");
    assert_eq!(sim.ipr("AT+IPR?"), "\r\n+IPR: 115200\r\n");
    assert_eq!(sim.ipr("AT+IPR"), "+CME ERROR:0");
    assert_eq!(sim.ipr("AT+CMEE=1"), "+CME ERROR:0");
    assert_eq!(sim.configs.cmee(), 0);
    assert_eq!(sim.configs.baudrate(), 115200);
}

#[test]
fn echo_answers_with_one_line() {
    let mut sim = device();
    assert_eq!(sim.echo("ATE1"), "\r\nOK\r\n");
    assert!(sim.configs.echo());
    assert_eq!(sim.echo("ATE7"), "+CME ERROR:0");
    assert!(sim.configs.echo());
    assert_eq!(sim.echo("ATE0"), "\r\nOK\r\n");
    assert!(!sim.configs.echo());
    assert_eq!(sim.echo("AT+CGMI"), "+CME ERROR:0");
}

#[test]
fn cmee_answers_with_one_line() {
    let mut sim = device();
    assert_eq!(sim.cmee("AT+CMEE=2"), "\r\nOK\r\n");
    assert_eq!(sim.configs.cmee(), 2);
    assert_eq!(sim.cmee("AT+CMEE=9"), "+CME ERROR:0");
    assert_eq!(sim.cmee("AT+CREG=1"), "+CME ERROR:0");
    assert_eq!(sim.configs.cmee(), 2);
    assert!(!sim.configs.creg_urc());
}

#[test]
fn manu_info_answers_with_the_text() {
    let mut sim = device();
    assert_eq!(sim.manu_info("AT+CGMI"), "\r\nSIMCOM_Ltd\r\n");
    assert_eq!(sim.manu_info("AT+CGMM"), "\r\nSIMCOM_SIM868\r\n");
    assert_eq!(sim.manu_info("AT+CGSN"), "\r\n86737803397915\r\n");
    assert_eq!(sim.manu_info("AT+CGMR"), "\r\n1418B05Scustome\r\n");
    assert_eq!(sim.manu_info("AT+CGMX"), "+CME ERROR:0");
    assert_eq!(sim.manu_info("AT+CGMI1"), "+CME ERROR:0");
}

#[test]
fn creg_answers_with_one_line() {
    let mut sim = device();
    sim.reg_status = 1;
    assert_eq!(sim.creg("AT+CREG?"), "\r\n+CREG: 0,1\r\n");
    assert_eq!(sim.creg("AT+CREG=1"), "\r\nOK\r\n");
    assert!(sim.creg_reporting);
    assert_eq!(sim.creg("AT+CREG?"), "\r\n+CREG: 1,1\r\n");
    assert_eq!(sim.creg("AT+CREG=3"), "+CME ERROR:0");
    assert_eq!(sim.creg("AT+CMEE=1"), "+CME ERROR:0");
    assert_eq!(sim.configs.cmee(), 0);
}

#[test]
fn batch_text_joins_the_lines_in_order() {
    let mut sim = device();
    let batch = lines(&mut sim, "AT+CGMM");
    assert_eq!(batch_text(&batch), "\r\nSIMCOM_SIM868\r\n\r\nOK\r\n");
    assert_eq!(batch_text(&Vec::new()), "");
    let boot = lines(&mut sim, "AT+CFUN=1");
    assert_eq!(
        batch_text(&boot),
        "\r\n+CREG: 0\r\n\r\n+CPIN: READY\r\n\r\n+CGREG:2\r\n\r\nCall Ready\r\n\r\nOK\r\n"
    );
}

#[test]
fn lines_are_read_as_commands() {
    assert_eq!(parse_command("AT"), Command::Attention);
    assert_eq!(parse_command("AT+CFUN?"), Command::QueryFunction);
    assert_eq!(
        parse_command("AT+CFUN=1"),
        Command::SetFunction { mode: 1, reset: None }
    );
    assert_eq!(
        parse_command(" AT+CFUN=4,9\r\n"),
        Command::SetFunction { mode: 4, reset: Some(9) }
    );
    assert_eq!(parse_command("AT+IPR=300"), Command::SetBaud { rate: 300 });
    assert_eq!(
        parse_command("AT+IPR=18446744073709551615"),
        Command::SetBaud { rate: u64::MAX }
    );
    assert_eq!(parse_command("AT+IPR=18446744073709551616"), Command::Malformed);
    assert_eq!(parse_command("AT+IPR?"), Command::QueryBaud);
    assert_eq!(parse_command("AT&W"), Command::Save);
    assert_eq!(parse_command("AT&Wanything"), Command::Save);
    assert_eq!(parse_command("ATE0"), Command::SetEcho { on: false });
    assert_eq!(parse_command("ATE1"), Command::SetEcho { on: true });
    assert_eq!(parse_command("AT+CMEE=0"), Command::SetVerbosity { level: 0 });
    assert_eq!(
        parse_command("AT+CGMI"),
        Command::Info { kind: InfoKind::Manufacturer }
    );
    assert_eq!(parse_command("AT+CGMM"), Command::Info { kind: InfoKind::Model });
    assert_eq!(parse_command("AT+CGSN"), Command::Info { kind: InfoKind::Serial });
    assert_eq!(
        parse_command("AT+CGMR"),
        Command::Info { kind: InfoKind::Revision }
    );
    assert_eq!(parse_command("AT+CREG=1"), Command::SetRegistration { urc: true });
    assert_eq!(parse_command("AT+CREG=0"), Command::SetRegistration { urc: false });
    assert_eq!(parse_command("AT+CREG?"), Command::QueryRegistration);
    assert_eq!(parse_command("AT+CREG!"), Command::Malformed);
    assert_eq!(parse_command("AT+"), Command::Unknown);
    assert_eq!(parse_command("ATZ"), Command::Unknown);
    assert_eq!(parse_command("AT E1"), Command::Unknown);
}
