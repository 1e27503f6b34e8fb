use std::collections::HashSet;

use jotabot::commands::server::{
    capture_filter, check, keep_listening, get_ign, get_ip, get_server_ip, ipv4_string, is_process_running, login_table,
    names_for_players, parse_ipv4, record_frame, register, run, socket_address, start, CheckStep, Interface, IpAddress,
    ServerOption, ServerRequest, GAME_PORT, LOG_PATH,
};
use jotabot::options::{CommandOption, OptionValue};

fn ip(a: u8, b: u8, c: u8, d: u8) -> u32 {
    u32::from_be_bytes([a, b, c, d])
}

fn reply(step: CheckStep) -> Result<String, String> {
    match step {
        CheckStep::Reply(r) => r,
        CheckStep::Capture => panic!("capture"),
        CheckStep::ReadLog => panic!("read log"),
    }
}

const LOG: &str = "[12:00:01] [Server thread/INFO]: Steve[/192.168.0.10:51234] logged in with entity id 101 at (1, 2, 3)\n\
[12:00:05] [Server thread/INFO]: Alex[/10.0.0.7:40000] logged in with entity id 102 at (4, 5, 6)\n\
[12:10:00] [Server thread/INFO]: Herobrine[/192.168.0.10:51999] logged in with entity id 103 at (0, 0, 0)\n";

#[test]
fn option_names() {
    for o in [ServerOption::Check, ServerOption::Start, ServerOption::Stop, ServerOption::Ip] {
        assert_eq!(ServerOption::from_name(&o.name()), Some(o));
    }
    assert_eq!(ServerOption::Check.name(), "check");
    assert_eq!(ServerOption::from_name("Check"), None);
}

#[test]
fn server_requests() {
    let o = |v: OptionValue| vec![CommandOption { name: "action".to_string(), value: v }];
    assert_eq!(run(9, &o(OptionValue::Text("check".into()))), Ok(ServerRequest::Check));
    assert_eq!(run(9, &o(OptionValue::Text("start".into()))), Ok(ServerRequest::Start));
    assert_eq!(run(9, &o(OptionValue::Text("ip".into()))), Ok(ServerRequest::Ip { user: 9 }));
    assert_eq!(run(9, &o(OptionValue::Text("stop".into()))), Err("Not implemented".to_string()));
    assert_eq!(run(9, &o(OptionValue::Text("reboot".into()))), Err("Invalid option".to_string()));
    assert_eq!(run(9, &o(OptionValue::User(3))), Err("No option".to_string()));
    assert_eq!(run(9, &vec![]), Err("No option".to_string()));
}

#[test]
fn registration_offers_known_actions() {
    let c = register();
    assert_eq!(c.name, "servidor");
    assert_eq!(c.description, "Checar status do servidor");
    assert_eq!(c.options.len(), 1);
    assert_eq!(c.options[0].name, "action");
    assert_eq!(c.options[0].description, "action related to the server");
    assert!(c.options[0].required);
    let values: Vec<&str> = c.options[0].choices.iter().map(|c| c.1.as_str()).collect();
    assert_eq!(values, ["start", "check", "stop", "ip"]);
    for (n, v) in &c.options[0].choices {
        assert_eq!(n, v);
        assert!(ServerOption::from_name(v).is_some());
    }
}

#[test]
fn addresses() {
    assert_eq!(ipv4_string(ip(192, 168, 0, 10)), "192.168.0.10");
    assert_eq!(ipv4_string(0), "0.0.0.0");
    assert_eq!(ipv4_string(u32::MAX), "255.255.255.255");
    assert_eq!(socket_address("10.0.0.2", GAME_PORT), "10.0.0.2:25565");
    assert_eq!(capture_filter(GAME_PORT), "tcp dst port 25565");
    let ifaces = vec![
        Interface { loopback: true, address: IpAddress::V4(ip(127, 0, 0, 1)) },
        Interface { loopback: false, address: IpAddress::V6(1) },
        Interface { loopback: false, address: IpAddress::V4(ip(10, 1, 2, 3)) },
        Interface { loopback: false, address: IpAddress::V4(ip(10, 9, 9, 9)) },
    ];
    assert_eq!(get_ip(&ifaces), Some("10.1.2.3".to_string()));
    assert_eq!(get_ip(&ifaces[..2].to_vec()), None);
}

#[test]
fn frames_record_their_source() {
    let mut frame = vec![0u8; 60];
    frame[26..30].copy_from_slice(&[172, 16, 5, 4]);
    let mut seen = HashSet::new();
    record_frame(&mut seen, &frame);
    record_frame(&mut seen, &frame);
    frame[29] = 5;
    record_frame(&mut seen, &frame[..34]);
    assert_eq!(seen, HashSet::from([ip(172, 16, 5, 4), ip(172, 16, 5, 5)]));
    assert_eq!(ipv4_string(ip(172, 16, 5, 4)), "172.16.5.4");
}

#[test]
fn check_steps() {
    assert_eq!(reply(check(false, None, None)), Err("O servidor está **fechado**.".to_string()));
    assert!(matches!(check(true, None, None), CheckStep::Capture));
    assert_eq!(reply(check(true, Some(&Err("no device".to_string())), None)), Err("O servidor está **aberto**. no device".to_string()));
    let none: Result<HashSet<u32>, String> = Ok(HashSet::new());
    assert_eq!(reply(check(true, Some(&none), None)), Ok("O servidor está **aberto** sem jogadores.".to_string()));
    let one: Result<HashSet<u32>, String> = Ok(HashSet::from([ip(10, 0, 0, 7)]));
    assert!(matches!(check(true, Some(&one), None), CheckStep::ReadLog));
    assert_eq!(reply(check(true, Some(&one), Some(&Err("missing".to_string())))), Err("missing".to_string()));
    assert_eq!(reply(check(true, Some(&one), Some(&Ok(vec!["Alex".to_string()])))), Ok("O servidor está **aberto** com o jogador:\n- Alex".to_string()));
    let two: Result<HashSet<u32>, String> = Ok(HashSet::from([ip(10, 0, 0, 7), ip(192, 168, 0, 10)]));
    let names = Ok(vec!["Alex".to_string(), "Herobrine".to_string()]);
    assert_eq!(reply(check(true, Some(&two), Some(&names))), Ok("O servidor está **aberto** com os jogadores:\n- Alex\n- Herobrine".to_string()));
    assert_eq!(reply(check(false, Some(&two), Some(&names))), Err("O servidor está **fechado**.".to_string()));
}

#[test]
fn names_from_the_log() {
    let ips = HashSet::from([ip(10, 0, 0, 7), ip(192, 168, 0, 10)]);
    let names = get_ign(&ips, LOG).unwrap();
    let expected: Vec<&str> = ips
        .iter()
        .map(|a| if *a == ip(10, 0, 0, 7) { "Alex" } else { "Herobrine" })
        .collect();
    assert_eq!(names, expected);
    let one = HashSet::from([ip(192, 168, 0, 10)]);
    assert_eq!(get_ign(&one, LOG), Some(vec!["Herobrine".to_string()]));
    assert_eq!(get_ign(&HashSet::new(), LOG), Some(vec![]));
    let stranger = HashSet::from([ip(1, 2, 3, 4)]);
    assert_eq!(get_ign(&stranger, LOG), None);
    let bad = "Eve[/999.1.1.1:5] logged in with entity id 7";
    assert_eq!(get_ign(&HashSet::new(), bad), None);
    assert!(LOG_PATH.ends_with("logs/latest.log"));
}

#[test]
fn login_table_and_lookup() {
    let caps = vec![
        vec![Some("a".to_string()), Some("Steve".to_string()), Some("1.2.3.4".to_string())],
        vec![Some("b".to_string()), Some("Alex".to_string()), Some("1.2.3.4".to_string())],
    ];
    let table = login_table(&caps).unwrap();
    assert_eq!(table.len(), 1);
    assert_eq!(table[&ip(1, 2, 3, 4)], "Alex");
    assert_eq!(names_for_players(&HashSet::from([ip(1, 2, 3, 4)]), &table), ["Alex"]);
    assert!(login_table(&vec![vec![Some("a".to_string()), None, Some("1.2.3.4".to_string())]]).is_none());
    assert!(login_table(&vec![vec![Some("a".to_string()), Some("x".to_string()), Some("01.2.3.4".to_string())]]).is_none());
    assert!(login_table(&vec![vec![Some("a".to_string())]]).is_none());
}

#[test]
fn process_search() {
    let out = b"1234 java -Xmx4G -jar craftbukkit-1.21.jar nogui\n5678 bash\n";
    assert!(is_process_running(true, out, "craftbukkit-1.21.jar"));
    assert!(!is_process_running(false, out, "craftbukkit-1.21.jar"));
    assert!(!is_process_running(true, b"5678 bash\n", "craftbukkit-1.21.jar"));
    assert!(!is_process_running(true, b"", ""));
    assert!(is_process_running(true, b"abc\xff craftbukkit\n", "\u{FFFD} craft"));
}

#[test]
fn start_plan() {
    assert_eq!(start(true).err(), Some("Somente uma instância do servidor é permitida.".to_string()));
    let plan = start(false).ok().unwrap();
    assert_eq!(plan.commands.len(), 2);
    assert_eq!(plan.commands[0].program, "zellij");
    assert_eq!(plan.commands[0].args, ["attach", "--create-background", "servermine"]);
    assert_eq!(plan.commands[1].args, ["--session", "servermine", "run", "--in-place", "--", "sh", "/home/lucas/Desktop/testetetete/run.sh"]);
    assert_eq!(plan.activity, "Servidor aberto");
    assert_eq!(plan.reply, "Servidor iniciado");
}

#[test]
fn server_address_permissions() {
    let gif = "https://tenor.com/view/fuwamoco-fuwawa-mococo-%E3%83%95%E3%83%AF%E3%83%AF-%E3%83%A2%E3%82%B3%E3%82%B3-gif-17545042085204053426";
    assert_eq!(get_server_ip(1, (1, 2), Some(ip(200, 1, 2, 3))), Ok("IP do servidor: `200.1.2.3`".to_string()));
    assert_eq!(get_server_ip(2, (1, 2), None), Ok(format!("Erro retornando IP. {gif}")));
    assert_eq!(get_server_ip(3, (1, 2), Some(ip(200, 1, 2, 3))), Err(format!("Sem permissão seu BOSTA {gif}")));
}

#[test]
fn listening_window() {
    assert!(keep_listening(0));
    assert!(keep_listening(799_999_999));
    assert!(!keep_listening(800_000_000));
    assert!(!keep_listening(u128::MAX));
}

#[test]
fn dotted_quad_parsing() {
    assert_eq!(parse_ipv4("192.168.0.10"), Some(ip(192, 168, 0, 10)));
    assert_eq!(parse_ipv4("0.0.0.0"), Some(0));
    assert_eq!(parse_ipv4("255.255.255.255"), Some(u32::MAX));
    assert_eq!(parse_ipv4("10.0.0.7"), Some(ip(10, 0, 0, 7)));
    for bad in [
        "", "1.2.3", "1.2.3.4.5", "256.1.1.1", "1.2.3.256", "01.2.3.4", "1.2.3.04", "1.2.3.00", "1..2.3",
        " 1.2.3.4", "1.2.3.4 ", "1.2.3.4.", ".1.2.3.4", "1.2.3.1000", "1.2.3.a", "1,2,3,4", "+1.2.3.4",
    ] {
        assert_eq!(parse_ipv4(bad), None, "{bad}");
    }
    for a in [ip(0, 0, 0, 0), ip(1, 20, 255, 9), ip(127, 0, 0, 1), ip(99, 100, 101, 250)] {
        assert_eq!(parse_ipv4(&ipv4_string(a)), Some(a));
    }
}
