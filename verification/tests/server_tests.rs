use taskmanager::backend::{
    check_login, history_command, history_key, like_pattern, load_state_command, minutes_key,
    read_count, record_commands, register_account, save_state_command, state_key, stats_commands,
    today_key, total_key, ServerError, EMAIL_TAKEN, UNKNOWN_ACCOUNT, WRONG_PASSWORD,
};
use taskmanager::pomodoro::{PomodoroPhase, PomodoroRecord, PomodoroStats};
use taskmanager::redis::{
    check_handshake_reply, default_host, default_port, i64_text, same_text, u64_text, Command,
    ConfigFile, RedisConfig,
};
use taskmanager::resp::{RespError, RespValue};

#[test]
fn login_checks_the_stored_hash() {
    let hash = bcrypt::hash("secret", 4).unwrap();
    assert_eq!(check_login("u@x".into(), Some(hash.clone()), "secret").unwrap(), "u@x");
    match check_login("u@x".into(), Some(hash), "wrong") {
        Err(ServerError::Response(m)) => assert_eq!(m, WRONG_PASSWORD),
        _ => panic!("wrong password"),
    }
    match check_login("u@x".into(), None, "secret") {
        Err(ServerError::Response(m)) => assert_eq!(m, UNKNOWN_ACCOUNT),
        _ => panic!("no account"),
    }
    match check_login("u@x".into(), Some("not a hash".into()), "secret") {
        Err(ServerError::Server(m)) => assert!(m.starts_with("Invalid hash")),
        _ => panic!("bad hash"),
    }
}

#[test]
fn registration_then_login() {
    match register_account(1, "pw") {
        Err(ServerError::Response(m)) => assert_eq!(m, EMAIL_TAKEN),
        _ => panic!("taken"),
    }
    let hash = register_account(0, "pw").unwrap();
    assert!(hash.starts_with("$2b$12$"));
    assert_eq!(check_login("n@x".into(), Some(hash), "pw").unwrap(), "n@x");
}

#[test]
fn user_search_pattern() {
    assert_eq!(like_pattern("bob"), "%bob%");
    assert_eq!(like_pattern(""), "%%");
}

#[test]
fn pomodoro_keys() {
    assert_eq!(state_key("a@b"), "pomodoro:state:a@b");
    assert_eq!(history_key("a@b"), "pomodoro:history:a@b");
    assert_eq!(total_key("a@b"), "pomodoro:stats:a@b:total");
    assert_eq!(today_key("a@b", "2024-05-01"), "pomodoro:stats:a@b:today:2024-05-01");
    assert_eq!(minutes_key("a@b", "2024-05-01"), "pomodoro:stats:a@b:minutes:2024-05-01");
}

fn words(c: &Command) -> Vec<String> {
    c.args()
}

#[test]
fn pomodoro_commands() {
    assert_eq!(
        words(&save_state_command("a", "{}".into())),
        vec!["SETEX", "pomodoro:state:a", "86400", "{}"]
    );
    assert_eq!(words(&load_state_command("a")), vec!["GET", "pomodoro:state:a"]);
    assert_eq!(words(&history_command("a")), vec!["LRANGE", "pomodoro:history:a", "0", "19"]);
    let stats = stats_commands("a", "d");
    assert_eq!(words(&stats[0]), vec!["GET", "pomodoro:stats:a:total"]);
    assert_eq!(words(&stats[1]), vec!["GET", "pomodoro:stats:a:today:d"]);
    assert_eq!(words(&stats[2]), vec!["GET", "pomodoro:stats:a:minutes:d"]);

    let work = PomodoroRecord {
        timestamp: "t".into(),
        phase: PomodoroPhase::Working,
        duration_minutes: 25,
        task_name: "x".into(),
    };
    let cmds = record_commands("a", &work, "J".into(), "d");
    let all: Vec<Vec<String>> = cmds.iter().map(words).collect();
    assert_eq!(
        all,
        vec![
            vec!["LPUSH", "pomodoro:history:a", "J"],
            vec!["INCR", "pomodoro:stats:a:total"],
            vec!["INCR", "pomodoro:stats:a:today:d"],
            vec!["EXPIRE", "pomodoro:stats:a:today:d", "172800"],
            vec!["INCRBY", "pomodoro:stats:a:minutes:d", "25"],
            vec!["EXPIRE", "pomodoro:stats:a:minutes:d", "172800"],
        ]
    );
    let rest = PomodoroRecord { phase: PomodoroPhase::ShortBreak, ..work };
    assert_eq!(record_commands("a", &rest, "J".into(), "d").len(), 1);
}

#[test]
fn counts_from_replies() {
    assert_eq!(read_count(&Some("12".into())), 12);
    assert_eq!(read_count(&Some("+3".into())), 3);
    assert_eq!(read_count(&Some("-3".into())), 0);
    assert_eq!(read_count(&Some("4294967296".into())), 0);
    assert_eq!(read_count(&None), 0);
    let s = PomodoroStats::from_replies(Some("10".into()), Some("2".into()), None);
    assert_eq!(s, PomodoroStats { today_count: 2, total_count: 10, today_focus_minutes: 0 });
}

#[test]
fn command_words_and_bytes() {
    assert_eq!(Command::Ping.args(), vec!["PING"]);
    assert_eq!(Command::SetString("k".into(), "v".into()).args(), vec!["SET", "k", "v"]);
    assert_eq!(Command::Select(3).args(), vec!["SELECT", "3"]);
    assert_eq!(Command::IncrBy("k".into(), -5).args(), vec!["INCRBY", "k", "-5"]);
    assert_eq!(Command::LRange("k".into(), 0, -1).args(), vec!["LRANGE", "k", "0", "-1"]);
    assert_eq!(Command::Ping.to_bytes(), b"*1\r\n$4\r\nPING\r\n".to_vec());
    assert_eq!(u64_text(u64::MAX), "18446744073709551615");
    assert_eq!(i64_text(-12), "-12");
    assert!(same_text("PONG", "PONG"));
    assert!(!same_text("PONG", "PONg"));
}

#[test]
fn replies() {
    assert!(RespValue::SimpleString("PONG".into()).is_pong());
    assert!(!RespValue::BulkString(Some(b"PONG".to_vec())).is_pong());
    assert_eq!(RespValue::Integer(4).integer_or_zero(), 4);
    assert_eq!(RespValue::BulkString(None).integer_or_zero(), 0);
    match RespValue::Error("ERR no".into()).into_reply() {
        Err(RespError::Redis(m)) => assert_eq!(m, "ERR no"),
        _ => panic!("error reply"),
    }
    assert!(RespValue::Integer(1).into_reply().is_ok());
    let list = RespValue::Array(Some(vec![
        RespValue::BulkString(Some(b"a".to_vec())),
        RespValue::Integer(1),
        RespValue::BulkString(Some(vec![0xff])),
        RespValue::SimpleString("b".into()),
    ]));
    assert_eq!(list.string_items(), vec!["a", "b"]);
    assert!(RespValue::Integer(1).string_items().is_empty());
}

#[test]
fn configuration() {
    assert_eq!(default_host(), "127.0.0.1");
    assert_eq!(default_port(), 6379);
    let d = RedisConfig::default();
    assert_eq!((d.host.as_str(), d.port, d.password.clone(), d.db), ("127.0.0.1", 6379, None, 0));
    let missing = RedisConfig::load(ConfigFile::Missing).unwrap();
    assert_eq!(missing.port, 6379);
    match RedisConfig::load(ConfigFile::Unparsable("bad".into())) {
        Err(RespError::Config(m)) => assert_eq!(m, "Failed to parse redis.json: bad"),
        _ => panic!("unparsable"),
    }
    match RedisConfig::load(ConfigFile::Unreadable("denied".into())) {
        Err(RespError::Config(m)) => assert_eq!(m, "Failed to read redis.json: denied"),
        _ => panic!("unreadable"),
    }
    let c = RedisConfig { host: "h".into(), port: 1, password: Some("pw".into()), db: 2 };
    let steps = c.handshake();
    assert_eq!(steps.len(), 2);
    assert_eq!(steps[0].args(), vec!["AUTH", "pw"]);
    assert_eq!(steps[1].args(), vec!["SELECT", "2"]);
    assert!(d.handshake().is_empty());
    match check_handshake_reply(&steps[0], &RespValue::Error("WRONGPASS".into()), false) {
        Err(RespError::Redis(m)) => assert_eq!(m, "AUTH failed: WRONGPASS"),
        _ => panic!("auth"),
    }
    match check_handshake_reply(&steps[1], &RespValue::Error("E".into()), true) {
        Err(RespError::Redis(m)) => assert_eq!(m, "SELECT failed on reconnect: E"),
        _ => panic!("select"),
    }
    assert!(check_handshake_reply(&steps[1], &RespValue::SimpleString("OK".into()), false).is_ok());
}

#[test]
fn keys_name_the_user() {
    assert_ne!(state_key("a@x"), state_key("b@x"));
    assert_ne!(history_key("a@x"), history_key("a@y"));
    assert_ne!(state_key("a"), history_key("a"));
}

#[test]
fn todays_commands_name_the_present_day() {
    let work = PomodoroRecord {
        timestamp: "t".into(),
        phase: PomodoroPhase::Working,
        duration_minutes: 25,
        task_name: "x".into(),
    };
    let cmds = taskmanager::backend::record_commands_today("a", &work, "J".into());
    assert_eq!(cmds.len(), 6);
    let today_key_text = &cmds[2].args()[1];
    let day = today_key_text.trim_start_matches("pomodoro:stats:a:today:");
    assert_eq!(day.len(), 10);
    assert_eq!(&day[4..5], "-");
    let stats = taskmanager::backend::stats_commands_today("a");
    assert_eq!(stats[1].args()[1], today_key_text.clone());
}

#[test]
fn saved_timer_is_read_back_by_its_load() {
    let json = "{\"task\":\"写报告\",\"remaining_seconds\":1200}".to_string();
    let save = save_state_command("a@b", json.clone());
    let load = load_state_command("a@b");
    let saved = words(&save);
    assert_eq!(words(&load)[1], saved[1]);
    assert_ne!(words(&load_state_command("c@d"))[1], saved[1]);
    let reply = RespValue::BulkString(Some(saved[3].as_bytes().to_vec()));
    assert_eq!(reply.as_string(), Some(json));
    assert_eq!(RespValue::BulkString(None).as_string(), None);
}
