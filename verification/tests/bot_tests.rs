use chrono::Datelike;
use palabot::answer::{
    answer, mute_until, parse_block_args, start_message, AnswerAction, AnswerEvent, AnswerState, Command,
    SearchQuota, MONTHLY_SEARCH_LIMIT, START_TEXT,
};
use palabot::birthdays::{birthday_greetings, birthday_reply, check_birthdays, greeting_for, today_key, Greeting, User};
use palabot::scheduler::{birthday_scheduler_step, SchedulerAction, SchedulerEvent, SchedulerState};
use palabot::search::{organic_result_message, search_options, search_replies, OrganicResult, SearchResults};

fn user(name: &str, birthday: &str, chat_id: i64) -> User {
    User { name: name.to_string(), birthday: birthday.to_string(), chat_id }
}

fn users() -> Vec<User> {
    vec![user("ana", "05-03", 1), user("luis", "12-11", 2), user("ana", "01-01", 3), user("eva", "05-03", 4)]
}

fn texts(messages: &[String]) -> Vec<&str> {
    messages.iter().map(|m| m.as_str()).collect()
}

#[test]
fn today_key_pads_day_and_month() {
    assert_eq!(today_key(5, 3), "05-03");
    assert_eq!(today_key(12, 11), "12-11");
    assert_eq!(today_key(31, 12), "31-12");
}

#[test]
fn greetings_go_to_todays_users_in_order() {
    let gs = birthday_greetings(&users(), &"05-03".to_string());
    assert_eq!(
        gs,
        vec![
            Greeting { chat_id: 1, text: "¡Feliz Cumpleaños ana! Toda la palabanda está de fiesta.".to_string() },
            Greeting { chat_id: 4, text: "¡Feliz Cumpleaños eva! Toda la palabanda está de fiesta.".to_string() },
        ]
    );
    assert!(birthday_greetings(&users(), &"06-03".to_string()).is_empty());
    assert!(birthday_greetings(&Vec::new(), &"05-03".to_string()).is_empty());
    assert_eq!(greeting_for(&"x".to_string()), "¡Feliz Cumpleaños x! Toda la palabanda está de fiesta.");
}

#[test]
fn check_birthdays_uses_the_local_date() {
    let now = chrono::Local::now();
    let key = format!("{:02}-{:02}", now.day(), now.month());
    let db = vec![user("hoy", &key, 7), user("otro", "00-00", 8)];
    let gs = check_birthdays(&db);
    // Around midnight the date may change between the two readings.
    if chrono::Local::now().day() == now.day() {
        assert_eq!(gs.len(), 1);
        assert_eq!(gs[0].chat_id, 7);
    }
}

#[test]
fn birthday_reply_finds_the_first_match() {
    assert_eq!(birthday_reply(&users(), &"ana".to_string()), "🎂 El cumpleaños de ana es el 05-03.");
    assert_eq!(birthday_reply(&users(), &"luis".to_string()), "🎂 El cumpleaños de luis es el 12-11.");
    assert_eq!(
        birthday_reply(&users(), &"@ana".to_string()),
        "❌ No encontré a @ana en mi base de datos."
    );
    assert_eq!(birthday_reply(&Vec::new(), &"".to_string()), "❌ No encontré a  en mi base de datos.");
}

#[test]
fn search_options_name_key_engine_and_query() {
    let opts = search_options(&"KEY".to_string(), &"rust verus".to_string());
    assert_eq!(
        opts,
        vec![
            ("api_key".to_string(), "KEY".to_string()),
            ("engine".to_string(), "google".to_string()),
            ("q".to_string(), "rust verus".to_string()),
        ]
    );
}

fn organic(title: Option<&str>, link: Option<&str>, snippet: Option<&str>) -> OrganicResult {
    OrganicResult {
        title: title.map(|s| s.to_string()),
        link: link.map(|s| s.to_string()),
        snippet: snippet.map(|s| s.to_string()),
    }
}

#[test]
fn search_replies_prefer_the_ai_overview() {
    let r = SearchResults {
        ai_overview: Some(vec![Some("respuesta".to_string()), Some("otra".to_string())]),
        organic_results: Some(vec![organic(Some("t"), Some("l"), Some("s"))]),
    };
    let reply = search_replies(&r);
    assert_eq!(texts(&reply.messages), vec!["respuesta"]);
    assert!(!reply.must_deliver);

    let r = SearchResults { ai_overview: Some(vec![None]), organic_results: None };
    assert_eq!(texts(&search_replies(&r).messages), vec!["No se encontró una respuesta de la IA."]);

    let r = SearchResults { ai_overview: Some(vec![]), organic_results: None };
    let reply = search_replies(&r);
    assert_eq!(texts(&reply.messages), vec!["No se encontraron referencias."]);
    assert!(!reply.must_deliver);
}

#[test]
fn search_replies_give_the_first_organic_result() {
    let r = SearchResults {
        ai_overview: None,
        organic_results: Some(vec![
            organic(Some("Título"), Some("https://a"), Some("resumen")),
            organic(None, None, None),
        ]),
    };
    let reply = search_replies(&r);
    assert!(reply.must_deliver);
    assert_eq!(
        texts(&reply.messages),
        vec!["🌐Resultados de la Busqueda\n\n", "https://a\n\nTítulo\n\nresumen\n\n"]
    );
    let r = SearchResults { ai_overview: None, organic_results: Some(vec![organic(None, None, None)]) };
    assert_eq!(
        texts(&search_replies(&r).messages),
        vec!["🌐Resultados de la Busqueda\n\n", "\n\nSin título\n\n\n\n"]
    );
    assert_eq!(organic_result_message(&organic(Some("a"), Some("b"), None)), "b\n\na\n\n\n\n");

    let r = SearchResults { ai_overview: None, organic_results: Some(vec![]) };
    assert_eq!(texts(&search_replies(&r).messages), vec!["🌐Resultados de la Busqueda\n\n"]);

    let r = SearchResults { ai_overview: None, organic_results: None };
    let reply = search_replies(&r);
    assert_eq!(texts(&reply.messages), vec!["Google no proporcionó referencias de IA."]);
    assert!(reply.must_deliver);
}

#[test]
fn block_args_name_user_and_minutes() {
    assert_eq!(parse_block_args(&"@ana".to_string()), Some(("ana".to_string(), 60)));
    assert_eq!(parse_block_args(&"  @@ana  15  extra".to_string()), Some(("ana".to_string(), 15)));
    assert_eq!(parse_block_args(&"ana +5".to_string()), Some(("ana".to_string(), 5)));
    assert_eq!(parse_block_args(&"".to_string()), None);
    assert_eq!(parse_block_args(&"   ".to_string()), None);
    assert_eq!(parse_block_args(&"@ana 0".to_string()), None);
    assert_eq!(parse_block_args(&"@ana -3".to_string()), None);
    assert_eq!(parse_block_args(&"@ana 1h".to_string()), None);
    assert_eq!(parse_block_args(&"@ana 2147483647".to_string()), Some(("ana".to_string(), 2147483647)));
}

#[test]
fn mute_until_adds_minutes_and_saturates() {
    assert_eq!(mute_until(1_700_000_000, 60), 1_700_003_600);
    assert_eq!(mute_until(0, 1), 60);
    assert_eq!(mute_until(u64::MAX, 1), i64::MAX);
    assert_eq!(mute_until(i64::MAX as u64 - 59, 1), i64::MAX);
    assert_eq!(mute_until(i64::MAX as u64 - 60, 1), i64::MAX);
    assert_eq!(mute_until(i64::MAX as u64 - 61, 1), i64::MAX - 1);
}

/// One step with a quota that is never reached.
fn step(state: AnswerState, event: AnswerEvent) -> (AnswerState, AnswerAction) {
    let mut quota = SearchQuota { year: 2024, month: 1, used: 0 };
    answer(state, &mut quota, event)
}

fn received(command: Command, sender: Option<u64>, replied_to: Option<u64>) -> AnswerEvent {
    AnswerEvent::Received { chat_id: -100, command, sender, replied_to }
}

fn reply_texts(a: &AnswerAction) -> Vec<String> {
    match a {
        AnswerAction::Reply { chat_id, messages, .. } => {
            assert_eq!(*chat_id, -100);
            messages.clone()
        },
        other => panic!("expected a reply, got {:?}", other),
    }
}

#[test]
fn start_command_sends_the_help_text() {
    assert_eq!(start_message(), START_TEXT);
    assert!(START_TEXT.starts_with("  🪏Bienvenido al Palabot"));
    let (s, a) = step(AnswerState::Idle, received(Command::Start, None, None));
    assert_eq!(s, AnswerState::Done);
    assert_eq!(reply_texts(&a), vec![START_TEXT.to_string()]);
}

#[test]
fn search_command_searches_then_replies() {
    let (s, a) = step(AnswerState::Idle, received(Command::SearchGoogle("clima".to_string()), Some(1), None));
    assert_eq!(s, AnswerState::CheckingQuota { chat_id: -100, query: "clima".to_string() });
    assert_eq!(a, AnswerAction::ReadCalendarMonth);
    let (s, a) = step(s, AnswerEvent::CalendarMonth { year: 2024, month: 1 });
    assert_eq!(s, AnswerState::Searching { chat_id: -100 });
    assert_eq!(a, AnswerAction::Search { query: "clima".to_string() });
    let r = SearchResults { ai_overview: Some(vec![Some("soleado".to_string())]), organic_results: None };
    let (s, a) = step(s, AnswerEvent::SearchCompleted(r));
    assert_eq!(s, AnswerState::Done);
    assert_eq!(a, AnswerAction::Reply { chat_id: -100, messages: vec!["soleado".to_string()], must_deliver: false });
}

#[test]
fn birthday_command_reads_the_database() {
    let (s, a) = step(AnswerState::Idle, received(Command::Birthday("eva".to_string()), Some(1), None));
    assert_eq!(a, AnswerAction::LoadDatabase);
    let (s2, a2) = step(s.clone(), AnswerEvent::DatabaseLoaded(Some(users())));
    assert_eq!(s2, AnswerState::Done);
    assert_eq!(reply_texts(&a2), vec!["🎂 El cumpleaños de eva es el 05-03.".to_string()]);
    let (s3, a3) = step(s, AnswerEvent::DatabaseLoaded(None));
    assert_eq!(s3, AnswerState::Done);
    assert_eq!(a3, AnswerAction::Stop);
}

#[test]
fn block_command_full_run() {
    let args = "@ana 5".to_string();
    let (s, a) = step(AnswerState::Idle, received(Command::Block(args.clone()), Some(11), Some(22)));
    assert_eq!(a, AnswerAction::FetchMemberStatus { chat_id: -100, user_id: 11 });
    let (s, a) = step(s, AnswerEvent::MemberStatus { is_admin: true });
    assert_eq!(a, AnswerAction::FetchMemberStatus { chat_id: -100, user_id: 22 });
    let (s, a) = step(s, AnswerEvent::MemberStatus { is_admin: false });
    assert_eq!(a, AnswerAction::ReadClock);
    let (s, a) = step(s, AnswerEvent::Clock { unix_secs: 1000 });
    assert_eq!(a, AnswerAction::Restrict { chat_id: -100, user_id: 22, until: 1300 });
    let (s, a) = step(s, AnswerEvent::Restricted);
    assert_eq!(s, AnswerState::Done);
    assert_eq!(
        reply_texts(&a),
        vec![
            "🔇 @ana silenciado por 5 minuto(s).\na casa papu!!".to_string(),
            "Usuario Bloqueado: @ana 5 (Operacion aun no implementada)".to_string(),
        ]
    );
}

#[test]
fn block_command_refusals() {
    let (s, a) = step(AnswerState::Idle, received(Command::Block("@ana".to_string()), None, Some(2)));
    assert_eq!(s, AnswerState::Done);
    assert_eq!(reply_texts(&a), vec!["No se identificar al remimitente.".to_string()]);

    let start = || step(AnswerState::Idle, received(Command::Block("@ana".to_string()), Some(1), Some(2))).0;
    let (s, a) = step(start(), AnswerEvent::MemberStatus { is_admin: false });
    assert_eq!(s, AnswerState::Done);
    assert_eq!(reply_texts(&a), vec!["❌ Solo los administradores pueden silenciar usuarios.".to_string()]);

    let (s, a) = step(start(), AnswerEvent::MemberStatus { is_admin: true });
    let (s, a2) = step(s, AnswerEvent::MemberStatus { is_admin: true });
    assert_eq!(a, AnswerAction::FetchMemberStatus { chat_id: -100, user_id: 2 });
    assert_eq!(s, AnswerState::Done);
    assert_eq!(reply_texts(&a2), vec!["❌ No puedes silenciar a un administrador.".to_string()]);

    let s = step(AnswerState::Idle, received(Command::Block("   ".to_string()), Some(1), Some(2))).0;
    let (_, a) = step(s, AnswerEvent::MemberStatus { is_admin: true });
    assert_eq!(reply_texts(&a), vec!["⚠️ Uso: /bloqueo @usuario [minutos]".to_string()]);

    let s = step(AnswerState::Idle, received(Command::Block("@ana".to_string()), Some(1), None)).0;
    let (_, a) = step(s, AnswerEvent::MemberStatus { is_admin: true });
    assert_eq!(
        reply_texts(&a),
        vec!["❌ No pude encontrar a ese usuario. Prueba respondiendo su mensaje.".to_string()]
    );
}

#[test]
fn out_of_order_events_end_the_command() {
    let (s, a) = step(AnswerState::Idle, AnswerEvent::Restricted);
    assert_eq!((s, a), (AnswerState::Done, AnswerAction::Stop));
    let (s, a) = step(AnswerState::Done, received(Command::Start, None, None));
    assert_eq!((s, a), (AnswerState::Done, AnswerAction::Stop));
    let (s, a) = step(AnswerState::Searching { chat_id: 1 }, AnswerEvent::Clock { unix_secs: 5 });
    assert_eq!((s, a), (AnswerState::Done, AnswerAction::Stop));
}

#[test]
fn scheduler_checks_once_per_midnight() {
    let (s, a) = birthday_scheduler_step(SchedulerState::Idle, SchedulerEvent::Started);
    assert_eq!(a, SchedulerAction::SleepUntilMidnight { report_failure: false });
    let (s, a) = birthday_scheduler_step(s, SchedulerEvent::Woke);
    assert_eq!(a, SchedulerAction::CheckBirthdays);
    let (s, a) = birthday_scheduler_step(s, SchedulerEvent::CheckFinished { ok: false });
    assert_eq!(a, SchedulerAction::SleepUntilMidnight { report_failure: true });
    let (s, a) = birthday_scheduler_step(s, SchedulerEvent::Woke);
    assert_eq!(a, SchedulerAction::CheckBirthdays);
    let (s, a) = birthday_scheduler_step(s, SchedulerEvent::CheckFinished { ok: true });
    assert_eq!(a, SchedulerAction::SleepUntilMidnight { report_failure: false });
    let (s, a) = birthday_scheduler_step(s, SchedulerEvent::MidnightUnavailable);
    assert_eq!((s, a), (SchedulerState::Halted, SchedulerAction::Halt));
    let (_, a) = birthday_scheduler_step(SchedulerState::Checking, SchedulerEvent::Woke);
    assert_eq!(a, SchedulerAction::Halt);
}

fn search_once(quota: &mut SearchQuota, year: i32, month: u32) -> AnswerAction {
    let (s, _) = answer(AnswerState::Idle, quota, received(Command::SearchGoogle("q".to_string()), Some(1), None));
    answer(s, quota, AnswerEvent::CalendarMonth { year, month }).1
}

#[test]
fn searches_are_limited_per_month() {
    let mut quota = SearchQuota { year: 0, month: 0, used: 0 };
    for i in 0..MONTHLY_SEARCH_LIMIT {
        assert_eq!(search_once(&mut quota, 2025, 3), AnswerAction::Search { query: "q".to_string() });
        assert_eq!(quota, SearchQuota { year: 2025, month: 3, used: i + 1 });
    }
    let refused = search_once(&mut quota, 2025, 3);
    assert_eq!(reply_texts(&refused), vec!["❌ Se alcanzó el límite de 256 búsquedas de este mes.".to_string()]);
    assert_eq!(quota, SearchQuota { year: 2025, month: 3, used: 256 });
    // A new month starts a new count.
    assert_eq!(search_once(&mut quota, 2025, 4), AnswerAction::Search { query: "q".to_string() });
    assert_eq!(quota, SearchQuota { year: 2025, month: 4, used: 1 });
    // Other commands leave the quota alone.
    let before = quota.clone();
    let _ = answer(AnswerState::Idle, &mut quota, received(Command::Start, None, None));
    assert_eq!(quota, before);
}
