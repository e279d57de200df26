use ministatus::{
    battery_line, battery_segment, clock_text, int_text, join_strings, news_db, news_text,
    news_update_marker, parse_i32, remove_char, summarize_day, summarize_report, uint_text,
    weather_text, Battery, Block, Clock, HourlyForecast, Internet, Mailbox, WeatherData,
    WeatherState,
};

fn hour(time: i32, temp_c: i32, chance_of_rain: i32, chance_of_snow: i32) -> HourlyForecast {
    HourlyForecast { time, temp_c, chance_of_rain, chance_of_snow }
}

#[test]
fn decimal_text() {
    assert_eq!(uint_text(0), "0");
    assert_eq!(uint_text(1234567890), "1234567890");
    assert_eq!(uint_text(u64::MAX), "18446744073709551615");
    assert_eq!(int_text(-42), "-42");
    assert_eq!(int_text(i64::MIN), "-9223372036854775808");
}

#[test]
fn joining_strings() {
    let parts = vec!["a".to_string(), "b".to_string(), "c".to_string()];
    assert_eq!(join_strings(&parts, " | "), "a | b | c");
    assert_eq!(join_strings(&vec![], " | "), "");
}

#[test]
fn integer_parsing() {
    assert_eq!(parse_i32("42"), Some(42));
    assert_eq!(parse_i32("+7"), Some(7));
    assert_eq!(parse_i32("-2147483648"), Some(i32::MIN));
    assert_eq!(parse_i32("2147483647"), Some(i32::MAX));
    assert_eq!(parse_i32("2147483648"), None);
    assert_eq!(parse_i32("99999999999999"), None);
    assert_eq!(parse_i32(""), None);
    assert_eq!(parse_i32("-"), None);
    assert_eq!(parse_i32("4a"), None);
}

#[test]
fn char_removal() {
    assert_eq!(remove_char("$4$2", '$'), "42");
    assert_eq!(remove_char("Not, charging", ','), "Not charging");
}

#[test]
fn battery_segments() {
    assert_eq!(
        battery_segment(" 80\n", "Discharging\n", Some("12.34".to_string())),
        Some("🔋 80% (12.34W)".to_string())
    );
    assert_eq!(
        battery_segment("20\n", "Charging\n", Some("5.00".to_string())),
        Some("🔌❗20%".to_string())
    );
    assert_eq!(battery_segment("$25$", "Full", None), Some("⚡ 25%".to_string()));
    assert_eq!(battery_segment("24", "Unknown", None), Some("♻️❗24%".to_string()));
    assert_eq!(battery_segment("50", "Not, charging", None), Some("🔌 50%".to_string()));
    assert_eq!(battery_segment("50", "Weird,State", None), Some("WeirdState 50%".to_string()));
    assert_eq!(battery_segment("full", "Full", None), None);
}

#[test]
fn battery_lines() {
    assert_eq!(battery_line(&vec![]), None);
    let segs = vec!["🔋 80%".to_string(), "⚡ 100%".to_string()];
    assert_eq!(battery_line(&segs), Some("🔋 80% | ⚡ 100%".to_string()));
}

#[test]
fn batteries_are_picked_by_name() {
    let names = vec!["AC".to_string(), "BAT0".to_string(), "BA".to_string(), "BAT1".to_string()];
    let b = Battery::new(&names);
    assert_eq!(
        b.batteries(),
        &vec![
            "/sys/class/power_supply/BAT0".to_string(),
            "/sys/class/power_supply/BAT1".to_string()
        ]
    );
}

#[test]
fn mailbox_slot() {
    assert_eq!(Mailbox::mail_dir("/home/u"), "/home/u/.local/share/mail/");
    assert!(Mailbox::new("/home/u", false).is_err());
    let m = Mailbox::new("/home/u", true).ok().unwrap();
    assert_eq!(m.pattern(), "/home/u/.local/share/mail/*/INBOX/new/*");
    assert_eq!(Mailbox::text(0), None);
    assert_eq!(Mailbox::text(3), Some("📬 3".to_string()));
}

#[test]
fn news_slot() {
    assert_eq!(news_db("/h"), "/h/.local/share/newsboat/cache.db");
    assert_eq!(news_update_marker("/h"), "/h/.config/newsboat/.update");
    assert_eq!(news_text(true, 5), Some("📰 🔃".to_string()));
    assert_eq!(news_text(false, 0), None);
    assert_eq!(news_text(false, 3), Some("📰 3".to_string()));
}

#[test]
fn clock_slot() {
    assert_eq!(clock_text("10:00 AM"), "🕛 10:00 AM");
    let c = Clock::new();
    let line = c.run().ok().unwrap().unwrap();
    assert!(line.starts_with("🕛 (KW"));
}

#[test]
fn wireless_link_parsing() {
    let stats = "Inter-| sta-|   Quality        |   Discarded packets               | Missed | WE\n \
                 face | tus | link level noise |  nwid  crypt   frag  retry   misc | beacon | 22\n\
                 wlp3s0: 0000   54.  -56.  -256        0      0      0      0      0        0\n";
    let (id, q) = Internet::link(stats).unwrap();
    assert_eq!(id, "wlp3s0");
    assert_eq!(q, 54);
    assert_eq!(Internet::link("Inter-| sta-|\n face | tus |\n"), None);
    assert_eq!(Internet::link("wlan0: 0000\n"), None);
    assert_eq!(Internet::operstate_path("wlp3s0"), "/sys/class/net/wlp3s0/operstate");
    assert!(Internet::is_up("up\n"));
    assert!(!Internet::is_up("down\n"));
    assert!(!Internet::is_up(""));
    assert_eq!(Internet::text(true, 54), "🌍 77%");
    assert_eq!(Internet::text(false, 70), "❎ 100%");
    let _ = Internet::new();
}

#[test]
fn daytime_summary() {
    let hours = vec![
        hour(0, -5, 90, 90),
        hour(900, 3, 10, 0),
        hour(1200, 8, 20, 35),
        hour(2100, 1, 0, 0),
        hour(2400, 20, 100, 0),
    ];
    assert_eq!(
        summarize_day(&hours),
        Some(WeatherData { rain: 35, min_temp: 1, max_temp: 8 })
    );
    assert_eq!(summarize_day(&vec![hour(300, 1, 1, 1)]), None);
    assert_eq!(summarize_report(&vec![]), None);
    assert_eq!(
        summarize_report(&vec![vec![hour(1500, -2, 0, 60)], hours]),
        Some(WeatherData { rain: 60, min_temp: -2, max_temp: -2 })
    );
}

#[test]
fn weather_slot_text() {
    let d = WeatherData { rain: 10, min_temp: -3, max_temp: 12 };
    assert_eq!(weather_text(d), "☂️ 10% ❄ -3° ☀️ 12°");
}

#[test]
fn weather_refresh_countdown() {
    let mut w = WeatherState::new(None);
    assert_eq!(w.text(), None);
    for _ in 0..59 {
        assert!(!w.tick());
    }
    assert!(w.tick());
    w.fetched(None);
    assert_eq!(w.data(), None);
    for _ in 0..3599 {
        assert!(!w.tick());
    }
    assert!(w.tick());
    let d = WeatherData { rain: 5, min_temp: 1, max_temp: 2 };
    w.fetched(Some(d));
    assert_eq!(w.text(), Some("☂️ 5% ❄ 1° ☀️ 2°".to_string()));
    w.fetched(None);
    assert_eq!(w.data(), Some(d));
    let mut g = WeatherState::new(Some(d));
    for _ in 0..14399 {
        assert!(!g.tick());
    }
    assert!(g.tick());
}
