use statusbar::component::battery::{BatteryState, TimeLeft};
use statusbar::component::cpu::{parse_cpu_fields, CpuField, CpuFields, CpuTime, CpuTimeError};
use statusbar::component::memory::{max_unit, parse_field, parse_meminfo, FieldError, MemError, MemInfo};
use statusbar::component::network::active_ssid;
use statusbar::component::playing::PlayerInfo;
use statusbar::component::volume::{can_compute_percent, volume_percent};
use statusbar::component::time::show_formatted;
use statusbar::component::{
    BatteryLevel, BatteryTimeLeft, CpuUsage, DiskUsage, NetworkSSID, Playing, Time, Volume,
    EMPTY_OUTPUT,
};

fn lines(v: &[&str]) -> Vec<String> {
    v.iter().map(|s| s.to_string()).collect()
}

#[test]
fn cpu_fields_from_proc_stat() {
    let stat = lines(&["cpu  10 20 30 40 50 6 7 0 0 0", "cpu0 1 2 3 4 5", "intr 1"]);
    assert_eq!(
        parse_cpu_fields(&stat),
        Ok(CpuFields { user: 10, nice: 20, system: 30, idle: 40, iowait: 50 })
    );
    let skip = lines(&["cpu0 1 2", "cpu 1 2 3 4"]);
    assert_eq!(
        parse_cpu_fields(&skip),
        Ok(CpuFields { user: 1, nice: 2, system: 3, idle: 4, iowait: 0 })
    );
    let bad_iowait = lines(&["cpu 1 2 3 4 z"]);
    assert_eq!(parse_cpu_fields(&bad_iowait).map(|f| f.iowait), Ok(0));
}

#[test]
fn cpu_field_errors() {
    assert_eq!(
        parse_cpu_fields(&lines(&["cpu 1 2"])),
        Err(CpuTimeError::Missing(CpuField::System))
    );
    assert_eq!(
        parse_cpu_fields(&lines(&["cpu "])),
        Err(CpuTimeError::Missing(CpuField::User))
    );
    assert_eq!(
        parse_cpu_fields(&lines(&["cpu 1 x 3 4"])),
        Err(CpuTimeError::Invalid(CpuField::Nice))
    );
    assert_eq!(
        parse_cpu_fields(&lines(&["cpu 1 2 3 -4"])),
        Err(CpuTimeError::Invalid(CpuField::Idle))
    );
    assert_eq!(parse_cpu_fields(&lines(&["cpu1 1 2 3 4", "x"])), Err(CpuTimeError::NoCpuLine));
    assert_eq!(parse_cpu_fields(&lines(&[])), Err(CpuTimeError::NoCpuLine));
    // only the first `cpu ` line counts
    assert_eq!(
        parse_cpu_fields(&lines(&["cpu 1", "cpu 1 2 3 4"])),
        Err(CpuTimeError::Missing(CpuField::Nice))
    );
}

#[test]
fn cpu_time_totals() {
    let f = CpuFields { user: 10, nice: 20, system: 30, idle: 40, iowait: 50 };
    assert!(f.fits());
    assert_eq!(f.cpu_time(), CpuTime { active: 60, idle: 90 });
    let big = CpuFields { user: u64::MAX, nice: 1, system: 0, idle: 0, iowait: 0 };
    assert!(!big.fits());
}

#[test]
fn cpu_usage_between_readings() {
    let mut usage = CpuUsage::new();
    let mut buf = String::new();
    let first = CpuTime { active: 100, idle: 100 };
    assert!(usage.can_record(first));
    usage.record(first, &mut buf);
    assert_eq!(buf, format!(" {}", EMPTY_OUTPUT));

    let mut buf = String::new();
    usage.record(CpuTime { active: 150, idle: 150 }, &mut buf);
    assert_eq!(buf, "50");

    let mut buf = String::new();
    usage.record(CpuTime { active: 160, idle: 240 }, &mut buf);
    assert_eq!(buf, "10");

    let mut buf = String::new();
    usage.record(CpuTime { active: 165, idle: 335 }, &mut buf);
    assert_eq!(buf, " 5");

    let mut buf = String::new();
    usage.record(CpuTime { active: 265, idle: 335 }, &mut buf);
    assert_eq!(buf, "100");

    // no time passed: the division is not possible
    assert!(!usage.can_record(CpuTime { active: 265, idle: 335 }));
    // a counter went backwards
    assert!(!usage.can_record(CpuTime { active: 264, idle: 400 }));
    assert!(CpuUsage::default().can_record(CpuTime { active: 0, idle: 0 }));
}

#[test]
fn meminfo_fields() {
    assert_eq!(parse_field("MemTotal:       16303428 kB", "MemTotal:"), Ok(16303428));
    assert_eq!(parse_field("MemFree: 1", "MemTotal:"), Err(FieldError::IncorrectField));
    assert_eq!(parse_field("MemTotal:    ", "MemTotal:"), Err(FieldError::MissingValue));
    assert_eq!(parse_field("MemTotal: abc kB", "MemTotal:"), Err(FieldError::Invalid));
}

#[test]
fn meminfo_used_memory() {
    let info = lines(&[
        "MemTotal:       16000000 kB",
        "MemFree:         8000000 kB",
        "MemAvailable:   10000000 kB",
        "Buffers:          100000 kB",
        "Cached:          2000000 kB",
        "SwapCached:            0 kB",
    ]);
    let m = parse_meminfo(&info).unwrap();
    assert_eq!(m, MemInfo { total: 16000000, free: 8000000, buffers: 100000, cached: 2000000 });
    assert!(m.fits());
    assert_eq!(m.used_bytes(), 1024 * 5_900_000);

    assert_eq!(parse_meminfo(&info[..4].to_vec()), Err(MemError::MissingLine));
    assert_eq!(parse_meminfo(&lines(&[])), Err(MemError::MissingLine));
    let wrong = lines(&["MemTotal: 1 kB", "Buffers: 1 kB"]);
    assert_eq!(parse_meminfo(&wrong), Err(MemError::Field(FieldError::IncorrectField)));
    let odd = MemInfo { total: 1, free: 2, buffers: 0, cached: 0 };
    assert!(!odd.fits());
}

#[test]
fn memory_units() {
    assert_eq!(max_unit(0), (0, "B"));
    assert_eq!(max_unit(1023), (1023, "B"));
    assert_eq!(max_unit(1024), (1024, "Ki"));
    assert_eq!(max_unit((1 << 20) - 1), (1024, "Ki"));
    assert_eq!(max_unit(1 << 20), (1 << 20, "Mi"));
    assert_eq!(max_unit(5 << 30), (1 << 30, "Gi"));
}

#[test]
fn volume_percentages() {
    assert_eq!(volume_percent(0, 100, 37, 1), Some(37));
    assert_eq!(volume_percent(0, 65536, 32768, 1), Some(50));
    assert_eq!(volume_percent(0, 65536, 0, 1), Some(0));
    assert_eq!(volume_percent(0, 65536, 65536, 1), Some(100));
    assert_eq!(volume_percent(0, 3, 1, 1), Some(33));
    assert_eq!(volume_percent(0, 3, 2, 1), Some(67));
    assert_eq!(volume_percent(-10, 10, -10, 1), Some(0));
    assert_eq!(volume_percent(0, 100, -50, 1), Some(-49));
    assert_eq!(volume_percent(100, 0, 50, 1), Some(50));
    assert_eq!(volume_percent(0, 100, 50, 0), None);
    assert!(!can_compute_percent(5, 5, 5, 1));
    assert!(can_compute_percent(5, 5, 5, 0));
    assert!(!can_compute_percent(i64::MIN, i64::MAX, 0, 1));
    assert!(can_compute_percent(0, 65536, 32768, 1));
}

#[test]
fn volume_text() {
    let mut buf = String::from("old");
    Volume.render(Some(5), &mut buf);
    assert_eq!(buf, " 5%");
    Volume.render(Some(100), &mut buf);
    assert_eq!(buf, "100%");
    Volume.render(Some(-5), &mut buf);
    assert_eq!(buf, "-5%");
    Volume.render(None, &mut buf);
    assert_eq!(buf, "---");
}

#[test]
fn network_ssid() {
    assert_eq!(active_ssid("no:Cafe\nyes:Home\nyes:Other\n"), Some("Home".to_string()));
    assert_eq!(active_ssid("yes:Home\r\n"), Some("Home".to_string()));
    assert_eq!(active_ssid("yes:"), Some(String::new()));
    assert_eq!(active_ssid("no:Cafe\nno:Home"), None);
    assert_eq!(active_ssid(""), None);
    assert_eq!(active_ssid(" yes:Home"), None);

    let mut buf = String::from(">");
    NetworkSSID.render(&Some("Home".to_string()), &mut buf);
    assert_eq!(buf, ">Home");
    let mut buf = String::new();
    NetworkSSID.render(&None, &mut buf);
    assert_eq!(buf, EMPTY_OUTPUT);
}

#[test]
fn playing_text() {
    let mut buf = String::new();
    Playing.render(&None, &mut buf);
    assert_eq!(buf, "[]");

    let info = PlayerInfo {
        artists: Some(vec!["A".to_string(), "B".to_string()]),
        title: Some("Song".to_string()),
        playing: true,
    };
    let mut buf = String::new();
    Playing.render(&Some(info), &mut buf);
    assert_eq!(buf, "[A, B - Song^d^]");

    let paused = PlayerInfo { artists: Some(vec!["A".to_string()]), title: None, playing: false };
    let mut buf = String::new();
    Playing.render(&Some(paused), &mut buf);
    assert_eq!(buf, "[^c#666666^A - ^d^]");

    let bare = PlayerInfo { artists: None, title: None, playing: true };
    let mut buf = String::new();
    Playing.render(&Some(bare), &mut buf);
    assert_eq!(buf, "[ - ^d^]");
}

#[test]
fn battery_level_text() {
    let mut buf = String::new();
    BatteryLevel.render(BatteryState::Charging, 87, &mut buf);
    assert_eq!(buf, "+87");
    let mut buf = String::new();
    BatteryLevel.render(BatteryState::Discharging, 5, &mut buf);
    assert_eq!(buf, "-5");
    let mut buf = String::new();
    BatteryLevel.render(BatteryState::Full, 100, &mut buf);
    assert_eq!(buf, "o100");
    let mut buf = String::new();
    BatteryLevel.render(BatteryState::Unknown, 0, &mut buf);
    assert_eq!(buf, "o0");
}

#[test]
fn battery_time_left_text() {
    let full = Some(TimeLeft { hours: 1, minutes: 5, show_hours: true });
    let empty = Some(TimeLeft { hours: 0, minutes: 30, show_hours: true });
    let mut buf = String::new();
    BatteryTimeLeft.render(BatteryState::Charging, full, empty, &mut buf);
    assert_eq!(buf, "1h 05m");
    let mut buf = String::new();
    BatteryTimeLeft.render(BatteryState::Discharging, full, empty, &mut buf);
    assert_eq!(buf, "0h 30m");
    let mut buf = String::new();
    let none_left = Some(TimeLeft { hours: 0, minutes: 0, show_hours: false });
    BatteryTimeLeft.render(BatteryState::Discharging, None, none_left, &mut buf);
    assert_eq!(buf, "00m");
    let mut buf = String::new();
    BatteryTimeLeft.render(BatteryState::Full, full, empty, &mut buf);
    assert_eq!(buf, EMPTY_OUTPUT);
    let mut buf = String::new();
    BatteryTimeLeft.render(BatteryState::Charging, None, empty, &mut buf);
    assert_eq!(buf, EMPTY_OUTPUT);
}

#[test]
fn disk_and_time_settings() {
    let disk = DiskUsage::new("/");
    assert_eq!(disk.path(), "/");
    let time = Time::new("%H:%M");
    assert_eq!(time.format(), "%H:%M");
}

#[test]
fn time_renders_the_clock_reading_at_the_local_offset() {
    // 2022-02-01 13:50:00.123 UTC, one hour east of UTC
    let time = Time::new("%H:%M");
    let mut buf = String::from("> ");
    assert!(time.render(1_643_723_400, 123_000_000, 3600, &mut buf));
    assert_eq!(buf, "> 14:50");
    let date = Time::new("%d/%m %Ss");
    let mut buf = String::new();
    assert!(date.render(1_643_723_400, 0, -7200, &mut buf));
    assert_eq!(buf, "01/02 00s");
}

#[test]
fn time_refuses_what_chrono_refuses() {
    let time = Time::new("%H:%M");
    let mut buf = String::from("old");
    // an offset of a whole day
    assert!(!time.render(0, 0, 86_400, &mut buf));
    assert_eq!(buf, "old");
    // an instant out of chrono's range
    assert!(!time.render(i64::MAX, 0, 0, &mut buf));
    assert_eq!(buf, "old");
}

#[test]
fn formatted_time_is_appended_only_when_present() {
    let mut buf = String::from("a");
    assert!(show_formatted(Some("b".to_string()), &mut buf));
    assert_eq!(buf, "ab");
    assert!(!show_formatted(None, &mut buf));
    assert_eq!(buf, "ab");
}
