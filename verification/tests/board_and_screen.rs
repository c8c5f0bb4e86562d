use kitchen_companion::board::{
    amplifier_writes, microphone_writes, power_writes, I2cWrite, AW88298_ADDR, AW9523_ADDR,
    AXP2101_ADDR, ES7210_ADDR, FT6336_ADDR, FT6336_TOUCH_REGISTER, RESET_SETTLE_MS,
};
use kitchen_companion::network::{Config, ConfigError, Retry, WifiAttempts};
use kitchen_companion::screen::{
    address_status, canceled_status, color_bars, connecting_status, meter_area, meter_bar,
    missing_ssid_status, recording_status, sending_status, status_area, Area, Color, Status,
};
use kitchen_companion::text::decimal_text;

fn last_value(writes: &[I2cWrite], addr: u8, reg: u8) -> Option<u8> {
    writes
        .iter()
        .filter(|w| w.addr == addr && w.payload[0] == reg)
        .last()
        .map(|w| w.payload[1])
}

#[test]
fn addresses() {
    assert_eq!(
        [AXP2101_ADDR, AW9523_ADDR, FT6336_ADDR, ES7210_ADDR, AW88298_ADDR],
        [0x34, 0x58, 0x38, 0x40, 0x36]
    );
    assert_eq!(FT6336_TOUCH_REGISTER, 0x02);
    assert_eq!(RESET_SETTLE_MS, 100);
}

#[test]
fn power_comes_before_the_expander() {
    let w = power_writes();
    assert_eq!(w.len(), 16);
    assert!(w[..9].iter().all(|x| x.addr == 0x34 && x.payload.len() == 2));
    assert!(w[9..].iter().all(|x| x.addr == 0x58 && x.payload.len() == 2));
    assert_eq!(w[0].payload, vec![0x90, 0xbf]);
    assert_eq!(w[8].payload, vec![0x10, 0x30]);
    assert_eq!(w[15].payload, vec![0x13, 0xff]);
}

#[test]
fn power_writes_light_the_display() {
    let w = power_writes();
    assert_eq!(last_value(&w, 0x34, 0x90).map(|v| v & 0x80), Some(0x80));
    assert_eq!(last_value(&w, 0x34, 0x99), Some(28));
    assert_eq!(last_value(&w, 0x34, 0x92), Some(13));
    assert_eq!(last_value(&w, 0x58, 0x02), Some(0b0000_0111));
    assert_eq!(last_value(&w, 0x58, 0x03), Some(0b1000_0011));
    assert_eq!(last_value(&w, 0x58, 0x04), Some(0b0001_1000));
    assert_eq!(last_value(&w, 0x58, 0x05), Some(0b0000_1100));
}

#[test]
fn microphone_is_reset_first_and_clocked_last() {
    let w = microphone_writes();
    assert_eq!(w.len(), 26);
    assert!(w.iter().all(|x| x.addr == 0x40));
    assert_eq!(w[0].payload, vec![0x00, 0xff]);
    assert_eq!(w[1].payload, vec![0x00, 0x41]);
    assert!(w[2..].iter().all(|x| x.payload[0] != 0));
    assert_eq!(w[15].payload, vec![0x11, 0x60]);
    assert_eq!(w[25].payload, vec![0x01, 0x14]);
}

#[test]
fn amplifier_values_are_big_endian() {
    let w = amplifier_writes();
    let payloads: Vec<Vec<u8>> = w.iter().map(|x| x.payload.clone()).collect();
    assert!(w.iter().all(|x| x.addr == 0x36));
    assert_eq!(
        payloads,
        vec![
            vec![0x61, 0x06, 0x73],
            vec![0x04, 0x40, 0x40],
            vec![0x05, 0x00, 0x08],
            vec![0x06, 0x14, 0xc3],
            vec![0x0c, 0x00, 0x64],
        ]
    );
}

#[test]
fn bars_tile_the_display() {
    let bars = color_bars();
    assert_eq!([bars[0].color, bars[1].color, bars[2].color], [Color::Red, Color::Green, Color::Blue]);
    for y in 0..240 {
        let hits = bars.iter().filter(|b| b.area.y <= y && y < b.area.y + b.area.height as i32);
        assert_eq!(hits.count(), 1);
    }
    assert!(bars.iter().all(|b| b.area.x == 0 && b.area.width == 320));
}

#[test]
fn meter_and_status_areas() {
    assert_eq!(meter_area(), Area { x: 0, y: 180, width: 320, height: 20 });
    assert_eq!(meter_bar(17), Area { x: 0, y: 180, width: 17, height: 20 });
    assert_eq!(status_area(), Area { x: 0, y: 205, width: 320, height: 35 });
}

fn parts(s: Status) -> (Option<Color>, String) {
    (s.background, s.text)
}

#[test]
fn status_texts() {
    assert_eq!(parts(missing_ssid_status()), (None, "cfg.toml niSSID wo kinyuu".to_string()));
    assert_eq!(parts(connecting_status()), (None, "WiFi connecting...".to_string()));
    assert_eq!(parts(recording_status()), (Some(Color::Red), "REC... release to send".to_string()));
    assert_eq!(parts(canceled_status()), (Some(Color::Blue), "Too short - canceled".to_string()));
    assert_eq!(parts(sending_status()), (Some(Color::Blue), "Sending...".to_string()));
    assert_eq!(
        parts(address_status([192, 168, 1, 13])),
        (Some(Color::Blue), "IP: 192.168.1.13".to_string())
    );
    assert_eq!(address_status([0, 10, 255, 100]).text, "IP: 0.10.255.100");
}

#[test]
fn decimal_numbers() {
    for n in [0u128, 9, 10, 99, 100, 12345678901234567890] {
        assert_eq!(decimal_text(n), n.to_string());
        assert_eq!(decimal_text(n).parse::<u128>(), Ok(n));
    }
}

fn config(ssid: &'static str, pass: &'static str) -> Config {
    Config { wifi_ssid: ssid, wifi_pass: pass, server_url: "http://relay" }
}

#[test]
fn settings_are_checked() {
    assert_eq!(config("home", "secret").check_wifi(), Ok(()));
    assert_eq!(config("home", "").check_wifi(), Ok(()));
    assert_eq!(config("", "secret").check_wifi(), Err(ConfigError::MissingSsid));
    assert_eq!(config("12345678901234567890123456789012", "").check_wifi(), Ok(()));
    assert_eq!(
        config("123456789012345678901234567890123", "").check_wifi(),
        Err(ConfigError::SsidTooLong)
    );
    // Eleven characters of three bytes each.
    assert_eq!(config("あいうえおかきくけこさ", "").check_wifi(), Err(ConfigError::SsidTooLong));
    let pass64 = "1234567890123456789012345678901234567890123456789012345678901234";
    let pass65 = "12345678901234567890123456789012345678901234567890123456789012345";
    assert_eq!(config("home", pass64).check_wifi(), Ok(()));
    assert_eq!(config("home", pass65).check_wifi(), Err(ConfigError::PasswordTooLong));
    assert_eq!(
        config("123456789012345678901234567890123", pass65).check_wifi(),
        Err(ConfigError::SsidTooLong)
    );
    assert_eq!(config("", pass65).check_wifi(), Err(ConfigError::MissingSsid));
}

#[test]
fn default_settings_lack_a_network() {
    let c = Config::default();
    assert_eq!((c.wifi_ssid, c.wifi_pass, c.server_url), ("", "", ""));
    assert_eq!(c.check_wifi(), Err(ConfigError::MissingSsid));
}

#[test]
fn fifth_failure_gives_up() {
    let mut a = WifiAttempts::new();
    for k in 1..5 {
        assert_eq!(a.number(), k);
        assert_eq!(a.failed(), Retry::After(3000));
    }
    assert_eq!(a.number(), 5);
    assert_eq!(a.failed(), Retry::GiveUp);
    assert_eq!(a.number(), 5);
    assert_eq!(a.failed(), Retry::GiveUp);
}
