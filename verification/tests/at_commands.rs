//! Text commands.

use iot_gateway::ble_at::ota_handlers::OtaInfo;
use iot_gateway::ble_at::parser::{err, finish, ok_data, ok_none, parse_u16, parse_u16_list, process};
use iot_gateway::ble_at::reply::{AtReply, AtRequest};
use iot_gateway::gateway::Gateway;

fn answer(line: &str) -> String {
    let mut gw = Gateway::new();
    let ota = OtaInfo { status: 0, done_pending_reboot: false, written: 0, total: 0, chunk_max: 128 };
    match process(&mut gw, line, &ota) {
        AtReply::Text(t) => t,
        AtReply::Request(r) => panic!("{line} asks for {r:?}"),
    }
}

#[test]
fn test_parse_u16_decimal() {
    assert_eq!(parse_u16("1234"), Some(1234));
    assert_eq!(parse_u16("0"), Some(0));
    assert_eq!(parse_u16("65535"), Some(65535));
}

#[test]
fn test_parse_u16_hex() {
    assert_eq!(parse_u16("0x100"), Some(256));
    assert_eq!(parse_u16("0XFF"), Some(255));
    assert_eq!(parse_u16("0xABCD"), Some(0xABCD));
}

#[test]
fn test_parse_u16_invalid() {
    assert_eq!(parse_u16(""), None);
    assert_eq!(parse_u16("abc"), None);
    assert_eq!(parse_u16("99999999"), None);
}

#[test]
fn test_parse_u16_list() {
    let v = parse_u16_list("1,2,3,0xFF");
    assert_eq!(v, heapless::Vec::<u16, 128>::from_slice(&[1, 2, 3, 255]).unwrap());
}

#[test]
fn test_response_formats() {
    assert_eq!(ok_none(), "OK\r\n");
    assert_eq!(ok_data("hello"), "OK hello\r\n");
    assert_eq!(err(10, "bad"), "ERROR 10: bad\r\n");
}

#[test]
fn test_at_unknown() {
    let resp = answer("AT+BOGUS_CMD");
    assert!(resp.starts_with("ERROR 2:"));
}

#[test]
fn test_at_basic() {
    assert_eq!(answer("AT"), "OK\r\n");
    assert_eq!(answer("at"), "OK\r\n");
    let resp = answer("AT+VERSION");
    assert!(resp.starts_with("OK "));
}

#[test]
fn test_at_invalid() {
    let resp = answer("HELLO");
    assert!(resp.starts_with("ERROR 1:"));
}

#[test]
fn test_at_without_plus() {
    let resp = answer("ATVERSION");
    assert!(resp.starts_with("OK "));
}

const OTA: OtaInfo = OtaInfo { status: 2, done_pending_reboot: false, written: 64, total: 1000, chunk_max: 128 };

fn run(gw: &mut Gateway, line: &str) -> AtReply {
    process(gw, line, &OTA)
}

fn run_text(gw: &mut Gateway, line: &str) -> String {
    match run(gw, line) {
        AtReply::Text(t) => t,
        AtReply::Request(r) => panic!("{line} asks for {r:?}"),
    }
}

#[test]
fn bare_commands_are_answered() {
    assert_eq!(answer("AT"), "OK\r\n");
    assert_eq!(answer("at"), "OK\r\n");
    assert_eq!(answer(""), "OK\r\n");
    assert_eq!(answer("  AT\t"), "OK\r\n");
    assert_eq!(answer("AT+VERSION"), "OK esp32s3-iot-gateway v2.2.1 (HW: F16)\r\n");
    assert_eq!(answer("at+version"), "OK esp32s3-iot-gateway v2.2.1 (HW: F16)\r\n");
    assert_eq!(answer("A"), "ERROR 1: not AT command\r\n");
    assert_eq!(answer("AT+BOGUS"), "ERROR 2: unknown command\r\n");
}

#[test]
fn a_written_word_is_read() {
    let mut gw = Gateway::new();
    assert_eq!(run_text(&mut gw, "AT+WRITE=7,0xABCD"), "OK\r\n");
    assert_eq!(run_text(&mut gw, "AT+READ=7"), "OK 43981,0xABCD\r\n");
    assert_eq!(run_text(&mut gw, "AT+READ=0x0007"), "OK 43981,0xABCD\r\n");
    assert_eq!(run_text(&mut gw, "AT+WRITE=1499,1"), "OK\r\n");
    assert_eq!(run_text(&mut gw, "AT+WRITE=1500,1"), "ERROR 11: addr out of range\r\n");
    assert_eq!(run_text(&mut gw, "AT+READ=1500"), "ERROR 11: addr out of range\r\n");
    assert_eq!(run_text(&mut gw, "AT+READ=x"), "ERROR 10: invalid addr\r\n");
    assert_eq!(run_text(&mut gw, "AT+WRITE=1"), "ERROR 10: invalid value\r\n");
    assert_eq!(run_text(&mut gw, "AT+WRITE=y,1"), "ERROR 10: usage: AT+WRITE=<addr>,<value>\r\n");
}

#[test]
fn blocks_are_written_and_read() {
    let mut gw = Gateway::new();
    assert_eq!(run_text(&mut gw, "AT+BULKW=10,1,2,0xFF"), "OK 3 words\r\n");
    assert_eq!(run_text(&mut gw, "AT+BULKR=10,3"), "OK 0x0001,0x0002,0x00FF\r\n");
    assert_eq!(run_text(&mut gw, "AT+BULKR=10,0"), "ERROR 12: len out of range (1..=1500)\r\n");
    assert_eq!(run_text(&mut gw, "AT+BULKR=10,1501"), "ERROR 12: len out of range (1..=1500)\r\n");
    assert_eq!(run_text(&mut gw, "AT+BULKR=1500,1"), "ERROR 11: start out of range\r\n");
    assert_eq!(run_text(&mut gw, "AT+BULKR=,1"), "ERROR 10: invalid start\r\n");
    assert_eq!(run_text(&mut gw, "AT+BULKR=1"), "ERROR 10: invalid len\r\n");
    assert_eq!(run_text(&mut gw, "AT+BULKW=10"), "ERROR 10: usage: AT+BULKW=<start>,<v1>,<v2>,...\r\n");
}

#[test]
fn storage_commands_ask_for_storage() {
    let mut gw = Gateway::new();
    assert_eq!(run(&mut gw, "AT+COMMIT"), AtReply::Request(AtRequest::Commit));
    assert_eq!(run(&mut gw, "AT+RELOAD"), AtReply::Request(AtRequest::Reload));
    assert_eq!(run(&mut gw, "AT+CFGRESET"), AtReply::Request(AtRequest::ApplyDefaults));
    assert_eq!(finish(&AtRequest::Commit, 0, None), "OK committed\r\n");
    assert_eq!(finish(&AtRequest::Commit, 0, Some("nvs")), "ERROR 20: commit: nvs\r\n");
    assert_eq!(finish(&AtRequest::Reload, 0, None), "OK reloaded\r\n");
    assert_eq!(finish(&AtRequest::Apply, 0, None), "OK applied (restart to take effect)\r\n");
    assert_eq!(finish(&AtRequest::ApplyDefaults, 0, None), "OK reset to defaults\r\n");
}

#[test]
fn applying_raises_the_version() {
    let mut gw = Gateway::new();
    let before = gw.config.snapshot.read().unwrap().cfg.cfg_version;
    assert_eq!(run(&mut gw, "AT+CFGAPPLY"), AtReply::Request(AtRequest::Apply));
    assert_eq!(gw.config.snapshot.read().unwrap().cfg.cfg_version, before.wrapping_add(1));
}

#[test]
fn reset_is_asked_for() {
    let mut gw = Gateway::new();
    assert_eq!(run_text(&mut gw, "AT+RESET"), "OK resetting in 200ms\r\n");
    assert!(gw.io.sys.is_reset_requested());
}

#[test]
fn names_are_set_and_read() {
    let mut gw = Gateway::new();
    assert_eq!(run_text(&mut gw, "AT+CFGSN"), "OK ESP32-001\r\n");
    assert_eq!(run_text(&mut gw, "AT+CFGSN=SN-77"), "OK\r\n");
    assert_eq!(run_text(&mut gw, "AT+CFGSN?"), "OK SN-77\r\n");
    assert_eq!(
        run_text(&mut gw, "AT+CFGSN=123456789012345678901234567890123"),
        "ERROR 10: sn too long (max 32)\r\n"
    );
    assert_eq!(run_text(&mut gw, "AT+CFGNAME=tunnel"), "OK\r\n");
    assert_eq!(run_text(&mut gw, "AT+CFGNAME"), "OK tunnel\r\n");
    assert_eq!(run_text(&mut gw, "AT+CFGNAME=12345678901234567"), "ERROR 10: name too long (max 16)\r\n");
    assert_eq!(run_text(&mut gw, "AT+CFGBTNAME=Mesh7"), "OK\r\n");
    assert_eq!(run_text(&mut gw, "AT+CFGBTNAME"), "OK Mesh7\r\n");
    assert_eq!(run_text(&mut gw, "AT+CFGBTNAME=123456789"), "ERROR 10: ble name too long (max 8)\r\n");
}

#[test]
fn the_network_is_configured() {
    let mut gw = Gateway::new();
    assert_eq!(run_text(&mut gw, "AT+CFGIP=10.0.0.2,255.0.0.0,10.0.0.1,8.8.8.8"), "OK\r\n");
    let shown = run_text(&mut gw, "AT+CFGIP");
    assert!(shown.starts_with("OK ip=10.0.0.2,mask=255.0.0.0,gw=10.0.0.1,dns=8.8.8.8,dhcp="));
    assert_eq!(run_text(&mut gw, "AT+CFGIP=10.0.0.2"), "ERROR 10: usage: AT+CFGIP=<ip>,<mask>,<gw>[,<dns>]\r\n");
    assert_eq!(run_text(&mut gw, "AT+CFGIP=10.0.0,1.1.1.1,2.2.2.2"), "ERROR 11: invalid ip\r\n");
    assert_eq!(run_text(&mut gw, "AT+CFGIP=1.1.1.1,x,2.2.2.2"), "ERROR 11: invalid mask\r\n");
    assert_eq!(run_text(&mut gw, "AT+CFGIP=1.1.1.1,1.1.1.1,256.2.2.2"), "ERROR 11: invalid gw\r\n");
    assert_eq!(run_text(&mut gw, "AT+CFGDHCP=1"), "OK dhcp=1\r\n");
    assert_eq!(run_text(&mut gw, "AT+CFGDHCP=q"), "ERROR 10: invalid value\r\n");
    assert_eq!(run_text(&mut gw, "AT+CFGMESH=1"), "OK ble_mesh=1\r\n");
    assert_eq!(run_text(&mut gw, "AT+CFGMAC"), "OK 00:00:00:00:00:00\r\n");
}

#[test]
fn ports_are_configured() {
    let mut gw = Gateway::new();
    assert_eq!(run_text(&mut gw, "AT+CFG485=0,192,8,1,2,7,1"), "OK\r\n");
    assert_eq!(
        run_text(&mut gw, "AT+CFG485=0"),
        "OK idx=0,baud=19200,data=8,stop=1,parity=2,slave=7,mode=1\r\n"
    );
    assert_eq!(run_text(&mut gw, "AT+CFG485=9"), "ERROR 11: invalid idx (0..1)\r\n");
    assert_eq!(run_text(&mut gw, "AT+CFG485=0,1"), "ERROR 10: expected 1 or 7 args\r\n");
    assert_eq!(run_text(&mut gw, "AT+CFG485=0,96,9,1,0,1,0"), "ERROR 11: data_bits must be 7 or 8\r\n");
    assert_eq!(run_text(&mut gw, "AT+CFG485=0,96,8,3,0,1,0"), "ERROR 11: stop_bits must be 1 or 2\r\n");
    assert_eq!(run_text(&mut gw, "AT+CFG485=0,96,8,1,3,1,0"), "ERROR 11: parity must be 0/1/2\r\n");
    assert_eq!(run_text(&mut gw, "AT+CFG485=0,96,8,1,0,z,0"), "ERROR 11: invalid slave\r\n");
    assert_eq!(run_text(&mut gw, "AT+CFG485=0,96,8,1,0,1,5"), "ERROR 11: mode must be 0/1/2\r\n");
}

#[test]
fn configuration_words_are_read_and_written() {
    let mut gw = Gateway::new();
    assert_eq!(run_text(&mut gw, "AT+CFGWRITE=2247,0x0A00"), "OK apply requested\r\n");
    assert_eq!(run_text(&mut gw, "AT+CFGWRITE=9"), "ERROR 10: usage: AT+CFGWRITE=<addr>,<value>\r\n");
    assert_eq!(run_text(&mut gw, "AT+CFGWRITE=u,1"), "ERROR 10: invalid addr\r\n");
    assert_eq!(run_text(&mut gw, "AT+CFGWRITE=2247,u"), "ERROR 10: invalid value\r\n");
    assert_eq!(run_text(&mut gw, "AT+CFGWRITE=1,1"), "ERROR 11: addr out of range\r\n");
    assert_eq!(run_text(&mut gw, "AT+CFGREAD=u"), "ERROR 10: invalid addr\r\n");
}

#[test]
fn updates_are_asked_for() {
    let mut gw = Gateway::new();
    assert_eq!(run(&mut gw, "AT+OTA=BEGIN,4096"), AtReply::Request(AtRequest::OtaBegin(4096)));
    assert_eq!(run(&mut gw, "AT+OTA=WRITE,00FFa0"), AtReply::Request(AtRequest::OtaWrite(vec![0x00, 0xFF, 0xA0])));
    assert_eq!(run(&mut gw, "AT+OTA=END"), AtReply::Request(AtRequest::OtaEnd));
    assert_eq!(run(&mut gw, "AT+OTA=ABORT"), AtReply::Request(AtRequest::OtaAbort));
    assert_eq!(run_text(&mut gw, "AT+OTA=BEGIN"), "ERROR 10: usage: AT+OTA=BEGIN,<total_size>\r\n");
    assert_eq!(run_text(&mut gw, "AT+OTA=WRITE,"), "ERROR 10: empty data\r\n");
    assert_eq!(run_text(&mut gw, "AT+OTA=WRITE,ABC"), "ERROR 11: odd hex length\r\n");
    assert_eq!(run_text(&mut gw, "AT+OTA=WRITE,ABXX"), "ERROR 13: invalid hex at 2\r\n");
    assert_eq!(run_text(&mut gw, "AT+OTA=REBOOT"), "ERROR 30: cannot reboot: status=2\r\n");
    assert!(run_text(&mut gw, "AT+OTA=STATUS").starts_with("OK status=2,written=64,total=1000"));
    assert!(run_text(&mut gw, "AT+OTA=NOPE").starts_with("ERROR 2: usage: AT+OTA="));
    assert_eq!(finish(&AtRequest::OtaWrite(vec![1, 2, 3]), 67, None), "OK written=67,total=3\r\n");
    assert_eq!(finish(&AtRequest::OtaBegin(9), 0, None), "OK begin total=9\r\n");
}

#[test]
fn overlong_chunks_are_refused() {
    let mut gw = Gateway::new();
    let mut line = String::from("AT+OTA=WRITE,");
    for _ in 0..129 {
        line.push_str("00");
    }
    assert_eq!(run_text(&mut gw, &line), "ERROR 12: chunk too large (max 128 bytes)\r\n");
}
