use omarchy_hotspot::iw::{
    parse_current_channel, parse_iw_list, parse_reg_country, parse_station_dump,
    parse_wiphy_index,
};

const IW_LIST: &str = "Wiphy phy0
\tSupported interface modes:
\t\t * managed
\t\t * AP
\t\t * monitor
\tBand 1:
\t\tFrequencies:
\t\t\t* 2412.0 MHz [1] (22.0 dBm)
\t\t\t* 2467.0 MHz [12] (disabled)
\tBand 2:
\t\tFrequencies:
\t\t\t* 5180.0 MHz [36] (22.0 dBm)
\t\t\t* 5260.0 MHz [52] (22.0 dBm) (no IR, radar detection)
\t\t\t* 5745.0 MHz [149] (22.0 dBm) (no IR)
\tDevice supports SAE with AUTHENTICATE command
";

#[test]
fn parses_current_channel() {
    let info = "Interface wlp15s0\n\ttype AP\n\twiphy 0\n\tssid Test\n\tchannel 36 (5180 MHz), width: 20 MHz, center1: 5180 MHz\n";
    assert_eq!(parse_current_channel(info), Some(36));
    assert_eq!(parse_current_channel("Interface x\n\ttype managed\n"), None);
}

#[test]
fn parses_wiphy_index() {
    let info = "Interface wlp15s0\n\tifindex 3\n\ttype managed\n\twiphy 0\n\ttxpower 3.00 dBm\n";
    assert_eq!(parse_wiphy_index(info), Some(0));
    assert_eq!(parse_wiphy_index("Interface x\n"), None);
}

#[test]
fn parses_caps() {
    let c = parse_iw_list(IW_LIST);
    assert!(c.ap && c.sae);
    assert_eq!(c.channels_2ghz, vec![1]);
    assert_eq!(c.channels_5ghz, vec![36]);
}

#[test]
fn no_ap_without_mode() {
    let c = parse_iw_list("Wiphy phy0\n\tSupported interface modes:\n\t\t * managed\n");
    assert!(!c.ap);
}

const STATION_DUMP: &str = "Station 3c:2e:f5:11:22:33 (on wlp15s0)
\tinactive time:\t100 ms
\trx bytes:\t204800
\trx packets:\t512
\ttx bytes:\t1048576
\ttx packets:\t900
\tsignal:  \t-42 [-45, -48] dBm
\tsignal avg:\t-43 [-46, -49] dBm
\ttx bitrate:\t433.3 MBit/s VHT-MCS 9
\tauthorized:\tyes
\tauthenticated:\tyes
\tconnected time:\t3661 seconds
Station aa:bb:cc:dd:ee:01 (on wlp15s0)
\trx bytes:\t100
\ttx bytes:\t200
\tsignal:  \t-77 dBm
\tauthorized:\tno
\tconnected time:\t5 seconds
";

#[test]
fn parses_station_dump() {
    let st = parse_station_dump(STATION_DUMP);
    assert_eq!(st.len(), 2);
    assert_eq!(st[0].mac.as_str(), "3c:2e:f5:11:22:33");
    assert_eq!(st[0].signal_dbm, Some(-42));
    assert_eq!(st[0].rx_bytes, 204_800);
    assert_eq!(st[0].tx_bytes, 1_048_576);
    assert_eq!(st[0].connected_secs, 3661);
    assert!(st[0].authorized);
    assert_eq!(st[1].signal_dbm, Some(-77));
    assert!(!st[1].authorized);
}

#[test]
fn station_dump_empty_and_broken() {
    assert!(parse_station_dump("").is_empty());
    assert!(parse_station_dump("\trx bytes:\t10\n").is_empty());
    assert!(parse_station_dump("Station nonsense (on wlp15s0)\n\trx bytes:\t10\n").is_empty());
}

#[test]
fn parses_country() {
    assert_eq!(
        parse_reg_country("global\ncountry UA: DFS-ETSI\n"),
        Some("UA".into())
    );
    assert_eq!(parse_reg_country("global\ncountry 00: DFS-UNSET\n"), None);
    assert_eq!(parse_reg_country(""), None);
}

#[test]
fn channels_come_out_sorted_once() {
    let text = "\t* 2462.0 MHz [11] (20.0 dBm)\n\t* 2412.0 MHz [1] (20.0 dBm)\n\
                \t* 2462.0 MHz [11] (20.0 dBm)\n\t* 5200.0 MHz [40] (20.0 dBm)\n\
                \t* 5180.0 MHz [36] (20.0 dBm)\n\t* 6000.0 MHz [1] (20.0 dBm)\n";
    let c = parse_iw_list(text);
    assert_eq!(c.channels_2ghz, vec![1, 11]);
    assert_eq!(c.channels_5ghz, vec![36, 40]);
    assert!(!c.ap && !c.sae);
}

#[test]
fn fractional_signal_keeps_whole_part() {
    let st = parse_station_dump("Station 02:00:00:00:00:01 (on x)\n\tsignal:\t-45.5 dBm\n\trx bytes:\tabc\n");
    assert_eq!(st.len(), 1);
    assert_eq!(st[0].signal_dbm, Some(-45));
    assert_eq!(st[0].rx_bytes, 0);
    assert!(st[0].authorized);
}
