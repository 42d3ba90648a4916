use luckysix::error::LotteryError;
use luckysix::round::{assemble, has_calendar_shape, round_info_from, DisplayZone, RoundInfo};
use luckysix::uint256::Uint256;

fn seconds(value: u64) -> Uint256 {
    Uint256::from_u64(value)
}

fn clock_fields(text: &str) -> Vec<u32> {
    text.split(|c| c == '/' || c == ' ' || c == ':').map(|part| part.parse().unwrap()).collect()
}

#[test]
fn closing_time_is_written_in_utc() {
    let info = assemble(seconds(1), seconds(1_700_000_000), false, DisplayZone::utc()).unwrap();
    assert_eq!(
        info,
        RoundInfo {
            round_number: seconds(1),
            closing_time: "14/11/2023 22:13:20".to_string(),
            finalized: false,
        }
    );
}

#[test]
fn closing_time_follows_the_display_zone() {
    let east = DisplayZone::east(2 * 3600).unwrap();
    let info = assemble(seconds(1), seconds(1_700_000_000), true, east).unwrap();
    assert_eq!(info.closing_time, "15/11/2023 00:13:20");
    assert!(info.finalized);
    let west = DisplayZone::east(-5 * 3600 - 1800).unwrap();
    let info = assemble(seconds(9), seconds(1_700_000_000), false, west).unwrap();
    assert_eq!(info.closing_time, "14/11/2023 16:43:20");
    assert_eq!(info.round_number, seconds(9));
}

#[test]
fn closing_time_is_a_calendar_date_in_every_zone() {
    for offset in [-86_399, -43_200, -3_600, 0, 1, 19_800, 86_399] {
        let zone = DisplayZone::east(offset).unwrap();
        for epoch in [0u64, 59, 951_782_400, 1_700_000_000, 4_102_444_799] {
            let info = assemble(seconds(3), seconds(epoch), false, zone).unwrap();
            assert_eq!(info.closing_time.len(), 19);
            assert!(has_calendar_shape(&info.closing_time));
            let fields = clock_fields(&info.closing_time);
            assert_eq!(fields.len(), 6);
            assert!((1..=31).contains(&fields[0]));
            assert!((1..=12).contains(&fields[1]));
            assert!(fields[3] < 24);
            assert!(fields[4] < 60);
            assert!(fields[5] < 60);
        }
    }
}

#[test]
fn epoch_start_and_leap_day() {
    let utc = DisplayZone::utc();
    assert_eq!(assemble(seconds(1), seconds(0), false, utc).unwrap().closing_time, "01/01/1970 00:00:00");
    assert_eq!(
        assemble(seconds(1), seconds(951_782_400), false, utc).unwrap().closing_time,
        "29/02/2000 00:00:00"
    );
}

#[test]
fn times_beyond_the_calendar_are_refused() {
    let utc = DisplayZone::utc();
    for time in [
        seconds(u64::MAX),
        seconds(i64::MAX as u64),
        seconds(i64::MAX as u64 + 1),
        Uint256 { w0: 1_700_000_000, w1: 1, w2: 0, w3: 0 },
        Uint256 { w0: 0, w1: 0, w2: 0, w3: 1 },
    ] {
        assert_eq!(
            assemble(seconds(1), time, false, utc),
            Err(LotteryError::InvalidTimestamp(time))
        );
    }
}

#[test]
fn record_is_built_from_rendered_time() {
    assert_eq!(
        round_info_from(seconds(4), seconds(10), Some("01/01/1970 00:00:10".to_string()), true),
        Ok(RoundInfo {
            round_number: seconds(4),
            closing_time: "01/01/1970 00:00:10".to_string(),
            finalized: true,
        })
    );
    assert_eq!(
        round_info_from(seconds(4), seconds(10), None, true),
        Err(LotteryError::InvalidTimestamp(seconds(10)))
    );
}

#[test]
fn zones_lie_within_a_day_of_utc() {
    assert_eq!(DisplayZone::utc().offset_seconds(), 0);
    assert_eq!(DisplayZone::east(0), Some(DisplayZone::utc()));
    assert_eq!(DisplayZone::east(3600).unwrap().offset_seconds(), 3600);
    assert_eq!(DisplayZone::east(-86_399).unwrap().offset_seconds(), -86_399);
    assert_eq!(DisplayZone::east(86_400), None);
    assert_eq!(DisplayZone::east(-86_400), None);
    assert_eq!(DisplayZone::east(i32::MIN), None);
}

#[test]
fn record_is_refused_for_text_that_is_no_date() {
    for text in [
        "",
        "hello",
        "32/01/1970 00:00:10",
        "00/01/1970 00:00:10",
        "01/13/1970 00:00:10",
        "01/00/1970 00:00:10",
        "01/01/1970 24:00:10",
        "01/01/1970 00:60:10",
        "01/01/1970 00:00:60",
        "01-01-1970 00:00:10",
        "01/01/1970T00:00:10",
        "01/01/197 00:00:10",
        "1/1/1970 0:0:10",
    ] {
        assert_eq!(
            round_info_from(seconds(4), seconds(10), Some(text.to_string()), false),
            Err(LotteryError::InvalidTimestamp(seconds(10)))
        );
    }
}

#[test]
fn dates_and_times_of_day_are_told_from_other_text() {
    assert!(has_calendar_shape("14/11/2023 22:13:20"));
    assert!(has_calendar_shape("31/12/9999 23:59:59"));
    assert!(has_calendar_shape("01/01/0000 00:00:00"));
    assert!(has_calendar_shape("01/01/+10000 00:00:00"));
    assert!(has_calendar_shape("31/12/-0001 23:59:59"));
    assert!(!has_calendar_shape("14/11/2023 22:13:2"));
    assert!(!has_calendar_shape("14/11/20x3 22:13:20"));
    assert!(!has_calendar_shape("14/11/+202 22:13:20"));
    assert!(!has_calendar_shape("14/11/2023  22:13:20"));
    assert!(!has_calendar_shape("14/11/2023 22.13.20"));
}

#[test]
fn years_beyond_four_digits_are_written_with_a_sign() {
    let utc = DisplayZone::utc();
    assert_eq!(
        assemble(seconds(1), seconds(253_402_300_799), false, utc).unwrap().closing_time,
        "31/12/9999 23:59:59"
    );
    assert_eq!(
        assemble(seconds(1), seconds(253_402_300_800), false, utc).unwrap().closing_time,
        "01/01/+10000 00:00:00"
    );
    assert_eq!(
        assemble(seconds(1), seconds(8_210_266_876_799), false, utc).unwrap().closing_time,
        "31/12/+262142 23:59:59"
    );
    assert_eq!(
        assemble(seconds(1), seconds(8_210_266_876_800), false, utc),
        Err(LotteryError::InvalidTimestamp(seconds(8_210_266_876_800)))
    );
}

#[test]
fn two_zones_show_one_moment_at_different_times() {
    let epoch = seconds(1_700_000_000);
    let here = assemble(seconds(12), epoch, true, DisplayZone::utc()).unwrap();
    let there = assemble(seconds(12), epoch, true, DisplayZone::east(7200).unwrap()).unwrap();
    assert_ne!(here.closing_time, there.closing_time);
    assert_eq!(here.round_number, there.round_number);
    assert_eq!(here.finalized, there.finalized);
    assert!(has_calendar_shape(&here.closing_time));
    assert!(has_calendar_shape(&there.closing_time));
}
