use moonstone::config::{BlockPeriod, Config, ScheduleConfig};
use moonstone::enforcer::Enforcer;
use moonstone::schedule::{ParsedBlock, Schedule};

fn period(start: &str, end: &str) -> BlockPeriod {
    BlockPeriod { start: start.to_string(), end: end.to_string() }
}

#[test]
fn test_schedule_parsing() {
    let config = ScheduleConfig {
        blocks: vec![
            BlockPeriod {
                start: "04:00".to_string(),
                end: "17:00".to_string(),
            },
        ],
    };
    let schedule = Schedule::new(&config);
    assert_eq!(schedule.blocks.len(), 1);
}

#[test]
fn test_crosses_midnight() {
    let config = ScheduleConfig {
        blocks: vec![
            BlockPeriod {
                start: "22:00".to_string(),
                end: "06:00".to_string(),
            },
        ],
    };
    let schedule = Schedule::new(&config);
    assert!(schedule.blocks[0].crosses_midnight());
}

#[test]
fn test_enforcer_creation() {
    let config = Config::default();
    let enforcer = Enforcer::new(config);
    // Just verify it doesn't panic
    let _ = enforcer.is_blocked();
}

#[test]
fn periods_that_do_not_parse_are_left_out() {
    let config = ScheduleConfig {
        blocks: vec![period("04:00", "17:00"), period("25:00", "26:00"), period("x", "06:00"), period("22:30", "06:15")],
    };
    let schedule = Schedule::new(&config);
    assert_eq!(schedule.blocks.len(), 2);
    assert_eq!(schedule.blocks[0].start(), 4 * 3600);
    assert_eq!(schedule.blocks[0].end(), 17 * 3600);
    assert!(!schedule.blocks[0].crosses_midnight());
    assert_eq!(schedule.blocks[1].start(), 22 * 3600 + 30 * 60);
    assert_eq!(schedule.blocks[1].end(), 6 * 3600 + 15 * 60);
    assert!(schedule.blocks[1].crosses_midnight());
    assert!(Schedule::parse_block(&period("17:60", "18:00")).is_none());
    assert!(Schedule::parse_block(&period("7:15", "18:00")).is_some());
}

#[test]
fn blocked_at_times_of_day() {
    let schedule = Schedule::new(&ScheduleConfig { blocks: vec![period("22:00", "06:00")] });
    assert!(schedule.is_blocked_at(23 * 3600));
    assert!(schedule.is_blocked_at(5 * 3600));
    assert!(!schedule.is_blocked_at(10 * 3600));
    assert!(schedule.is_blocked_at(22 * 3600));
    assert!(schedule.is_blocked_at(6 * 3600));
    assert!(!schedule.is_blocked_at(6 * 3600 + 1));
    assert!(schedule.is_blocked_at(0));
    assert!(schedule.is_blocked_at(86399));

    let day = Schedule::new(&ScheduleConfig { blocks: vec![period("04:00", "17:00")] });
    assert!(day.is_blocked_at(4 * 3600));
    assert!(day.is_blocked_at(17 * 3600));
    assert!(!day.is_blocked_at(17 * 3600 + 1));
    assert!(!day.is_blocked_at(4 * 3600 - 1));
}

#[test]
fn seconds_until_unblock() {
    let night = Schedule::new(&ScheduleConfig { blocks: vec![period("22:00", "06:00")] });
    // before midnight: to midnight, then to the end
    assert_eq!(night.seconds_until_unblock_at(23 * 3600), Some(3600 + 6 * 3600));
    // after midnight
    assert_eq!(night.seconds_until_unblock_at(5 * 3600), Some(3600));
    assert_eq!(night.seconds_until_unblock_at(6 * 3600), Some(0));
    assert_eq!(night.seconds_until_unblock_at(10 * 3600), None);
    assert_eq!(night.seconds_until_unblock_at(22 * 3600), Some(8 * 3600));

    let day = Schedule::new(&ScheduleConfig { blocks: vec![period("04:00", "17:00")] });
    assert_eq!(day.seconds_until_unblock_at(16 * 3600 + 59 * 60 + 30), Some(30));
    assert_eq!(day.seconds_until_unblock_at(3 * 3600), None);

    // of several blocks that hold, the one that ends first decides
    let both = Schedule::new(&ScheduleConfig {
        blocks: vec![period("08:00", "20:00"), period("09:00", "12:00"), period("10:00", "23:00")],
    });
    assert_eq!(both.seconds_until_unblock_at(11 * 3600), Some(3600));
    assert_eq!(both.seconds_until_unblock_at(13 * 3600), Some(7 * 3600));
    assert_eq!(Schedule::new(&ScheduleConfig { blocks: vec![] }).seconds_until_unblock_at(0), None);
}

#[test]
fn default_config_leaves_ten_minutes() {
    let schedule = Schedule::new(&Config::default().schedule);
    assert_eq!(schedule.blocks.len(), 2);
    assert!(schedule.is_blocked_at(17 * 3600));
    assert!(!schedule.is_blocked_at(17 * 3600 + 1));
    assert!(!schedule.is_blocked_at(17 * 3600 + 9 * 60 + 59));
    assert!(schedule.is_blocked_at(17 * 3600 + 10 * 60));
    assert!(schedule.is_blocked_at(3 * 3600 + 59 * 60));
    assert!(!schedule.is_blocked_at(3 * 3600 + 59 * 60 + 1));
    assert!(schedule.is_blocked_at(4 * 3600));
}

#[test]
fn clock_readings_agree() {
    let always = Schedule::new(&ScheduleConfig { blocks: vec![period("00:00", "23:59")] });
    // 23:59:01 to 23:59:59 lie outside; any other reading is blocked
    if always.is_blocked() {
        assert!(always.seconds_until_unblock().map_or(true, |s| s <= 86340));
    }
    let never = Schedule::new(&ScheduleConfig { blocks: vec![] });
    assert!(!never.is_blocked());
    assert_eq!(never.seconds_until_unblock(), None);
}

#[test]
fn blocks_between_times() {
    let b: ParsedBlock = ParsedBlock::between(Some(100), Some(50)).unwrap();
    assert!(b.crosses_midnight());
    assert!(b.covers(100) && b.covers(86399) && b.covers(0) && b.covers(50));
    assert!(!b.covers(51) && !b.covers(99));
    assert_eq!(b.seconds_to_end(100), 86400 - 100 + 50);
    assert_eq!(b.seconds_to_end(10), 40);
    assert!(ParsedBlock::between(None, Some(1)).is_none());
    assert!(ParsedBlock::between(Some(1), None).is_none());
    let same = ParsedBlock::between(Some(7), Some(7)).unwrap();
    assert!(!same.crosses_midnight());
    assert!(same.covers(7) && !same.covers(8));
}
