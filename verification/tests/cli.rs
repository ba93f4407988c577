use lightguide::cli::{parse_color_byte, ColorParseError};

#[test]
fn hex_and_decimal_palette_indices() {
    assert_eq!(parse_color_byte("0x19"), Ok(0x19));
    assert_eq!(parse_color_byte("0X2d"), Ok(0x2d));
    assert_eq!(parse_color_byte("0xFF"), Ok(255));
    assert_eq!(parse_color_byte("25"), Ok(25));
    assert_eq!(parse_color_byte("0"), Ok(0));
    assert_eq!(parse_color_byte("007"), Ok(7));
    assert_eq!(parse_color_byte("+9"), Ok(9));
    assert_eq!(parse_color_byte("0x+a"), Ok(10));
}

#[test]
fn palette_index_errors() {
    assert_eq!(parse_color_byte(""), Err(ColorParseError::Empty));
    assert_eq!(parse_color_byte("0x"), Err(ColorParseError::Empty));
    assert_eq!(parse_color_byte("+"), Err(ColorParseError::InvalidDigit));
    assert_eq!(parse_color_byte("-"), Err(ColorParseError::InvalidDigit));
    assert_eq!(parse_color_byte("-1"), Err(ColorParseError::InvalidDigit));
    assert_eq!(parse_color_byte("1a"), Err(ColorParseError::InvalidDigit));
    assert_eq!(parse_color_byte("0x1g"), Err(ColorParseError::InvalidDigit));
    assert_eq!(parse_color_byte(" 5"), Err(ColorParseError::InvalidDigit));
    assert_eq!(parse_color_byte("256"), Err(ColorParseError::PosOverflow));
    assert_eq!(parse_color_byte("0x100"), Err(ColorParseError::PosOverflow));
    assert_eq!(parse_color_byte("999x"), Err(ColorParseError::PosOverflow));
}

#[test]
fn agrees_with_std_parsing() {
    for text in ["0", "1", "19", "255", "256", "+3", "-3", "", "12a", "0x", "0x1f", "0Xff", "0x1ff", "x1"] {
        let expected = if let Some(hex) = text.strip_prefix("0x").or_else(|| text.strip_prefix("0X")) {
            u8::from_str_radix(hex, 16).ok()
        } else {
            text.parse::<u8>().ok()
        };
        assert_eq!(parse_color_byte(text).ok(), expected, "{text}");
    }
}

use lightguide::cli::{harness_plan, run_commands, DEFAULT_COLOR};
use lightguide::{CommandLog, Driver, DriverCommand, DriverError};

#[test]
fn harness_plans() {
    assert_eq!(harness_plan(true, Some(3), Some(7)), vec![DriverCommand::Init, DriverCommand::SetOff]);
    assert_eq!(
        harness_plan(false, Some(24), None),
        vec![DriverCommand::Init, DriverCommand::SetOff, DriverCommand::SetOne { key: 24, color: DEFAULT_COLOR }]
    );
    assert_eq!(
        harness_plan(false, None, Some(0x2d)),
        vec![DriverCommand::Init, DriverCommand::SetAll { color: 0x2d }]
    );
    assert_eq!(harness_plan(false, None, None), vec![DriverCommand::Init, DriverCommand::SetAll { color: 0x19 }]);
}

struct Log {
    sent: Vec<DriverCommand>,
    fail_at: usize,
}

impl Log {
    fn take(&mut self, command: DriverCommand) -> Result<(), DriverError> {
        self.sent.push(command);
        if self.sent.len() == self.fail_at {
            Err(DriverError { message: format!("failed at {}", self.fail_at) })
        } else {
            Ok(())
        }
    }
}

impl Driver for Log {
    fn command_count(&self) -> u64 {
        self.sent.len() as u64
    }
    fn last_command(&self) -> Option<DriverCommand> {
        self.sent.last().copied()
    }
    fn last_succeeded(&self) -> bool {
        self.sent.len() != self.fail_at
    }
    fn init(&mut self) -> Result<(), DriverError> {
        self.take(DriverCommand::Init)
    }
    fn set_one(&mut self, key: u8, color: u8) -> Result<(), DriverError> {
        self.take(DriverCommand::SetOne { key, color })
    }
    fn set_all(&mut self, color: u8) -> Result<(), DriverError> {
        self.take(DriverCommand::SetAll { color })
    }
    fn set_off(&mut self) -> Result<(), DriverError> {
        self.take(DriverCommand::SetOff)
    }
}

#[test]
fn commands_run_in_order_and_stop_at_a_failure() {
    let plan = harness_plan(false, Some(5), Some(1));
    let mut all = CommandLog::new(Log { sent: vec![], fail_at: 0 });
    assert!(run_commands(&mut all, &plan).is_ok());
    assert_eq!(all.driver().sent, plan);
    assert_eq!(all.driver().last_command(), plan.last().copied());
    assert!(all.driver().last_succeeded());
    assert_eq!(all.driver().command_count(), 3);

    let mut broken = CommandLog::new(Log { sent: vec![], fail_at: 2 });
    assert_eq!(run_commands(&mut broken, &plan).unwrap_err().message, "failed at 2");
    assert_eq!(broken.driver().sent, plan[..2].to_vec());
    assert_eq!(broken.driver().last_command(), Some(plan[1]));
    assert!(!broken.driver().last_succeeded());
}
