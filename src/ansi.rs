//! Terminal escape sequences for colors and text styles.

use vstd::prelude::*;

verus! {

pub const RESET_ANSI_CODE: &'static str = "\x1b[0m";

pub const BOLD_ANSI_CODE: &'static str = "\x1b[1m";
pub const DIM_ANSI_CODE: &'static str = "\x1b[2m";
pub const ITALIC_ANSI_CODE: &'static str = "\x1b[3m";
pub const UNDERLINE_ANSI_CODE: &'static str = "\x1b[4m";
pub const BLINK_ANSI_CODE: &'static str = "\x1b[5m";
pub const REVERSE_ANSI_CODE: &'static str = "\x1b[7m";
pub const HIDDEN_ANSI_CODE: &'static str = "\x1b[8m";
pub const STRIKE_ANSI_CODE: &'static str = "\x1b[9m";

pub const BLACK_ANSI_CODE: &'static str = "\x1b[30m";
pub const RED_ANSI_CODE: &'static str = "\x1b[31m";
pub const GREEN_ANSI_CODE: &'static str = "\x1b[32m";
pub const YELLOW_ANSI_CODE: &'static str = "\x1b[33m";
pub const BLUE_ANSI_CODE: &'static str = "\x1b[34m";
pub const MAGENTA_ANSI_CODE: &'static str = "\x1b[35m";
pub const CYAN_ANSI_CODE: &'static str = "\x1b[36m";
pub const WHITE_ANSI_CODE: &'static str = "\x1b[37m";
pub const BRIGHT_BLACK_ANSI_CODE: &'static str = "\x1b[90m";
pub const BRIGHT_RED_ANSI_CODE: &'static str = "\x1b[91m";
pub const BRIGHT_GREEN_ANSI_CODE: &'static str = "\x1b[92m";
pub const BRIGHT_YELLOW_ANSI_CODE: &'static str = "\x1b[93m";
pub const BRIGHT_BLUE_ANSI_CODE: &'static str = "\x1b[94m";
pub const BRIGHT_MAGENTA_ANSI_CODE: &'static str = "\x1b[95m";
pub const BRIGHT_CYAN_ANSI_CODE: &'static str = "\x1b[96m";
pub const BRIGHT_WHITE_ANSI_CODE: &'static str = "\x1b[97m";

pub const ON_BLACK_ANSI_CODE: &'static str = "\x1b[40m";
pub const ON_RED_ANSI_CODE: &'static str = "\x1b[41m";
pub const ON_GREEN_ANSI_CODE: &'static str = "\x1b[42m";
pub const ON_YELLOW_ANSI_CODE: &'static str = "\x1b[43m";
pub const ON_BLUE_ANSI_CODE: &'static str = "\x1b[44m";
pub const ON_MAGENTA_ANSI_CODE: &'static str = "\x1b[45m";
pub const ON_CYAN_ANSI_CODE: &'static str = "\x1b[46m";
pub const ON_WHITE_ANSI_CODE: &'static str = "\x1b[47m";
pub const ON_BRIGHT_BLACK_ANSI_CODE: &'static str = "\x1b[100m";
pub const ON_BRIGHT_RED_ANSI_CODE: &'static str = "\x1b[101m";
pub const ON_BRIGHT_GREEN_ANSI_CODE: &'static str = "\x1b[102m";
pub const ON_BRIGHT_YELLOW_ANSI_CODE: &'static str = "\x1b[103m";
pub const ON_BRIGHT_BLUE_ANSI_CODE: &'static str = "\x1b[104m";
pub const ON_BRIGHT_MAGENTA_ANSI_CODE: &'static str = "\x1b[105m";
pub const ON_BRIGHT_CYAN_ANSI_CODE: &'static str = "\x1b[106m";
pub const ON_BRIGHT_WHITE_ANSI_CODE: &'static str = "\x1b[107m";

} // verus!
