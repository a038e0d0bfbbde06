//! The settings that are kept from one run to the next.

use vstd::prelude::*;

verus! {

/// Lowest brightness that the settings offer, in percent.
pub const MIN_BRIGHTNESS: u16 = 20;

/// Highest brightness that the settings offer, in percent.
pub const MAX_BRIGHTNESS: u16 = 100;

/// The persisted settings.
#[derive(Clone, Debug)]
pub struct Config {
    pub bitpanda_api_key: String,
    pub openweather_api_key: String,
    pub openweather_location: String,
    pub bitpanda_screen_active: bool,
    pub media_screen_active: bool,
    pub system_info_screen_active: bool,
    pub weather_screen_active: bool,
    pub brightness: u16,
}

/// Where a brightness stands between the lowest setting, which is 0, and
/// the highest, which is 100. What lies below the lowest setting counts as
/// 0, and the scale goes on above the highest as far as the result fits.
pub open spec fn brightness_share(brightness: u16) -> int {
    if brightness < MIN_BRIGHTNESS {
        0
    } else if (brightness - MIN_BRIGHTNESS) * 100 / (MAX_BRIGHTNESS - MIN_BRIGHTNESS) as int
        > u16::MAX {
        u16::MAX as int
    } else {
        (brightness - MIN_BRIGHTNESS) * 100 / (MAX_BRIGHTNESS - MIN_BRIGHTNESS) as int
    }
}

/// Whether the settings let the screen `key` take part in the rotation.
/// A screen that the settings do not know always does.
pub open spec fn screen_flag(config: Config, key: Seq<char>) -> bool {
    if key == "system_info_screen"@ {
        config.system_info_screen_active
    } else if key == "media_info_screen"@ {
        config.media_screen_active
    } else if key == "bitpanda_screen"@ {
        config.bitpanda_screen_active
    } else if key == "weather_screen"@ {
        config.weather_screen_active
    } else {
        true
    }
}

/// The settings with the flag of the screen `key` set to `status`, and as
/// they are where the settings do not know that screen.
pub open spec fn with_screen_flag(config: Config, key: Seq<char>, status: bool) -> Config {
    if key == "system_info_screen"@ {
        Config { system_info_screen_active: status, ..config }
    } else if key == "media_info_screen"@ {
        Config { media_screen_active: status, ..config }
    } else if key == "bitpanda_screen"@ {
        Config { bitpanda_screen_active: status, ..config }
    } else if key == "weather_screen"@ {
        Config { weather_screen_active: status, ..config }
    } else {
        config
    }
}

impl Config {
    /// Whether the screen `key` takes part in the rotation.
    pub fn screen_active(&self, key: &String) -> (active: bool)
        ensures
            active == screen_flag(*self, key@),
    {
        if *key == "system_info_screen".to_owned() {
            self.system_info_screen_active
        } else if *key == "media_info_screen".to_owned() {
            self.media_screen_active
        } else if *key == "bitpanda_screen".to_owned() {
            self.bitpanda_screen_active
        } else if *key == "weather_screen".to_owned() {
            self.weather_screen_active
        } else {
            true
        }
    }

    /// Records whether the screen `key` takes part in the rotation.
    pub fn set_screen_active(&mut self, key: &String, status: bool)
        ensures
            *final(self) == with_screen_flag(*old(self), key@, status),
    {
        if *key == "system_info_screen".to_owned() {
            self.system_info_screen_active = status;
        } else if *key == "media_info_screen".to_owned() {
            self.media_screen_active = status;
        } else if *key == "bitpanda_screen".to_owned() {
            self.bitpanda_screen_active = status;
        } else if *key == "weather_screen".to_owned() {
            self.weather_screen_active = status;
        }
    }

    /// The brightness as the user reads it.
    pub fn brightness_percent(&self) -> (percent: u16)
        ensures
            percent == brightness_share(self.brightness),
    {
        if self.brightness < MIN_BRIGHTNESS {
            0
        } else {
            let share: u32 = (self.brightness - MIN_BRIGHTNESS) as u32 * 100 / (MAX_BRIGHTNESS
                - MIN_BRIGHTNESS) as u32;
            if share > u16::MAX as u32 {
                u16::MAX
            } else {
                share as u16
            }
        }
    }
}

} // verus!
