//! A status line assembled from independent collectors, with a per-slot
//! fallback to the last good value and a mirror of an audio server's
//! default-output volume.

mod audio;
mod battery;
mod clock;
mod collector;
mod internet;
mod mailbox;
mod news;
mod scheduler;
mod text;
mod weather;

pub use audio::{
    audio_text, bootstrap_step, notification_query, volume_icon, volume_percent, AudioAction,
    AudioEvent, AudioMirror, AudioState, BootstrapStep, Facility, NotificationQuery, SessionState,
};
pub use battery::{battery_line, battery_segment, parse_i32, remove_char, Battery};
pub use clock::{clock_text, Clock};
pub use collector::{Block, BlockError};
pub use internet::Internet;
pub use mailbox::Mailbox;
pub use news::{news_db, news_text, news_update_marker};
pub use scheduler::{Produced, Scheduler, StaleCache};
pub use text::{int_text, join_strings, uint_text};
pub use weather::{
    summarize_day, summarize_report, weather_text, HourlyForecast, WeatherData, WeatherState,
};
