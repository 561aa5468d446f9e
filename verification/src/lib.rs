//! Verified core of a fan, RGB and LCD controller daemon and its GUI: what
//! the daemon does with each IPC request (some listings are named reports
//! that the host fills) and in what order a tick runs, device-group
//! bookkeeping, the OpenRGB SDK wire protocol, the IPC frame format,
//! sequence playback, fan curves, fan RPM monitoring, temperature alerts,
//! schedules, power and focused-application profiles, what each LCD screen
//! is sent on each tick and how animation presets are listed, the
//! conversions between the UI's values and lighting and screen
//! configurations, the LED editor's colours and presets, the GUI's device
//! rows under daemon events, its request bridge to the daemon, the requests
//! its settings and speed pages build from the form's values, and the texts
//! the GUI reads or shows (monitor size, daemon start-up failures, schedule
//! lines).

pub mod alerts;
pub mod app_profiles;
pub mod assoc;
pub mod bridge;
pub mod bytes;
pub mod convert;
pub mod curves;
pub mod debounce;
pub mod display_size;
pub mod effects;
pub mod engine;
pub mod handler;
pub mod indicate;
pub mod launch;
pub mod lcd;
pub mod lcd_manager;
pub mod led_page;
pub mod model;
pub mod openrgb;
pub mod presets;
pub mod power;
pub mod rgb;
pub mod rgb_page;
pub mod scheduler;
pub mod settings_page;
pub mod sensor_history;
pub mod show;
pub mod speed_page;
pub mod temp_rgb;
pub mod text;
pub mod tick;
pub mod ui_state;
pub mod wire;

pub use model::GroupId;
