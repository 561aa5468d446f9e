//! Request handler — what the daemon does with one IPC request.
//!
//! The daemon keeps its saved configuration objects (curves, sequences,
//! effects, LED presets, LCD templates), its profile names, its group
//! entries, its schedule and its alert, power, sync and polling settings in
//! a [`DaemonState`]. A request changes that state and is answered with a
//! response, events to broadcast, and the hardware actions the host must
//! perform. Where the reply depends on what the hardware answered (the
//! merge order, stopping the fans, a colour sync), the outcome names what is
//! pending and [`complete_request`] turns the hardware's results into the
//! reply.
//!
//! The configuration objects are carried as a key (their name or id) and
//! their serialised body; the handler only ever looks at the key.

use vstd::prelude::*;

use crate::alerts::{copy_action, AlertConfig, AlertRunner, TempAlert};
use crate::app_profiles::{AppProfile, AppProfileRunner};
use crate::convert::{append_dec, append_dec_u64, dec_chars, DeviceType, SpeedMode};
use crate::indicate::{flash_secs, for_other_group, schedule_restore, IndicateRestore, INDICATE_MAX_SECS};
use crate::rgb::{copy_mode, mode_at_brightness, lemma_with_brightness_view, with_brightness, ModeView, RgbMode};
use crate::show::{end_all_spec, events_view, start_spec, stop_spec, ActiveEntry, Sequence, ShowEvent, ShowEventView, ShowRunner};
use std::sync::Arc;
use crate::model::{Ring, Sensor};
use crate::lcd::{LcdConfig, LcdContent, LcdRotation};
use crate::lcd_manager::DeviceId;
use crate::model::{GroupId, Rgb};
use crate::power::{PowerConfig, PowerRunner};
use crate::text::same_text;
use crate::scheduler::{entry_error, FanRole, ScheduleAction, ScheduleEntry, ScheduleRunner, Target, Weekday};
use crate::text::chars_of;
use crate::wire::{hello_reply, negotiated_protocol, too_old_text, PROTOCOL_VERSION, PROTOCOL_VERSION_MIN};

verus! {

/// Most groups a hardware merge order may hold.
pub const MAX_MERGE_GROUPS: usize = 4;

/// A saved configuration object: its key (name or id) and its serialised body.
#[derive(Clone, Debug)]
pub struct SavedItem {
    pub key: String,
    pub body: String,
}

/// The daemon's configuration entry for one device group.
#[derive(Clone, Debug)]
pub struct GroupEntry {
    pub id: GroupId,
    pub name: String,
    pub device_type: DeviceType,
    pub fan_count: u8,
    pub role: FanRole,
    pub excluded: bool,
    /// Speed control kept for the group.
    pub speed: SpeedMode,
    /// Lighting kept for the group.
    pub rgb: RgbMode,
    /// Screen settings kept for the group, if any.
    pub lcd: Option<LcdConfig>,
}

/// A group's configuration entry as values.
pub ghost struct GroupEntryView {
    pub id: GroupId,
    pub name: String,
    pub device_type: DeviceType,
    pub fan_count: u8,
    pub role: FanRole,
    pub excluded: bool,
    pub speed: SpeedMode,
    pub rgb: ModeView,
    pub lcd: Option<LcdConfig>,
}

impl GroupEntry {
    pub open spec fn view(&self) -> GroupEntryView {
        GroupEntryView {
            id: self.id,
            name: self.name,
            device_type: self.device_type,
            fan_count: self.fan_count,
            role: self.role,
            excluded: self.excluded,
            speed: self.speed,
            rgb: self.rgb@,
            lcd: self.lcd,
        }
    }
}

/// The entries as values, in order.
pub open spec fn group_entry_views(s: Seq<GroupEntry>) -> Seq<GroupEntryView> {
    s.map_values(|e: GroupEntry| e.view())
}

/// What the handler reads of one connected device group.
#[derive(Clone, Debug)]
pub struct DeviceInfo {
    pub group: GroupId,
    pub name: String,
    /// Name of the backend that drives it ("lianli-rf", "aura", "openrgb", ...).
    pub backend: String,
    pub role: FanRole,
    pub device_type: DeviceType,
    pub fan_capable: bool,
    /// Whether the motherboard drives its fans.
    pub mb_sync: bool,
    /// Whether the device reported a radio address (needed to unbind it).
    pub has_mac: bool,
    /// The lighting it shows, when known.
    pub rgb_mode: Option<RgbMode>,
    /// Number of fans in the group.
    pub fan_count: u8,
    /// Speed of each fan, in RPM.
    pub rpms: Vec<u16>,
    /// The fixed speed last set, in percent, when known.
    pub speed_percent: Option<u8>,
    /// Number of fans with an LCD screen.
    pub lcd_count: u8,
}

/// The connected devices, in group order, the number of devices seen that
/// are not bound yet, and whether a wireless (RF) backend is present.
#[derive(Clone, Debug)]
pub struct SystemView {
    pub devices: Vec<DeviceInfo>,
    pub unbound: usize,
    pub has_rf: bool,
    /// Whether a motherboard RGB (AURA) backend is present.
    pub has_aura: bool,
    /// The sensors the host can read now.
    pub sensors: Vec<Sensor>,
    /// The registered LCD screens, in registration order.
    pub lcd_devices: Vec<DeviceId>,
    /// Firmware version of the radio dongle, when a radio backend reports one.
    pub tx_firmware: Option<u16>,
    /// Radio address of the dongle, when a radio backend reports one.
    pub tx_mac: Option<[u8; 6]>,
}

/// Which devices a colour sync reaches. Empty role and device-type lists
/// mean every role and every type.
#[derive(Clone, Debug)]
pub struct SyncConfig {
    pub enabled: bool,
    pub include_lianli: bool,
    pub include_mobo_rgb: bool,
    pub include_openrgb: bool,
    pub include_roles: Vec<FanRole>,
    pub include_device_types: Vec<DeviceType>,
    pub exclude_groups: Vec<GroupId>,
}

/// Everything the handler keeps between requests.
#[derive(Debug)]
pub struct DaemonState {
    pub curves: Vec<SavedItem>,
    pub sequences: Vec<SavedItem>,
    pub effects: Vec<SavedItem>,
    pub led_presets: Vec<SavedItem>,
    pub lcd_templates: Vec<SavedItem>,
    pub profiles: Vec<String>,
    pub groups: Vec<GroupEntry>,
    pub schedule: ScheduleRunner,
    pub merge_order: Option<Vec<GroupId>>,
    pub sync: Option<SyncConfig>,
    pub alerts: AlertRunner,
    pub power: PowerRunner,
    pub poll_interval_ms: u32,
    pub bind_scanning: bool,
    /// Indicator flashes waiting to be undone.
    pub restores: Vec<IndicateRestore>,
    pub app_profiles: AppProfileRunner,
    /// Sequence and effect-cycle playback; scenes are carried as text.
    pub show: ShowRunner<String>,
}

/// A request from an IPC client.
#[derive(Debug)]
pub enum Request {
    Hello { protocol_version: u32 },
    Subscribe,
    Unsubscribe,
    ListProfiles,
    SaveProfile { name: String },
    DeleteProfile { name: String },
    SwitchProfile { name: String },
    ListCurves,
    /// `invalid` is what the curve's own check found wrong with it.
    SaveCurve { curve: SavedItem, invalid: Option<String> },
    DeleteCurve { name: String },
    ListSequences,
    SaveSequence { sequence: SavedItem },
    DeleteSequence { name: String },
    ListEffects,
    SaveEffect { effect: SavedItem },
    DeleteEffect { name: String },
    ListLedPresets,
    SaveLedPreset { preset: SavedItem },
    DeleteLedPreset { name: String },
    ListLcdTemplates,
    SaveLcdTemplate { template: SavedItem },
    DeleteLcdTemplate { id: String },
    AddSchedule { entry: ScheduleEntry },
    DeleteSchedule { index: usize },
    ClearSchedule,
    /// `invalid` is what the name check found wrong with the new name.
    RenameGroup { group: GroupId, name: String, invalid: Option<String> },
    SetRole { group: GroupId, role: FanRole },
    ExcludeGroup { group: GroupId },
    IncludeGroup { group: GroupId },
    ForgetGroup { group: GroupId },
    EnterBindMode,
    ExitBindMode,
    ReorderGroups { order: Vec<GroupId> },
    StopFans,
    Sync { color: Rgb, config: SyncConfig },
    SetSyncConfig { config: SyncConfig },
    SetAlertConfig { config: AlertConfig },
    SetPowerConfig { config: PowerConfig },
    SetDaemonConfig { poll_interval_ms: u32 },
    /// Flash a group white for `duration_secs` (1 to 10) to find it;
    /// `previous` is the lighting it shows now, restored afterwards.
    Indicate { group: GroupId, duration_secs: u32, previous: RgbMode },
    /// Reset the devices of the target (all groups without one).
    Reset { target: Option<Target> },
    /// `invalid` is what the name check found wrong with the new name.
    CopyProfile { from: String, to: String, invalid: Option<String> },
    SetAppProfiles { profiles: Vec<AppProfile> },
    /// Hand a group's fans to the motherboard (`enable`) or take them back.
    SetMbSync { group: GroupId, enable: bool },
    Lock,
    Unlock,
    /// Set a group's speed control. `inline_curve` is the curve of a
    /// `Curve` mode; `invalid` is what the mode's own check found wrong.
    SetSpeed { group: GroupId, mode: SpeedMode, inline_curve: Option<String>, invalid: Option<String> },
    /// Set the speed control of every fan-capable group of the target that
    /// the motherboard does not drive.
    SetSpeedAll { target: Target, mode: SpeedMode, invalid: Option<String> },
    /// Play an effect cycle on every group, as the show `cycle_show` makes
    /// of it.
    SetEffectCycle { show: Arc<Sequence<String>> },
    /// Play a saved sequence on the target (every group without one).
    StartSequence { name: String, target: Option<Target> },
    /// Stop playback on the target (every group without one).
    StopSequence { target: Option<Target> },
    StopAllSequences,
    Status,
    StatusVerbose,
    /// Subscribe and get the device status.
    Watch,
    Discover,
    ListGroups,
    ListLcdDevices,
    ListSensors,
    GetSensorReading { sensor: Sensor },
    ListPresets,
    GetFirmwareInfo,
    MoboDetect,
    MoboStatus,
    MoboSetSpeed { channel: u8, percent: u8 },
    MoboAuto { channel: u8 },
    MoboTemps,
    ListAuraChannels,
    /// Run the motherboard's own lighting effect `effect` in `color` on a group.
    SetAuraEffect { group: GroupId, effect: u8, color: [u8; 3] },
    /// Render an LCD template for preview, at most 2048 pixels each way.
    RenderTemplatePreview { template: String, width: u32, height: u32 },
    GetCurveSuggestions,
    GetRecoveryCounters,
    GetWearStats,
    SetRgb { group: GroupId, mode: RgbMode },
    SetRgbAll { target: Target, mode: RgbMode },
    /// Set every brightness of the lighting the target's groups show.
    SetBrightness { target: Target, level: u8 },
    /// `mode` is the pump setting as text; `invalid` is what its own check found wrong.
    SetPumpMode { group: GroupId, mode: String, invalid: Option<String> },
    SetLcd { lcd_index: usize, config: LcdConfig },
    ListSchedule,
    GetAlertConfig,
    GetSyncConfig,
    GetDaemonConfig,
    /// Write the configuration to `path`; `path_error` is why the path
    /// was refused (see `config_path_verdict`).
    ExportConfig { path: String, path_error: Option<String> },
    /// Take over a configuration read from a file, merged into the current
    /// one or replacing it; `problem` is why the file could not be read.
    ImportConfig { imported: ImportedConfig, merge: bool, problem: Option<String> },
    /// Read the configuration file again.
    ReloadConfig,
    /// New sensor offsets, as text.
    SetSensorCalibration { calibration: String },
    /// Bind the first unbound device to `group`, locking the devices
    /// afterwards when `lock` is set.
    Bind { group: GroupId, lock: bool },
    Unbind { group: GroupId },
}

/// The parts of a configuration file the handler takes over on import.
#[derive(Debug)]
pub struct ImportedConfig {
    pub profiles: Vec<String>,
    pub curves: Vec<SavedItem>,
    pub sequences: Vec<SavedItem>,
    pub effects: Vec<SavedItem>,
    pub led_presets: Vec<SavedItem>,
    pub lcd_templates: Vec<SavedItem>,
    pub groups: Vec<GroupEntry>,
}

/// Which groups a schedule target stands for, as values.
pub ghost enum TargetView {
    All,
    Group(GroupId),
    Groups(Seq<GroupId>),
    Role(FanRole),
}

/// What a schedule entry does, as values.
pub ghost enum ScheduleActionView {
    SwitchProfile(Seq<char>),
    SetSpeed { target: TargetView, percent: u8 },
    ApplyCurve { target: TargetView, curve: Seq<char> },
}

/// A schedule entry as values.
pub ghost struct EntryView {
    pub hour: u8,
    pub minute: u8,
    pub days: Seq<Weekday>,
    pub action: ScheduleActionView,
}

/// Alert settings as values.
pub ghost struct AlertConfigView {
    pub temp_alerts: Seq<TempAlert>,
    pub fan_stall_detect: bool,
    pub device_disconnect: bool,
}

/// Sync settings as values.
pub ghost struct SyncConfigView {
    pub enabled: bool,
    pub include_lianli: bool,
    pub include_mobo_rgb: bool,
    pub include_openrgb: bool,
    pub include_roles: Seq<FanRole>,
    pub include_device_types: Seq<DeviceType>,
    pub exclude_groups: Seq<GroupId>,
}

/// What the host reports from the devices and sensors it reads.
#[derive(Clone, Copy, Debug, PartialEq, Eq, Structural)]
pub enum Report {
    /// The status of every device after a discovery: the host reads the
    /// devices anew and lists them with [`build_status_list`].
    DeviceStatus,
    /// The LCD screens.
    LcdDevices,
    /// The sensors and their readings.
    SensorList,
    /// The reading of one sensor.
    SensorReading(Sensor),
    /// The LCD animation presets.
    LcdPresets,
    /// The motherboard lighting channels.
    AuraChannels,
    /// The rendered template preview.
    TemplatePreview,
    /// Suggested fan curves.
    CurveSuggestions,
    /// The USB and sensor recovery counters.
    RecoveryCounters,
    /// The running time of each group (named by `wear_label`).
    WearStats,
}

/// The answer to a request.
#[derive(Debug)]
pub enum Response {
    /// Every connected group and what it shows now.
    DeviceStatus(Vec<GroupStatus>),
    /// Every connected group.
    GroupList(Vec<GroupInfo>),
    /// Answered with what the host reads now.
    Report(Report),
    FirmwareInfo { tx_version: String, rx_version: String },
    ScheduleList(Vec<ScheduleEntry>),
    AlertConfig(AlertConfig),
    SyncConfig(SyncConfig),
    DaemonConfig { poll_interval_ms: u32 },
    Done,
    Error(String),
    Hello { protocol_version: u32 },
    Items(Vec<SavedItem>),
    ProfileList(Vec<String>),
}

/// What a response says.
#[verifier::ext_equal]
pub enum ResponseView {
    DeviceStatus(Seq<GroupStatusView>),
    GroupList(Seq<GroupInfoView>),
    Report(Report),
    FirmwareInfo { tx_version: Seq<char>, rx_version: Seq<char> },
    ScheduleList(Seq<EntryView>),
    AlertConfig(AlertConfigView),
    SyncConfig(SyncConfigView),
    DaemonConfig { poll_interval_ms: u32 },
    Done,
    Error(Seq<char>),
    Hello { protocol_version: u32 },
    Items(Seq<SavedItem>),
    ProfileList(Seq<String>),
}

/// A device group as listed: its number, name, kind, role, fan count and
/// the speed of each fan in RPM.
#[derive(Clone, Debug)]
pub struct GroupInfo {
    pub group: GroupId,
    pub name: String,
    pub device_type: DeviceType,
    pub role: FanRole,
    pub fan_count: u8,
    pub rpms: Vec<u16>,
}

/// A device group's status: the group, its speed control and lighting
/// (live or defaults), its screens and whether the motherboard drives it.
#[derive(Clone, Debug)]
pub struct GroupStatus {
    pub info: GroupInfo,
    pub speed: SpeedMode,
    pub rgb: RgbMode,
    /// The screen settings shown for a group with screens.
    pub lcd: Option<LcdConfig>,
    pub lcd_count: u8,
    pub mb_sync: bool,
    pub online: bool,
}

/// A listed group as values.
pub ghost struct GroupInfoView {
    pub group: GroupId,
    pub name: Seq<char>,
    pub device_type: DeviceType,
    pub role: FanRole,
    pub fan_count: u8,
    pub rpms: Seq<u16>,
}

/// A group's status as values.
pub ghost struct GroupStatusView {
    pub info: GroupInfoView,
    pub speed: SpeedMode,
    pub rgb: ModeView,
    pub lcd: Option<LcdConfig>,
    pub lcd_count: u8,
    pub mb_sync: bool,
    pub online: bool,
}

impl GroupInfo {
    pub open spec fn view(&self) -> GroupInfoView {
        GroupInfoView {
            group: self.group,
            name: self.name@,
            device_type: self.device_type,
            role: self.role,
            fan_count: self.fan_count,
            rpms: self.rpms@,
        }
    }
}

impl GroupStatus {
    pub open spec fn view(&self) -> GroupStatusView {
        GroupStatusView {
            info: self.info@,
            speed: self.speed,
            rgb: self.rgb@,
            lcd: self.lcd,
            lcd_count: self.lcd_count,
            mb_sync: self.mb_sync,
            online: self.online,
        }
    }
}

/// The listed groups as values.
pub open spec fn info_views(s: Seq<GroupInfo>) -> Seq<GroupInfoView> {
    s.map_values(|g: GroupInfo| g.view())
}

/// The statuses as values.
pub open spec fn status_views(s: Seq<GroupStatus>) -> Seq<GroupStatusView> {
    s.map_values(|g: GroupStatus| g.view())
}

/// How a device is listed.
pub open spec fn info_of(d: DeviceInfo) -> GroupInfoView {
    GroupInfoView {
        group: d.group,
        name: d.name@,
        device_type: d.device_type,
        role: d.role,
        fan_count: d.fan_count,
        rpms: d.rpms@,
    }
}

/// The screen settings shown for a group with screens: brightness 200, no
/// rotation, nothing shown.
pub open spec fn shown_screen() -> LcdConfig {
    LcdConfig { brightness: 200, rotation: LcdRotation::R0, content: LcdContent::Off }
}

/// A device's status: with `live`, the speed last set (else the
/// motherboard's control) and the lighting it shows (else off); without,
/// those defaults. A group with screens shows the default screen settings.
pub open spec fn status_of(d: DeviceInfo, live: bool) -> GroupStatusView {
    GroupStatusView {
        info: info_of(d),
        speed: if live && d.speed_percent is Some {
            SpeedMode::Manual(d.speed_percent->0)
        } else {
            SpeedMode::Pwm
        },
        rgb: if live && d.rgb_mode is Some {
            d.rgb_mode->0@
        } else {
            ModeView::Off
        },
        lcd: if d.lcd_count > 0 {
            Some(shown_screen())
        } else {
            None
        },
        lcd_count: d.lcd_count,
        mb_sync: d.mb_sync,
        online: true,
    }
}

/// Every device as listed, in order.
pub open spec fn group_infos(ds: Seq<DeviceInfo>) -> Seq<GroupInfoView> {
    ds.map_values(|d: DeviceInfo| info_of(d))
}

/// Every device's status, in order.
pub open spec fn status_list(ds: Seq<DeviceInfo>, live: bool) -> Seq<GroupStatusView> {
    ds.map_values(|d: DeviceInfo| status_of(d, live))
}

fn copy_rpms(v: &Vec<u16>) -> (r: Vec<u16>)
    ensures
        r@ == v@,
{
    let mut r: Vec<u16> = Vec::new();
    let mut i: usize = 0;
    while i < v.len()
        invariant
            i <= v@.len(),
            r@ == v@.subrange(0, i as int),
        decreases v@.len() - i,
    {
        r.push(v[i]);
        proof {
            assert(v@.subrange(0, i + 1) =~= v@.subrange(0, i as int).push(v@[i as int]));
        }
        i = i + 1;
    }
    proof {
        assert(v@.subrange(0, i as int) =~= v@);
    }
    r
}

/// How a device is listed.
pub fn group_info(d: &DeviceInfo) -> (r: GroupInfo)
    ensures
        r@ == info_of(*d),
{
    GroupInfo {
        group: d.group,
        name: d.name.clone(),
        device_type: d.device_type,
        role: copy_role(&d.role),
        fan_count: d.fan_count,
        rpms: copy_rpms(&d.rpms),
    }
}

/// A device's status, live or with the defaults.
pub fn group_status(d: &DeviceInfo, live: bool) -> (r: GroupStatus)
    ensures
        r@ == status_of(*d, live),
{
    let speed = match d.speed_percent {
        Some(p) => if live {
            SpeedMode::Manual(p)
        } else {
            SpeedMode::Pwm
        },
        None => SpeedMode::Pwm,
    };
    let rgb = match &d.rgb_mode {
        Some(m) => if live {
            copy_mode(m)
        } else {
            RgbMode::Off
        },
        None => RgbMode::Off,
    };
    let lcd = if d.lcd_count > 0 {
        Some(LcdConfig { brightness: 200, rotation: LcdRotation::R0, content: LcdContent::Off })
    } else {
        None
    };
    GroupStatus { info: group_info(d), speed, rgb, lcd, lcd_count: d.lcd_count, mb_sync: d.mb_sync, online: true }
}

/// Every connected group, in order.
pub fn list_groups(sys: &SystemView) -> (r: Vec<GroupInfo>)
    ensures
        info_views(r@) == group_infos(sys.devices@),
{
    let mut r: Vec<GroupInfo> = Vec::new();
    let mut i: usize = 0;
    while i < sys.devices.len()
        invariant
            i <= sys.devices@.len(),
            info_views(r@) =~= group_infos(sys.devices@.subrange(0, i as int)),
        decreases sys.devices@.len() - i,
    {
        let g = group_info(&sys.devices[i]);
        let ghost before = r@;
        r.push(g);
        proof {
            assert(r@ =~= before.push(g));
            assert(info_views(r@) =~= info_views(before).push(g@));
            assert(sys.devices@.subrange(0, i + 1) =~= sys.devices@.subrange(0, i as int).push(sys.devices@[i as int]));
            assert(group_infos(sys.devices@.subrange(0, i + 1)) =~= group_infos(sys.devices@.subrange(0, i as int)).push(
                info_of(sys.devices@[i as int]),
            ));
        }
        i = i + 1;
    }
    proof {
        assert(sys.devices@.subrange(0, i as int) =~= sys.devices@);
    }
    r
}

/// Every connected group's status, in order: live (`live`) or with the
/// defaults.
pub fn build_status_list(sys: &SystemView, live: bool) -> (r: Vec<GroupStatus>)
    ensures
        status_views(r@) == status_list(sys.devices@, live),
{
    let mut r: Vec<GroupStatus> = Vec::new();
    let mut i: usize = 0;
    while i < sys.devices.len()
        invariant
            i <= sys.devices@.len(),
            status_views(r@) =~= status_list(sys.devices@.subrange(0, i as int), live),
        decreases sys.devices@.len() - i,
    {
        let g = group_status(&sys.devices[i], live);
        let ghost before = r@;
        r.push(g);
        proof {
            assert(r@ =~= before.push(g));
            assert(status_views(r@) =~= status_views(before).push(g@));
            assert(sys.devices@.subrange(0, i + 1) =~= sys.devices@.subrange(0, i as int).push(sys.devices@[i as int]));
            assert(status_list(sys.devices@.subrange(0, i + 1), live) =~= status_list(
                sys.devices@.subrange(0, i as int),
                live,
            ).push(status_of(sys.devices@[i as int], live)));
        }
        i = i + 1;
    }
    proof {
        assert(sys.devices@.subrange(0, i as int) =~= sys.devices@);
    }
    r
}

/// Events broadcast to subscribed clients.
#[derive(Clone, Debug)]
pub enum DaemonEvent {
    ProfileSwitched { name: String },
    /// The unbound device at this index of the host's list.
    BindDiscovered { index: usize },
    SpeedChanged { group: GroupId, mode: SpeedMode },
    RgbChanged { group: GroupId, mode: RgbMode },
    /// A show stepped or ended.
    Show(ShowEvent),
    /// A fan curve set a group's speed (percent) at a temperature (whole
    /// degrees).
    CurveApplied { group: GroupId, speed: u8, temp: i32 },
}

/// What an event says.
pub ghost enum EventView {
    ProfileSwitched { name: Seq<char> },
    BindDiscovered { index: usize },
    SpeedChanged { group: GroupId, mode: SpeedMode },
    RgbChanged { group: GroupId, mode: ModeView },
    Show(ShowEventView),
    CurveApplied { group: GroupId, speed: u8, temp: i32 },
}

impl DaemonEvent {
    pub open spec fn view(&self) -> EventView {
        match self {
            DaemonEvent::ProfileSwitched { name } => EventView::ProfileSwitched { name: name@ },
            DaemonEvent::BindDiscovered { index } => EventView::BindDiscovered { index: *index },
            DaemonEvent::SpeedChanged { group, mode } => EventView::SpeedChanged { group: *group, mode: *mode },
            DaemonEvent::RgbChanged { group, mode } => EventView::RgbChanged { group: *group, mode: mode@ },
            DaemonEvent::Show(e) => EventView::Show(e.view()),
            DaemonEvent::CurveApplied { group, speed, temp } => EventView::CurveApplied {
                group: *group,
                speed: *speed,
                temp: *temp,
            },
        }
    }
}

/// What the events say, in order.
pub open spec fn event_views(s: Seq<DaemonEvent>) -> Seq<EventView> {
    s.map_values(|e: DaemonEvent| e.view())
}

/// What the announcements say, in order.
pub open spec fn option_views(s: Seq<Option<DaemonEvent>>) -> Seq<Option<EventView>> {
    s.map_values(
        |e: Option<DaemonEvent>|
            match e {
                Some(x) => Some(x.view()),
                None => None,
            },
    )
}

/// Hardware and engine work the host performs for a request, in order.
#[derive(Debug)]
pub enum Action {
    CaptureProfile { name: String },
    ApplyProfile { name: String },
    ReloadSequences,
    RenameDevice { group: GroupId, name: String },
    SetDeviceRole { group: GroupId, role: FanRole },
    SetMergeOrder { order: Vec<GroupId> },
    RemoveCurve { group: GroupId },
    MbSyncOff { group: GroupId },
    StopFan { group: GroupId },
    SetRgb { group: GroupId, mode: RgbMode },
    /// Light the whole group white at full brightness.
    Flash { group: GroupId },
    ResetDevice { group: GroupId },
    CopyProfile { from: String, to: String },
    SetMbSync { group: GroupId, enable: bool },
    Lock,
    Unlock,
    /// Run the saved curve `name` for the group.
    ActivateCurve { group: GroupId, name: String },
    /// Run the request's own curve for the group.
    SetInlineCurve { group: GroupId, curve: Option<String> },
    SetSpeed { group: GroupId, mode: SpeedMode },
    /// Bind the unbound device at `index` of the host's list to `group`;
    /// on success, lock the devices when `lock` is set.
    BindDevice { index: usize, group: GroupId, lock: bool },
    /// Unbind the first device of `group` by its radio address.
    UnbindDevice { group: GroupId },
    /// Refresh the device registry.
    Discover,
    SetPump { group: GroupId, mode: String },
    ConfigureLcd { device: DeviceId, config: LcdConfig },
    WriteConfig { path: String },
    ReloadConfig,
    ApplyCalibration { calibration: String },
    SetAuraEffect { group: GroupId, effect: u8, color: [u8; 3] },
    RenderPreview { template: String, width: u32, height: u32 },
}

/// What an action asks for.
#[verifier::ext_equal]
pub enum ActionView {
    CaptureProfile { name: Seq<char> },
    ApplyProfile { name: Seq<char> },
    ReloadSequences,
    RenameDevice { group: GroupId, name: Seq<char> },
    SetDeviceRole { group: GroupId, role: FanRole },
    SetMergeOrder { order: Seq<GroupId> },
    RemoveCurve { group: GroupId },
    MbSyncOff { group: GroupId },
    StopFan { group: GroupId },
    SetRgb { group: GroupId, mode: ModeView },
    Flash { group: GroupId },
    ResetDevice { group: GroupId },
    CopyProfile { from: Seq<char>, to: Seq<char> },
    SetMbSync { group: GroupId, enable: bool },
    Lock,
    Unlock,
    ActivateCurve { group: GroupId, name: Seq<char> },
    SetInlineCurve { group: GroupId, curve: Option<String> },
    SetSpeed { group: GroupId, mode: SpeedMode },
    BindDevice { index: usize, group: GroupId, lock: bool },
    UnbindDevice { group: GroupId },
    Discover,
    SetPump { group: GroupId, mode: Seq<char> },
    ConfigureLcd { device: DeviceId, config: LcdConfig },
    WriteConfig { path: Seq<char> },
    ReloadConfig,
    ApplyCalibration { calibration: Seq<char> },
    SetAuraEffect { group: GroupId, effect: u8, color: [u8; 3] },
    RenderPreview { template: Seq<char>, width: u32, height: u32 },
}

/// A reply that waits for the hardware: the host hands the results of the
/// awaited actions to [`complete_request`].
#[derive(Debug)]
pub enum Pending {
    Nothing,
    /// Awaits the result of the one `SetMergeOrder` action.
    MergeOrder { order: Vec<GroupId> },
    /// Awaits the result of each `StopFan` action, in order.
    StopFans { groups: Vec<GroupId> },
    /// Awaits the result of each `SetRgb` action, in order: group `i`
    /// was asked to show mode `i`.
    Colors { groups: Vec<GroupId>, modes: Vec<RgbMode> },
    /// Awaits the result of the one `SetRgb` action of a single group.
    Rgb { group: GroupId, mode: RgbMode },
    /// Awaits the result of the one `Flash` action.
    Indicate { group: GroupId, duration_secs: u32, previous: RgbMode },
    /// Awaits the result of each `ResetDevice` action, in order.
    Reset { groups: Vec<GroupId> },
    /// Awaits the result of the one `SetMbSync` action.
    MbSync,
    /// Awaits the result of the one `Lock` action.
    Lock,
    /// Awaits the result of the one `Unlock` action.
    Unlock,
    /// Awaits the result of each `SetSpeed` action, in order.
    Speeds { groups: Vec<GroupId>, mode: SpeedMode },
    /// Awaits the result of one action whose error text is the reply
    /// (binding, unbinding, writing the configuration out).
    Single,
    /// Awaits the result of the one `Discover` action.
    Discovery,
    /// Awaits the result of the one `SetSpeed` action of a motherboard channel.
    MoboSpeed,
    /// Awaits the result of the one `SetSpeed` action handing a channel to the BIOS.
    MoboAuto,
    /// Awaits the result of the one `SetPump` action.
    Pump,
    /// Awaits the result of the one `RenderPreview` action.
    Preview,
}

/// What is awaited.
#[verifier::ext_equal]
pub enum PendingView {
    Nothing,
    MergeOrder { order: Seq<GroupId> },
    StopFans { groups: Seq<GroupId> },
    Colors { groups: Seq<GroupId>, modes: Seq<ModeView> },
    Rgb { group: GroupId, mode: ModeView },
    Indicate { group: GroupId, duration_secs: u32, previous: RgbMode },
    Reset { groups: Seq<GroupId> },
    MbSync,
    Lock,
    Unlock,
    Speeds { groups: Seq<GroupId>, mode: SpeedMode },
    Single,
    Discovery,
    MoboSpeed,
    MoboAuto,
    Pump,
    Preview,
}

/// The result of handling a request. `flush` says the configuration changed
/// and must be written out.
#[derive(Debug)]
pub struct HandleOutcome {
    pub response: Response,
    pub events: Vec<DaemonEvent>,
    pub actions: Vec<Action>,
    pub pending: Pending,
    pub flush: bool,
}

/// What an outcome says.
#[verifier::ext_equal]
pub struct OutcomeView {
    pub response: ResponseView,
    pub events: Seq<EventView>,
    pub actions: Seq<ActionView>,
    pub pending: PendingView,
    pub flush: bool,
}

/// The state as values.
#[verifier::ext_equal]
pub struct DaemonView {
    pub curves: Seq<SavedItem>,
    pub sequences: Seq<SavedItem>,
    pub effects: Seq<SavedItem>,
    pub led_presets: Seq<SavedItem>,
    pub lcd_templates: Seq<SavedItem>,
    pub profiles: Seq<String>,
    pub groups: Seq<GroupEntryView>,
    pub schedule: Seq<ScheduleEntry>,
    pub schedule_minute: Option<u16>,
    pub schedule_check_secs: u64,
    pub merge_order: Option<Seq<GroupId>>,
    pub sync: Option<SyncConfig>,
    pub alert_config: Option<AlertConfig>,
    pub alert_states: Seq<bool>,
    pub alert_sensors: Map<crate::model::Sensor, i32>,
    pub power_config: Option<PowerConfig>,
    pub power_on_ac: Option<bool>,
    pub poll_interval_ms: u32,
    pub bind_scanning: bool,
    pub restores: Seq<IndicateRestore>,
    pub app_profiles: Seq<AppProfile>,
    pub app_last_matched: Option<String>,
    pub show_active: Seq<ActiveEntry<String>>,
    pub show_sequences: Seq<Arc<Sequence<String>>>,
}

impl Response {
    pub open spec fn view(&self) -> ResponseView {
        match self {
            Response::Done => ResponseView::Done,
            Response::DeviceStatus(v) => ResponseView::DeviceStatus(status_views(v@)),
            Response::GroupList(v) => ResponseView::GroupList(info_views(v@)),
            Response::Report(k) => ResponseView::Report(*k),
            Response::ScheduleList(v) => ResponseView::ScheduleList(v@.map_values(|e: ScheduleEntry| entry_view(e))),
            Response::AlertConfig(c) => ResponseView::AlertConfig(alert_config_view(*c)),
            Response::SyncConfig(c) => ResponseView::SyncConfig(sync_config_view(*c)),
            Response::DaemonConfig { poll_interval_ms } => ResponseView::DaemonConfig {
                poll_interval_ms: *poll_interval_ms,
            },
            Response::FirmwareInfo { tx_version, rx_version } => ResponseView::FirmwareInfo {
                tx_version: tx_version@,
                rx_version: rx_version@,
            },
            Response::Error(m) => ResponseView::Error(m@),
            Response::Hello { protocol_version } => ResponseView::Hello { protocol_version: *protocol_version },
            Response::Items(v) => ResponseView::Items(v@),
            Response::ProfileList(v) => ResponseView::ProfileList(v@),
        }
    }
}

impl Action {
    pub open spec fn view(&self) -> ActionView {
        match self {
            Action::CaptureProfile { name } => ActionView::CaptureProfile { name: name@ },
            Action::ApplyProfile { name } => ActionView::ApplyProfile { name: name@ },
            Action::ReloadSequences => ActionView::ReloadSequences,
            Action::RenameDevice { group, name } => ActionView::RenameDevice { group: *group, name: name@ },
            Action::SetDeviceRole { group, role } => ActionView::SetDeviceRole { group: *group, role: *role },
            Action::SetMergeOrder { order } => ActionView::SetMergeOrder { order: order@ },
            Action::RemoveCurve { group } => ActionView::RemoveCurve { group: *group },
            Action::MbSyncOff { group } => ActionView::MbSyncOff { group: *group },
            Action::StopFan { group } => ActionView::StopFan { group: *group },
            Action::SetRgb { group, mode } => ActionView::SetRgb { group: *group, mode: mode@ },
            Action::Flash { group } => ActionView::Flash { group: *group },
            Action::ResetDevice { group } => ActionView::ResetDevice { group: *group },
            Action::CopyProfile { from, to } => ActionView::CopyProfile { from: from@, to: to@ },
            Action::SetMbSync { group, enable } => ActionView::SetMbSync { group: *group, enable: *enable },
            Action::Lock => ActionView::Lock,
            Action::Unlock => ActionView::Unlock,
            Action::ActivateCurve { group, name } => ActionView::ActivateCurve { group: *group, name: name@ },
            Action::SetInlineCurve { group, curve } => ActionView::SetInlineCurve { group: *group, curve: *curve },
            Action::SetSpeed { group, mode } => ActionView::SetSpeed { group: *group, mode: *mode },
            Action::BindDevice { index, group, lock } => ActionView::BindDevice {
                index: *index,
                group: *group,
                lock: *lock,
            },
            Action::UnbindDevice { group } => ActionView::UnbindDevice { group: *group },
            Action::Discover => ActionView::Discover,
            Action::SetPump { group, mode } => ActionView::SetPump { group: *group, mode: mode@ },
            Action::ConfigureLcd { device, config } => ActionView::ConfigureLcd { device: *device, config: *config },
            Action::WriteConfig { path } => ActionView::WriteConfig { path: path@ },
            Action::ReloadConfig => ActionView::ReloadConfig,
            Action::ApplyCalibration { calibration } => ActionView::ApplyCalibration { calibration: calibration@ },
            Action::SetAuraEffect { group, effect, color } => ActionView::SetAuraEffect {
                group: *group,
                effect: *effect,
                color: *color,
            },
            Action::RenderPreview { template, width, height } => ActionView::RenderPreview {
                template: template@,
                width: *width,
                height: *height,
            },
        }
    }
}

pub open spec fn actions_view(s: Seq<Action>) -> Seq<ActionView> {
    s.map_values(|a: Action| a.view())
}

impl Pending {
    pub open spec fn view(&self) -> PendingView {
        match self {
            Pending::Nothing => PendingView::Nothing,
            Pending::MergeOrder { order } => PendingView::MergeOrder { order: order@ },
            Pending::StopFans { groups } => PendingView::StopFans { groups: groups@ },
            Pending::Colors { groups, modes } => PendingView::Colors {
                groups: groups@,
                modes: modes@.map_values(|m: RgbMode| m@),
            },
            Pending::Rgb { group, mode } => PendingView::Rgb { group: *group, mode: mode@ },
            Pending::Indicate { group, duration_secs, previous } => PendingView::Indicate {
                group: *group,
                duration_secs: *duration_secs,
                previous: *previous,
            },
            Pending::Reset { groups } => PendingView::Reset { groups: groups@ },
            Pending::MbSync => PendingView::MbSync,
            Pending::Lock => PendingView::Lock,
            Pending::Unlock => PendingView::Unlock,
            Pending::Speeds { groups, mode } => PendingView::Speeds { groups: groups@, mode: *mode },
            Pending::Single => PendingView::Single,
            Pending::Discovery => PendingView::Discovery,
            Pending::MoboSpeed => PendingView::MoboSpeed,
            Pending::MoboAuto => PendingView::MoboAuto,
            Pending::Pump => PendingView::Pump,
            Pending::Preview => PendingView::Preview,
        }
    }
}

impl HandleOutcome {
    pub open spec fn view(&self) -> OutcomeView {
        OutcomeView {
            response: self.response.view(),
            events: event_views(self.events@),
            actions: actions_view(self.actions@),
            pending: self.pending.view(),
            flush: self.flush,
        }
    }
}

impl DaemonState {
    pub open spec fn view(&self) -> DaemonView {
        DaemonView {
            curves: self.curves@,
            sequences: self.sequences@,
            effects: self.effects@,
            led_presets: self.led_presets@,
            lcd_templates: self.lcd_templates@,
            profiles: self.profiles@,
            groups: group_entry_views(self.groups@),
            schedule: self.schedule.entries@,
            schedule_minute: self.schedule.last_evaluated_minute,
            schedule_check_secs: self.schedule.last_check_secs,
            merge_order: match self.merge_order {
                Some(o) => Some(o@),
                None => None,
            },
            sync: self.sync,
            alert_config: self.alerts.config,
            alert_states: self.alerts.states@,
            alert_sensors: self.alerts.sensors@,
            power_config: self.power.config,
            power_on_ac: self.power.last_on_ac,
            poll_interval_ms: self.poll_interval_ms,
            bind_scanning: self.bind_scanning,
            restores: self.restores@,
            app_profiles: self.app_profiles.profiles@,
            app_last_matched: self.app_profiles.last_matched,
            show_active: self.show.active@,
            show_sequences: self.show.sequences@,
        }
    }

    /// The alert runner's per-alert states match its configuration.
    pub open spec fn wf(&self) -> bool {
        &&& self.alerts.wf()
        &&& self.show.wf()
    }

    /// A state with nothing saved, no group entries, an empty schedule
    /// (first check 55 s after `now_secs`), no alert, power or sync
    /// settings, the given polling interval, and bind scanning off.
    pub fn new(now_secs: u64, poll_interval_ms: u32) -> (s: DaemonState)
        ensures
            s.wf(),
            s@.curves.len() == 0,
            s@.sequences.len() == 0,
            s@.effects.len() == 0,
            s@.led_presets.len() == 0,
            s@.lcd_templates.len() == 0,
            s@.profiles.len() == 0,
            s@.groups.len() == 0,
            s@.schedule.len() == 0,
            s@.schedule_minute is None,
            s@.schedule_check_secs == now_secs,
            s@.merge_order is None,
            s@.sync is None,
            s@.alert_config is None,
            s@.alert_sensors == Map::<crate::model::Sensor, i32>::empty(),
            s@.power_config is None,
            s@.power_on_ac is None,
            s@.poll_interval_ms == poll_interval_ms,
            !s@.bind_scanning,
            s@.restores.len() == 0,
            s@.app_profiles.len() == 0,
            s@.app_last_matched is None,
            s@.show_active.len() == 0,
            s@.show_sequences.len() == 0,
    {
        DaemonState {
            curves: Vec::new(),
            sequences: Vec::new(),
            effects: Vec::new(),
            led_presets: Vec::new(),
            lcd_templates: Vec::new(),
            profiles: Vec::new(),
            groups: Vec::new(),
            schedule: ScheduleRunner::new(now_secs),
            merge_order: None,
            sync: None,
            alerts: AlertRunner::new(),
            power: PowerRunner::new(),
            poll_interval_ms,
            bind_scanning: false,
            restores: Vec::new(),
            app_profiles: AppProfileRunner::new(),
            show: ShowRunner::new(),
        }
    }
}

// ---------------------------------------------------------------------------
// Lists keyed by name
// ---------------------------------------------------------------------------

/// The items whose key is not `key`, in order.
pub open spec fn drop_key(s: Seq<SavedItem>, key: Seq<char>) -> Seq<SavedItem>
    decreases s.len(),
{
    if s.len() == 0 {
        s
    } else {
        let rest = drop_key(s.drop_last(), key);
        if s.last().key@ == key {
            rest
        } else {
            rest.push(s.last())
        }
    }
}

/// Index of the first item with key `key`.
pub open spec fn first_key(s: Seq<SavedItem>, key: Seq<char>) -> Option<int> {
    if exists|i: int| 0 <= i < s.len() && s[i].key@ == key && forall|j: int| 0 <= j < i ==> s[j].key@ != key {
        Some(choose|i: int| 0 <= i < s.len() && s[i].key@ == key && forall|j: int| 0 <= j < i ==> s[j].key@ != key)
    } else {
        None
    }
}

/// The first item with the same key replaced by `item`, or `item` added at
/// the end when there is none.
pub open spec fn replace_or_push(s: Seq<SavedItem>, item: SavedItem) -> Seq<SavedItem> {
    match first_key(s, item.key@) {
        Some(i) => s.update(i, item),
        None => s.push(item),
    }
}

/// Every item with the same key removed, then `item` added at the end.
pub open spec fn remove_then_push(s: Seq<SavedItem>, item: SavedItem) -> Seq<SavedItem> {
    drop_key(s, item.key@).push(item)
}

/// The names other than `name`, in order.
pub open spec fn drop_name(s: Seq<String>, name: Seq<char>) -> Seq<String>
    decreases s.len(),
{
    if s.len() == 0 {
        s
    } else {
        let rest = drop_name(s.drop_last(), name);
        if s.last()@ == name {
            rest
        } else {
            rest.push(s.last())
        }
    }
}

/// Whether `name` is among the names.
pub open spec fn has_name(s: Seq<String>, name: Seq<char>) -> bool {
    exists|i: int| 0 <= i < s.len() && s[i]@ == name
}

fn copy_item(item: &SavedItem) -> (r: SavedItem)
    ensures
        r == *item,
{
    SavedItem { key: item.key.clone(), body: item.body.clone() }
}

fn copy_items(s: &Vec<SavedItem>) -> (r: Vec<SavedItem>)
    ensures
        r@ == s@,
{
    let mut r: Vec<SavedItem> = Vec::new();
    let mut i: usize = 0;
    while i < s.len()
        invariant
            i <= s@.len(),
            r@ == s@.subrange(0, i as int),
        decreases s@.len() - i,
    {
        r.push(copy_item(&s[i]));
        proof {
            assert(s@.subrange(0, i + 1) =~= s@.subrange(0, i as int).push(s@[i as int]));
        }
        i = i + 1;
    }
    proof {
        assert(s@.subrange(0, i as int) =~= s@);
    }
    r
}

fn copy_names(s: &Vec<String>) -> (r: Vec<String>)
    ensures
        r@ == s@,
{
    let mut r: Vec<String> = Vec::new();
    let mut i: usize = 0;
    while i < s.len()
        invariant
            i <= s@.len(),
            r@ == s@.subrange(0, i as int),
        decreases s@.len() - i,
    {
        r.push(s[i].clone());
        proof {
            assert(s@.subrange(0, i + 1) =~= s@.subrange(0, i as int).push(s@[i as int]));
        }
        i = i + 1;
    }
    proof {
        assert(s@.subrange(0, i as int) =~= s@);
    }
    r
}

fn copy_group_ids(s: &Vec<GroupId>) -> (r: Vec<GroupId>)
    ensures
        r@ == s@,
{
    let mut r: Vec<GroupId> = Vec::new();
    let mut i: usize = 0;
    while i < s.len()
        invariant
            i <= s@.len(),
            r@ == s@.subrange(0, i as int),
        decreases s@.len() - i,
    {
        r.push(s[i]);
        proof {
            assert(s@.subrange(0, i + 1) =~= s@.subrange(0, i as int).push(s@[i as int]));
        }
        i = i + 1;
    }
    proof {
        assert(s@.subrange(0, i as int) =~= s@);
    }
    r
}

/// Removes every item with key `key`.
fn remove_key(list: &mut Vec<SavedItem>, key: &str)
    ensures
        final(list)@ == drop_key(old(list)@, key@),
{
    let mut kept: Vec<SavedItem> = Vec::new();
    let mut i: usize = 0;
    while i < list.len()
        invariant
            i <= list@.len(),
            kept@ == drop_key(list@.subrange(0, i as int), key@),
        decreases list@.len() - i,
    {
        proof {
            assert(list@.subrange(0, i + 1).drop_last() =~= list@.subrange(0, i as int));
        }
        if !same_text(list[i].key.as_str(), key) {
            kept.push(copy_item(&list[i]));
        }
        i = i + 1;
    }
    proof {
        assert(list@.subrange(0, i as int) =~= list@);
    }
    *list = kept;
}

/// Index of the first item with key `key`.
fn find_key(list: &Vec<SavedItem>, key: &str) -> (r: Option<usize>)
    ensures
        match r {
            Some(i) => first_key(list@, key@) == Some(i as int),
            None => first_key(list@, key@) is None,
        },
{
    let mut i: usize = 0;
    while i < list.len()
        invariant
            i <= list@.len(),
            forall|j: int| 0 <= j < i ==> list@[j].key@ != key@,
        decreases list@.len() - i,
    {
        if same_text(list[i].key.as_str(), key) {
            proof {
                let w = choose|k: int|
                    0 <= k < list@.len() && list@[k].key@ == key@ && forall|j: int|
                        0 <= j < k ==> list@[j].key@ != key@;
                assert(0 <= i < list@.len() && list@[i as int].key@ == key@ && forall|j: int|
                    0 <= j < i ==> list@[j].key@ != key@);
                if w < i {
                    assert(list@[w].key@ != key@);
                } else if w > i {
                    assert(list@[i as int].key@ != key@);
                }
            }
            return Some(i);
        }
        i = i + 1;
    }
    None
}

/// Replaces the first item with the same key, or adds the item at the end.
fn save_replacing(list: &mut Vec<SavedItem>, item: SavedItem)
    ensures
        final(list)@ == replace_or_push(old(list)@, item),
{
    match find_key(list, item.key.as_str()) {
        Some(i) => {
            list.set(i, item);
        },
        None => {
            list.push(item);
        },
    }
}

/// Removes every item with the same key, then adds the item at the end.
fn save_appending(list: &mut Vec<SavedItem>, item: SavedItem)
    ensures
        final(list)@ == remove_then_push(old(list)@, item),
{
    remove_key(list, item.key.as_str());
    list.push(item);
}

/// Removes every name equal to `name`.
fn remove_name(list: &mut Vec<String>, name: &str)
    ensures
        final(list)@ == drop_name(old(list)@, name@),
{
    let mut kept: Vec<String> = Vec::new();
    let mut i: usize = 0;
    while i < list.len()
        invariant
            i <= list@.len(),
            kept@ == drop_name(list@.subrange(0, i as int), name@),
        decreases list@.len() - i,
    {
        proof {
            assert(list@.subrange(0, i + 1).drop_last() =~= list@.subrange(0, i as int));
        }
        if !same_text(list[i].as_str(), name) {
            kept.push(list[i].clone());
        }
        i = i + 1;
    }
    proof {
        assert(list@.subrange(0, i as int) =~= list@);
    }
    *list = kept;
}

fn contains_name(list: &Vec<String>, name: &str) -> (r: bool)
    ensures
        r == has_name(list@, name@),
{
    let mut i: usize = 0;
    while i < list.len()
        invariant
            i <= list@.len(),
            forall|j: int| 0 <= j < i ==> list@[j]@ != name@,
        decreases list@.len() - i,
    {
        if same_text(list[i].as_str(), name) {
            return true;
        }
        i = i + 1;
    }
    false
}

// ---------------------------------------------------------------------------
// Group entries and devices
// ---------------------------------------------------------------------------

/// Index of the first entry for group `id`.
pub open spec fn first_group(s: Seq<GroupEntryView>, id: GroupId) -> Option<int> {
    if exists|i: int| 0 <= i < s.len() && s[i].id == id && forall|j: int| 0 <= j < i ==> s[j].id != id {
        Some(choose|i: int| 0 <= i < s.len() && s[i].id == id && forall|j: int| 0 <= j < i ==> s[j].id != id)
    } else {
        None
    }
}

/// Index of the first connected device of group `id`.
pub open spec fn first_device(s: Seq<DeviceInfo>, id: GroupId) -> Option<int> {
    if exists|i: int| 0 <= i < s.len() && s[i].group == id && forall|j: int| 0 <= j < i ==> s[j].group != id {
        Some(choose|i: int| 0 <= i < s.len() && s[i].group == id && forall|j: int| 0 <= j < i ==> s[j].group != id)
    } else {
        None
    }
}

/// The entries of groups other than `id`, in order.
pub open spec fn drop_group(s: Seq<GroupEntryView>, id: GroupId) -> Seq<GroupEntryView>
    decreases s.len(),
{
    if s.len() == 0 {
        s
    } else {
        let rest = drop_group(s.drop_last(), id);
        if s.last().id == id {
            rest
        } else {
            rest.push(s.last())
        }
    }
}

/// The entries after a role change of group `id`: the first entry of the
/// group takes the role; without one, a connected device of the group gets
/// a new entry under its name, included; otherwise nothing changes.
#[verifier::opaque]
pub open spec fn role_set(s: Seq<GroupEntryView>, devices: Seq<DeviceInfo>, id: GroupId, role: FanRole) -> Seq<
    GroupEntryView,
> {
    match first_group(s, id) {
        Some(i) => s.update(i, GroupEntryView { role: role, ..s[i] }),
        None => match first_device(devices, id) {
            Some(k) => s.push(new_entry(devices[k], role)),
            None => s,
        },
    }
}

/// The entry made for a connected device that has none: its name, kind and
/// fan count, the role given, included, its speed (the one last set, else
/// the motherboard's control) and lighting (else off), no screen settings.
pub open spec fn new_entry(d: DeviceInfo, role: FanRole) -> GroupEntryView {
    GroupEntryView {
        id: d.group,
        name: d.name,
        device_type: d.device_type,
        fan_count: d.fan_count,
        role: role,
        excluded: false,
        speed: match d.speed_percent {
            Some(p) => SpeedMode::Manual(p),
            None => SpeedMode::Pwm,
        },
        rgb: match d.rgb_mode {
            Some(m) => m@,
            None => ModeView::Off,
        },
        lcd: None,
    }
}

/// No two entries are for group `id`.
pub open spec fn at_most_one(s: Seq<GroupEntryView>, id: GroupId) -> bool {
    forall|a: int, b: int| 0 <= a < b < s.len() ==> !(#[trigger] s[a].id == id && #[trigger] s[b].id == id)
}

/// Exactly one entry is for group `id`, and it has `role`.
pub open spec fn one_entry_with_role(s: Seq<GroupEntryView>, id: GroupId, role: FanRole) -> bool {
    exists|k: int|
        0 <= k < s.len() && (#[trigger] s[k]).id == id && s[k].role == role && forall|j: int|
            0 <= j < s.len() && j != k ==> (#[trigger] s[j]).id != id
}

proof fn lemma_first_group_found(s: Seq<GroupEntryView>, id: GroupId, i: int)
    requires
        0 <= i < s.len(),
        s[i].id == id,
    ensures
        first_group(s, id) is Some,
    decreases i,
{
    if exists|j: int| 0 <= j < i && s[j].id == id {
        let j = choose|j: int| 0 <= j < i && s[j].id == id;
        lemma_first_group_found(s, id, j);
    } else {
        assert(0 <= i < s.len() && s[i].id == id && forall|j: int| 0 <= j < i ==> s[j].id != id);
    }
}

proof fn lemma_role_set_one(s: Seq<GroupEntryView>, devices: Seq<DeviceInfo>, id: GroupId, role: FanRole)
    requires
        at_most_one(s, id),
        first_group(s, id) is Some || first_device(devices, id) is Some,
    ensures
        one_entry_with_role(role_set(s, devices, id, role), id, role),
        at_most_one(role_set(s, devices, id, role), id),
        role_set(s, devices, id, role).len() == if first_group(s, id) is Some {
            s.len() as int
        } else {
            s.len() + 1int
        },
        forall|j: int| 0 <= j < s.len() && s[j].id != id ==> role_set(s, devices, id, role)[j] == s[j],
{
    reveal(role_set);
    let t = role_set(s, devices, id, role);
    match first_group(s, id) {
        Some(i) => {
            assert(0 <= i < s.len() && s[i].id == id);
            assert forall|j: int| 0 <= j < t.len() && j != i implies (#[trigger] t[j]).id != id by {
                assert(t[j] == s[j]);
                if j < i {
                    assert(!(s[j].id == id && s[i].id == id));
                } else {
                    assert(!(s[i].id == id && s[j].id == id));
                }
            }
            assert(t[i].id == id && t[i].role == role);
        },
        None => {
            assert forall|j: int| 0 <= j < s.len() implies s[j].id != id by {
                if s[j].id == id {
                    lemma_first_group_found(s, id, j);
                }
            }
            let k = first_device(devices, id)->0;
            assert(devices[k].group == id);
            let n = s.len() as int;
            assert(t == s.push(new_entry(devices[k], role)));
            assert(t[n].id == id && t[n].role == role);
            assert forall|j: int| 0 <= j < t.len() && j != n implies (#[trigger] t[j]).id != id by {
                assert(t[j] == s[j]);
            }
        },
    }
}

/// Setting a group's role keeps exactly one configuration entry for it: with
/// a connected device of the group (or an entry already there) and no
/// duplicate entry to start from, the request is answered and leaves one
/// entry for the group, holding the new role, updated in place when it
/// existed and added from the device otherwise; the other groups' entries
/// stay as they were. A second role change adds no entry.
pub proof fn law_set_role_keeps_one_entry(
    v: DaemonView,
    sys: SystemView,
    g: GroupId,
    role: FanRole,
    role2: FanRole,
)
    requires
        at_most_one(v.groups, g),
        first_group(v.groups, g) is Some || first_device(sys.devices@, g) is Some,
    ensures
        ({
            let (w, out) = handle_spec(v, Request::SetRole { group: g, role }, sys);
            let w2 = handle_spec(w, Request::SetRole { group: g, role: role2 }, sys).0;
            &&& out.response == ResponseView::Done
            &&& one_entry_with_role(w.groups, g, role)
            &&& forall|j: int| 0 <= j < v.groups.len() && v.groups[j].id != g ==> w.groups[j] == v.groups[j]
            &&& (first_group(v.groups, g) is Some ==> w.groups.len() == v.groups.len())
            &&& one_entry_with_role(w2.groups, g, role2)
            &&& w2.groups.len() == w.groups.len()
        }),
{
    reveal(groups_spec);
    lemma_role_set_one(v.groups, sys.devices@, g, role);
    let w = handle_spec(v, Request::SetRole { group: g, role }, sys).0;
    assert(w.groups == role_set(v.groups, sys.devices@, g, role));
    let k = choose|k: int|
        0 <= k < w.groups.len() && (#[trigger] w.groups[k]).id == g && w.groups[k].role == role && forall|j: int|
            0 <= j < w.groups.len() && j != k ==> (#[trigger] w.groups[j]).id != g;
    lemma_first_group_found(w.groups, g, k);
    lemma_role_set_one(w.groups, sys.devices@, g, role2);
}

/// The entries after renaming group `id` (its first entry, if any).
#[verifier::opaque]
pub open spec fn renamed(s: Seq<GroupEntryView>, id: GroupId, name: String) -> Seq<GroupEntryView> {
    match first_group(s, id) {
        Some(i) => s.update(i, GroupEntryView { name: name, ..s[i] }),
        None => s,
    }
}

/// The entries after marking group `id` (its first entry, if any) excluded or not.
#[verifier::opaque]
pub open spec fn flagged(s: Seq<GroupEntryView>, id: GroupId, excluded: bool) -> Seq<GroupEntryView> {
    match first_group(s, id) {
        Some(i) => s.update(i, GroupEntryView { excluded: excluded, ..s[i] }),
        None => s,
    }
}

/// The groups of the fan-capable devices, in order.
pub open spec fn fan_groups(devices: Seq<DeviceInfo>) -> Seq<GroupId>
    decreases devices.len(),
{
    if devices.len() == 0 {
        Seq::empty()
    } else {
        let rest = fan_groups(devices.drop_last());
        if devices.last().fan_capable {
            rest.push(devices.last().group)
        } else {
            rest
        }
    }
}

/// Two roles are the same role (custom roles by their name).
pub open spec fn same_role(a: FanRole, b: FanRole) -> bool {
    match (a, b) {
        (FanRole::Intake, FanRole::Intake) => true,
        (FanRole::Exhaust, FanRole::Exhaust) => true,
        (FanRole::Pump, FanRole::Pump) => true,
        (FanRole::Custom(x), FanRole::Custom(y)) => x@ == y@,
        _ => false,
    }
}

/// Whether the backend named `backend` takes part in a sync under `c`.
pub open spec fn backend_included(backend: Seq<char>, c: SyncConfig) -> bool {
    if backend == "lianli-rf"@ {
        c.include_lianli
    } else if backend == "aura"@ {
        c.include_mobo_rgb
    } else if backend == "openrgb"@ {
        c.include_openrgb
    } else {
        false
    }
}

/// Whether a sync under `c` reaches device `d`: its backend is included,
/// its group is not excluded, and its role and type are listed (an empty
/// list lists all).
pub open spec fn sync_selects(c: SyncConfig, d: DeviceInfo) -> bool {
    &&& backend_included(d.backend@, c)
    &&& !c.exclude_groups@.contains(d.group)
    &&& (c.include_roles@.len() == 0 || exists|i: int|
        0 <= i < c.include_roles@.len() && same_role(c.include_roles@[i], d.role))
    &&& (c.include_device_types@.len() == 0 || c.include_device_types@.contains(d.device_type))
}

/// The groups a sync under `c` reaches, in device order.
pub open spec fn sync_targets(c: SyncConfig, devices: Seq<DeviceInfo>) -> Seq<GroupId>
    decreases devices.len(),
{
    if devices.len() == 0 {
        Seq::empty()
    } else {
        let rest = sync_targets(c, devices.drop_last());
        if sync_selects(c, devices.last()) {
            rest.push(devices.last().group)
        } else {
            rest
        }
    }
}

fn copy_role(role: &FanRole) -> (r: FanRole)
    ensures
        r == *role,
{
    match role {
        FanRole::Intake => FanRole::Intake,
        FanRole::Exhaust => FanRole::Exhaust,
        FanRole::Pump => FanRole::Pump,
        FanRole::Custom(name) => FanRole::Custom(name.clone()),
    }
}

fn roles_match(a: &FanRole, b: &FanRole) -> (r: bool)
    ensures
        r == same_role(*a, *b),
{
    match (a, b) {
        (FanRole::Intake, FanRole::Intake) => true,
        (FanRole::Exhaust, FanRole::Exhaust) => true,
        (FanRole::Pump, FanRole::Pump) => true,
        (FanRole::Custom(x), FanRole::Custom(y)) => same_text(x.as_str(), y.as_str()),
        _ => false,
    }
}

fn find_group(s: &Vec<GroupEntry>, id: GroupId) -> (r: Option<usize>)
    ensures
        match r {
            Some(i) => i < s@.len() && first_group(group_entry_views(s@), id) == Some(i as int),
            None => first_group(group_entry_views(s@), id) is None,
        },
{
    let ghost v = group_entry_views(s@);
    let mut i: usize = 0;
    while i < s.len()
        invariant
            i <= s@.len(),
            v == group_entry_views(s@),
            forall|j: int| 0 <= j < i ==> v[j].id != id,
        decreases s@.len() - i,
    {
        assert(v[i as int].id == s@[i as int].id);
        if s[i].id == id {
            proof {
                let w = choose|k: int|
                    0 <= k < v.len() && v[k].id == id && forall|j: int| 0 <= j < k ==> v[j].id != id;
                assert(0 <= i < v.len() && v[i as int].id == id && forall|j: int| 0 <= j < i ==> v[j].id != id);
                if w < i {
                    assert(v[w].id != id);
                } else if w > i {
                    assert(v[i as int].id != id);
                }
            }
            return Some(i);
        }
        i = i + 1;
    }
    None
}

fn find_device(s: &Vec<DeviceInfo>, id: GroupId) -> (r: Option<usize>)
    ensures
        match r {
            Some(i) => first_device(s@, id) == Some(i as int),
            None => first_device(s@, id) is None,
        },
{
    let mut i: usize = 0;
    while i < s.len()
        invariant
            i <= s@.len(),
            forall|j: int| 0 <= j < i ==> s@[j].group != id,
        decreases s@.len() - i,
    {
        if s[i].group == id {
            proof {
                let w = choose|k: int|
                    0 <= k < s@.len() && s@[k].group == id && forall|j: int| 0 <= j < k ==> s@[j].group != id;
                assert(0 <= i < s@.len() && s@[i as int].group == id && forall|j: int|
                    0 <= j < i ==> s@[j].group != id);
                if w < i {
                    assert(s@[w].group != id);
                } else if w > i {
                    assert(s@[i as int].group != id);
                }
            }
            return Some(i);
        }
        i = i + 1;
    }
    None
}

/// The entry made for a connected device that has none.
fn make_entry(d: &DeviceInfo, role: FanRole) -> (e: GroupEntry)
    ensures
        e@ == new_entry(*d, role),
{
    let speed = match d.speed_percent {
        Some(p) => SpeedMode::Manual(p),
        None => SpeedMode::Pwm,
    };
    let rgb = match &d.rgb_mode {
        Some(m) => copy_mode(m),
        None => RgbMode::Off,
    };
    GroupEntry {
        id: d.group,
        name: d.name.clone(),
        device_type: d.device_type,
        fan_count: d.fan_count,
        role,
        excluded: false,
        speed,
        rgb,
        lcd: None,
    }
}

proof fn lemma_views_update(s: Seq<GroupEntry>, i: int, e: GroupEntry)
    requires
        0 <= i < s.len(),
    ensures
        group_entry_views(s.update(i, e)) == group_entry_views(s).update(i, e@),
{
    assert(group_entry_views(s.update(i, e)) =~= group_entry_views(s).update(i, e@));
}

proof fn lemma_views_push(s: Seq<GroupEntry>, e: GroupEntry)
    ensures
        group_entry_views(s.push(e)) == group_entry_views(s).push(e@),
{
    assert(group_entry_views(s.push(e)) =~= group_entry_views(s).push(e@));
}

fn set_role(groups: &mut Vec<GroupEntry>, devices: &Vec<DeviceInfo>, id: GroupId, role: FanRole)
    ensures
        group_entry_views(final(groups)@) == role_set(group_entry_views(old(groups)@), devices@, id, role),
{
    proof {
        reveal(role_set);
    }
    let ghost g0 = groups@;
    match find_group(groups, id) {
        Some(i) => {
            let mut e = groups.remove(i);
            e.role = role;
            groups.insert(i, e);
            proof {
                assert(groups@ =~= g0.update(i as int, e));
                lemma_views_update(g0, i as int, e);
                assert(e@ == (GroupEntryView { role: role, ..group_entry_views(g0)[i as int] }));
            }
        },
        None => match find_device(devices, id) {
            Some(k) => {
                let e = make_entry(&devices[k], role);
                groups.push(e);
                proof {
                    lemma_views_push(g0, e);
                }
            },
            None => {},
        },
    }
}

fn rename_group(groups: &mut Vec<GroupEntry>, id: GroupId, name: String)
    ensures
        group_entry_views(final(groups)@) == renamed(group_entry_views(old(groups)@), id, name),
{
    proof {
        reveal(renamed);
    }
    let ghost g0 = groups@;
    match find_group(groups, id) {
        Some(i) => {
            let mut e = groups.remove(i);
            e.name = name;
            groups.insert(i, e);
            proof {
                assert(groups@ =~= g0.update(i as int, e));
                lemma_views_update(g0, i as int, e);
                assert(e@ == (GroupEntryView { name: name, ..group_entry_views(g0)[i as int] }));
            }
        },
        None => {},
    }
}

fn flag_group(groups: &mut Vec<GroupEntry>, id: GroupId, excluded: bool)
    ensures
        group_entry_views(final(groups)@) == flagged(group_entry_views(old(groups)@), id, excluded),
{
    proof {
        reveal(flagged);
    }
    let ghost g0 = groups@;
    match find_group(groups, id) {
        Some(i) => {
            let mut e = groups.remove(i);
            e.excluded = excluded;
            groups.insert(i, e);
            proof {
                assert(groups@ =~= g0.update(i as int, e));
                lemma_views_update(g0, i as int, e);
                assert(e@ == (GroupEntryView { excluded: excluded, ..group_entry_views(g0)[i as int] }));
            }
        },
        None => {},
    }
}

fn forget_group(groups: &mut Vec<GroupEntry>, id: GroupId)
    ensures
        group_entry_views(final(groups)@) == drop_group(group_entry_views(old(groups)@), id),
{
    let ghost g0 = groups@;
    let total = groups.len();
    let mut rest: Vec<GroupEntry> = Vec::new();
    std::mem::swap(&mut rest, groups);
    let mut kept: Vec<GroupEntry> = Vec::new();
    let mut i: usize = 0;
    assert(rest@ =~= g0.subrange(0, g0.len() as int));
    while rest.len() > 0
        invariant
            i <= g0.len(),
            total == g0.len(),
            rest@ == g0.subrange(i as int, g0.len() as int),
            group_entry_views(kept@) == drop_group(group_entry_views(g0.subrange(0, i as int)), id),
        decreases rest@.len(),
    {
        let e = rest.remove(0);
        proof {
            assert(e == g0[i as int]);
            assert(rest@ =~= g0.subrange(i + 1, g0.len() as int));
            let p = group_entry_views(g0.subrange(0, i + 1));
            assert(p.drop_last() =~= group_entry_views(g0.subrange(0, i as int)));
            assert(p.last() == e@);
        }
        if e.id != id {
            let ghost k0 = kept@;
            kept.push(e);
            proof {
                lemma_views_push(k0, e);
            }
        }
        i = i + 1;
    }
    proof {
        assert(g0.subrange(0, i as int) =~= g0);
    }
    *groups = kept;
}

fn backend_takes_part(backend: &str, c: &SyncConfig) -> (r: bool)
    ensures
        r == backend_included(backend@, *c),
{
    if same_text(backend, "lianli-rf") {
        c.include_lianli
    } else if same_text(backend, "aura") {
        c.include_mobo_rgb
    } else if same_text(backend, "openrgb") {
        c.include_openrgb
    } else {
        false
    }
}

fn selects(c: &SyncConfig, d: &DeviceInfo) -> (r: bool)
    ensures
        r == sync_selects(*c, *d),
{
    if !backend_takes_part(d.backend.as_str(), c) {
        return false;
    }
    let mut i: usize = 0;
    while i < c.exclude_groups.len()
        invariant
            i <= c.exclude_groups@.len(),
            forall|j: int| 0 <= j < i ==> c.exclude_groups@[j] != d.group,
        decreases c.exclude_groups@.len() - i,
    {
        if c.exclude_groups[i] == d.group {
            assert(c.exclude_groups@[i as int] == d.group);
            return false;
        }
        i = i + 1;
    }
    assert(!c.exclude_groups@.contains(d.group));
    if c.include_roles.len() > 0 {
        let mut k: usize = 0;
        while k < c.include_roles.len()
            invariant
                k <= c.include_roles@.len(),
                backend_included(d.backend@, *c),
                !c.exclude_groups@.contains(d.group),
                forall|j: int| 0 <= j < k ==> !same_role(c.include_roles@[j], d.role),
            decreases c.include_roles@.len() - k,
        {
            if roles_match(&c.include_roles[k], &d.role) {
                assert(same_role(c.include_roles@[k as int], d.role));
                return c.include_device_types.len() == 0 || type_listed(&c.include_device_types, d.device_type);
            }
            k = k + 1;
        }
        return false;
    }
    c.include_device_types.len() == 0 || type_listed(&c.include_device_types, d.device_type)
}

fn type_listed(types: &Vec<DeviceType>, t: DeviceType) -> (r: bool)
    ensures
        r == types@.contains(t),
{
    let mut i: usize = 0;
    while i < types.len()
        invariant
            i <= types@.len(),
            forall|j: int| 0 <= j < i ==> types@[j] != t,
        decreases types@.len() - i,
    {
        if types[i] == t {
            assert(types@[i as int] == t);
            return true;
        }
        i = i + 1;
    }
    false
}

fn collect_fan_groups(devices: &Vec<DeviceInfo>) -> (r: Vec<GroupId>)
    ensures
        r@ == fan_groups(devices@),
{
    let mut r: Vec<GroupId> = Vec::new();
    let mut i: usize = 0;
    while i < devices.len()
        invariant
            i <= devices@.len(),
            r@ == fan_groups(devices@.subrange(0, i as int)),
        decreases devices@.len() - i,
    {
        proof {
            assert(devices@.subrange(0, i + 1).drop_last() =~= devices@.subrange(0, i as int));
        }
        if devices[i].fan_capable {
            r.push(devices[i].group);
        }
        i = i + 1;
    }
    proof {
        assert(devices@.subrange(0, i as int) =~= devices@);
    }
    r
}

fn collect_sync_targets(c: &SyncConfig, devices: &Vec<DeviceInfo>) -> (r: Vec<GroupId>)
    ensures
        r@ == sync_targets(*c, devices@),
{
    let mut r: Vec<GroupId> = Vec::new();
    let mut i: usize = 0;
    while i < devices.len()
        invariant
            i <= devices@.len(),
            r@ == sync_targets(*c, devices@.subrange(0, i as int)),
        decreases devices@.len() - i,
    {
        proof {
            assert(devices@.subrange(0, i + 1).drop_last() =~= devices@.subrange(0, i as int));
        }
        if selects(c, &devices[i]) {
            r.push(devices[i].group);
        }
        i = i + 1;
    }
    proof {
        assert(devices@.subrange(0, i as int) =~= devices@);
    }
    r
}

/// The groups of the devices, in order.
pub open spec fn device_groups(devices: Seq<DeviceInfo>) -> Seq<GroupId> {
    devices.map_values(|d: DeviceInfo| d.group)
}

/// The groups of the devices in role `role`, in order.
pub open spec fn role_groups(devices: Seq<DeviceInfo>, role: FanRole) -> Seq<GroupId>
    decreases devices.len(),
{
    if devices.len() == 0 {
        Seq::empty()
    } else {
        let rest = role_groups(devices.drop_last(), role);
        if same_role(devices.last().role, role) {
            rest.push(devices.last().group)
        } else {
            rest
        }
    }
}

/// The groups a target stands for: every device's group for no target or
/// all, the listed groups, or the groups of the devices in a role.
pub open spec fn target_groups(target: Option<Target>, devices: Seq<DeviceInfo>) -> Seq<GroupId> {
    match target {
        None => device_groups(devices),
        Some(Target::All) => device_groups(devices),
        Some(Target::Group(g)) => seq![g],
        Some(Target::Groups(gs)) => gs@,
        Some(Target::Role(r)) => role_groups(devices, r),
    }
}

/// The groups `target` stands for among the connected devices.
pub fn resolve_target_groups(sys: &SystemView, target: Option<&Target>) -> (r: Vec<GroupId>)
    ensures
        r@ == target_groups(
            match target {
                Some(t) => Some(*t),
                None => None,
            },
            sys.devices@,
        ),
{
    match target {
        None | Some(Target::All) => {
            let mut r: Vec<GroupId> = Vec::new();
            let mut i: usize = 0;
            while i < sys.devices.len()
                invariant
                    i <= sys.devices@.len(),
                    r@ =~= device_groups(sys.devices@.subrange(0, i as int)),
                decreases sys.devices@.len() - i,
            {
                r.push(sys.devices[i].group);
                proof {
                    assert(device_groups(sys.devices@.subrange(0, i + 1)) =~= device_groups(
                        sys.devices@.subrange(0, i as int),
                    ).push(sys.devices@[i as int].group));
                }
                i = i + 1;
            }
            proof {
                assert(sys.devices@.subrange(0, i as int) =~= sys.devices@);
            }
            r
        },
        Some(Target::Group(g)) => {
            let mut r: Vec<GroupId> = Vec::new();
            r.push(*g);
            proof {
                assert(r@ =~= seq![*g]);
            }
            r
        },
        Some(Target::Groups(gs)) => copy_group_ids(gs),
        Some(Target::Role(role)) => {
            let mut r: Vec<GroupId> = Vec::new();
            let mut i: usize = 0;
            while i < sys.devices.len()
                invariant
                    i <= sys.devices@.len(),
                    r@ == role_groups(sys.devices@.subrange(0, i as int), *role),
                decreases sys.devices@.len() - i,
            {
                proof {
                    assert(sys.devices@.subrange(0, i + 1).drop_last() =~= sys.devices@.subrange(0, i as int));
                }
                if roles_match(&sys.devices[i].role, role) {
                    r.push(sys.devices[i].group);
                }
                i = i + 1;
            }
            proof {
                assert(sys.devices@.subrange(0, i as int) =~= sys.devices@);
            }
            r
        },
    }
}

/// One reset action per group, in order.
pub open spec fn reset_actions(groups: Seq<GroupId>) -> Seq<ActionView> {
    groups.map_values(|g: GroupId| ActionView::ResetDevice { group: g })
}

fn reset_device_actions(groups: &Vec<GroupId>) -> (r: Vec<Action>)
    ensures
        actions_view(r@) == reset_actions(groups@),
{
    let mut r: Vec<Action> = Vec::new();
    let mut i: usize = 0;
    while i < groups.len()
        invariant
            i <= groups@.len(),
            actions_view(r@) =~= reset_actions(groups@.subrange(0, i as int)),
        decreases groups@.len() - i,
    {
        push_action(&mut r, Action::ResetDevice { group: groups[i] });
        proof {
            assert(reset_actions(groups@.subrange(0, i + 1)) =~= reset_actions(groups@.subrange(0, i as int)).push(
                ActionView::ResetDevice { group: groups@[i as int] },
            ));
        }
        i = i + 1;
    }
    proof {
        assert(groups@.subrange(0, i as int) =~= groups@);
    }
    r
}

/// Whether some device of group `g` can run fans.
pub open spec fn group_fan_capable(devices: Seq<DeviceInfo>, g: GroupId) -> bool {
    exists|i: int| 0 <= i < devices.len() && devices[i].group == g && devices[i].fan_capable
}

/// Whether some device of group `g` is driven by the motherboard.
pub open spec fn group_mb_sync(devices: Seq<DeviceInfo>, g: GroupId) -> bool {
    exists|i: int| 0 <= i < devices.len() && devices[i].group == g && devices[i].mb_sync
}

/// The groups whose speed a bulk change sets: fan-capable and not driven by
/// the motherboard, in order.
pub open spec fn speed_groups(groups: Seq<GroupId>, devices: Seq<DeviceInfo>) -> Seq<GroupId>
    decreases groups.len(),
{
    if groups.len() == 0 {
        Seq::empty()
    } else {
        let rest = speed_groups(groups.drop_last(), devices);
        let g = groups.last();
        if group_fan_capable(devices, g) && !group_mb_sync(devices, g) {
            rest.push(g)
        } else {
            rest
        }
    }
}

/// For each group, in order: drop its curve, set its speed.
pub open spec fn speed_actions(groups: Seq<GroupId>, mode: SpeedMode) -> Seq<ActionView>
    decreases groups.len(),
{
    if groups.len() == 0 {
        Seq::empty()
    } else {
        let g = groups.last();
        speed_actions(groups.drop_last(), mode) + seq![
            ActionView::RemoveCurve { group: g },
            ActionView::SetSpeed { group: g, mode: mode },
        ]
    }
}

fn copy_speed_mode(m: &SpeedMode) -> (r: SpeedMode)
    ensures
        r == *m,
{
    match m {
        SpeedMode::Manual(p) => SpeedMode::Manual(*p),
        SpeedMode::Pwm => SpeedMode::Pwm,
        SpeedMode::Curve => SpeedMode::Curve,
        SpeedMode::NamedCurve(n) => SpeedMode::NamedCurve(n.clone()),
    }
}

fn copy_curve_text(c: &Option<String>) -> (r: Option<String>)
    ensures
        r == *c,
{
    match c {
        Some(t) => Some(t.clone()),
        None => None,
    }
}

fn device_flags(devices: &Vec<DeviceInfo>, g: GroupId) -> (r: (bool, bool))
    ensures
        r.0 == group_fan_capable(devices@, g),
        r.1 == group_mb_sync(devices@, g),
{
    let mut capable = false;
    let mut synced = false;
    let mut i: usize = 0;
    while i < devices.len()
        invariant
            i <= devices@.len(),
            capable == exists|j: int| 0 <= j < i && devices@[j].group == g && devices@[j].fan_capable,
            synced == exists|j: int| 0 <= j < i && devices@[j].group == g && devices@[j].mb_sync,
        decreases devices@.len() - i,
    {
        if devices[i].group == g {
            if devices[i].fan_capable {
                capable = true;
            }
            if devices[i].mb_sync {
                synced = true;
            }
        }
        i = i + 1;
    }
    (capable, synced)
}

fn select_speed_groups(groups: &Vec<GroupId>, devices: &Vec<DeviceInfo>) -> (r: Vec<GroupId>)
    ensures
        r@ == speed_groups(groups@, devices@),
{
    let mut r: Vec<GroupId> = Vec::new();
    let mut i: usize = 0;
    while i < groups.len()
        invariant
            i <= groups@.len(),
            r@ == speed_groups(groups@.subrange(0, i as int), devices@),
        decreases groups@.len() - i,
    {
        proof {
            assert(groups@.subrange(0, i + 1).drop_last() =~= groups@.subrange(0, i as int));
        }
        let (capable, synced) = device_flags(devices, groups[i]);
        if capable && !synced {
            r.push(groups[i]);
        }
        i = i + 1;
    }
    proof {
        assert(groups@.subrange(0, i as int) =~= groups@);
    }
    r
}

fn set_speed_actions(groups: &Vec<GroupId>, mode: &SpeedMode) -> (r: Vec<Action>)
    ensures
        actions_view(r@) == speed_actions(groups@, *mode),
{
    let mut r: Vec<Action> = Vec::new();
    let mut i: usize = 0;
    proof {
        assert(actions_view(r@) =~= speed_actions(groups@.subrange(0, 0), *mode));
    }
    while i < groups.len()
        invariant
            i <= groups@.len(),
            actions_view(r@) == speed_actions(groups@.subrange(0, i as int), *mode),
        decreases groups@.len() - i,
    {
        let g = groups[i];
        push_action(&mut r, Action::RemoveCurve { group: g });
        push_action(&mut r, Action::SetSpeed { group: g, mode: copy_speed_mode(mode) });
        proof {
            let p = groups@.subrange(0, i + 1);
            assert(p.drop_last() =~= groups@.subrange(0, i as int));
            assert(p.last() == g);
            assert(actions_view(r@) =~= speed_actions(p, *mode));
        }
        i = i + 1;
    }
    proof {
        assert(groups@.subrange(0, i as int) =~= groups@);
    }
    r
}

/// The cached show named `name`, if any.
pub open spec fn named_show(seqs: Seq<Arc<Sequence<String>>>, name: Seq<char>) -> Option<Arc<Sequence<String>>> {
    if exists|i: int| 0 <= i < seqs.len() && (#[trigger] seqs[i]).name@ == name {
        Some(seqs[choose|i: int| 0 <= i < seqs.len() && (#[trigger] seqs[i]).name@ == name])
    } else {
        None
    }
}

/// Playback after starting `show` on `groups`; a show without steps starts nothing.
pub open spec fn started(a: Seq<ActiveEntry<String>>, groups: Seq<GroupId>, show: Arc<Sequence<String>>) -> Seq<
    ActiveEntry<String>,
> {
    if show.steps@.len() == 0 {
        a
    } else {
        start_spec(a, groups, show)
    }
}

/// Playback after stopping `groups` (every playback for none), and the ends reported.
pub open spec fn stopped(a: Seq<ActiveEntry<String>>, groups: Seq<GroupId>) -> (Seq<ActiveEntry<String>>, Seq<ShowEventView>) {
    if groups.len() == 0 {
        (Seq::empty(), end_all_spec(a))
    } else {
        stop_spec(a, groups)
    }
}

/// Playback events as daemon events.
pub open spec fn show_events(v: Seq<ShowEventView>) -> Seq<EventView> {
    v.map_values(|e: ShowEventView| EventView::Show(e))
}

/// Playback events as daemon events, in order.
pub fn wrap_show_events(evs: &Vec<ShowEvent>) -> (r: Vec<DaemonEvent>)
    ensures
        event_views(r@) == show_events(events_view(evs@)),
{
    let mut r: Vec<DaemonEvent> = Vec::new();
    let mut i: usize = 0;
    while i < evs.len()
        invariant
            i <= evs@.len(),
            event_views(r@) =~= show_events(events_view(evs@.subrange(0, i as int))),
        decreases evs@.len() - i,
    {
        let e = match &evs[i] {
            ShowEvent::SequenceStep { group, step_index } => ShowEvent::SequenceStep {
                group: *group,
                step_index: *step_index,
            },
            ShowEvent::SequenceEnded { name } => ShowEvent::SequenceEnded { name: name.clone() },
        };
        let ghost before = r@;
        r.push(DaemonEvent::Show(e));
        proof {
            assert(r@ =~= before.push(DaemonEvent::Show(e)));
            assert(event_views(r@) =~= event_views(before).push(EventView::Show(e.view())));
            assert(evs@.subrange(0, i + 1) =~= evs@.subrange(0, i as int).push(evs@[i as int]));
            assert(show_events(events_view(evs@.subrange(0, i + 1))) =~= show_events(
                events_view(evs@.subrange(0, i as int)),
            ).push(EventView::Show(evs@[i as int].view())));
        }
        i = i + 1;
    }
    proof {
        assert(evs@.subrange(0, i as int) =~= evs@);
    }
    r
}

/// A sensor as its debug text shows it.
pub open spec fn sensor_text(s: Sensor) -> Seq<char> {
    match s {
        Sensor::Cpu => "Cpu"@,
        Sensor::Gpu => "Gpu"@,
        Sensor::GpuHotspot => "GpuHotspot"@,
        Sensor::GpuVram => "GpuVram"@,
        Sensor::GpuPower => "GpuPower"@,
        Sensor::GpuUsage => "GpuUsage"@,
        Sensor::Water => "Water"@,
        Sensor::Motherboard { channel } => "Motherboard { channel: "@ + dec_chars(channel as nat) + " }"@,
        Sensor::Weighted { cpu_pct, gpu_pct } => "Weighted { cpu_pct: "@ + dec_chars(cpu_pct as nat)
            + ", gpu_pct: "@ + dec_chars(gpu_pct as nat) + " }"@,
    }
}

fn sensor_debug(s: Sensor) -> (t: String)
    ensures
        t@ == sensor_text(s),
{
    match s {
        Sensor::Cpu => "Cpu".to_owned(),
        Sensor::Gpu => "Gpu".to_owned(),
        Sensor::GpuHotspot => "GpuHotspot".to_owned(),
        Sensor::GpuVram => "GpuVram".to_owned(),
        Sensor::GpuPower => "GpuPower".to_owned(),
        Sensor::GpuUsage => "GpuUsage".to_owned(),
        Sensor::Water => "Water".to_owned(),
        Sensor::Motherboard { channel } => {
            let mut t = "Motherboard { channel: ".to_owned();
            append_dec(&mut t, channel);
            t.append(" }");
            t
        },
        Sensor::Weighted { cpu_pct, gpu_pct } => {
            let mut t = "Weighted { cpu_pct: ".to_owned();
            append_dec(&mut t, cpu_pct);
            t.append(", gpu_pct: ");
            append_dec(&mut t, gpu_pct);
            t.append(" }");
            t
        },
    }
}

/// The dongle's firmware version as "major.minor", or "unknown".
pub open spec fn firmware_text(v: Option<u16>) -> Seq<char> {
    match v {
        Some(x) => dec_chars((x / 256) as nat) + "."@ + dec_chars((x % 256) as nat),
        None => "unknown"@,
    }
}

/// A hexadecimal digit, lower case.
pub open spec fn hex_digit(d: nat) -> char {
    if d < 10 {
        ((48 + d) as u32) as char
    } else {
        ((87 + d) as u32) as char
    }
}

/// A byte as two hexadecimal digits.
pub open spec fn byte_hex(b: u8) -> Seq<char> {
    seq![hex_digit((b / 16) as nat), hex_digit((b % 16) as nat)]
}

/// The dongle's radio address as colon-separated hexadecimal bytes, or "n/a".
pub open spec fn mac_text(m: Option<[u8; 6]>) -> Seq<char> {
    match m {
        Some(b) => byte_hex(b@[0]) + ":"@ + byte_hex(b@[1]) + ":"@ + byte_hex(b@[2]) + ":"@ + byte_hex(b@[3])
            + ":"@ + byte_hex(b@[4]) + ":"@ + byte_hex(b@[5]),
        None => "n/a"@,
    }
}

fn hex_str(d: u8) -> (t: &'static str)
    requires
        d < 16,
    ensures
        t@ == seq![hex_digit(d as nat)],
{
    proof {
        reveal_strlit("0");
        reveal_strlit("1");
        reveal_strlit("2");
        reveal_strlit("3");
        reveal_strlit("4");
        reveal_strlit("5");
        reveal_strlit("6");
        reveal_strlit("7");
        reveal_strlit("8");
        reveal_strlit("9");
        reveal_strlit("a");
        reveal_strlit("b");
        reveal_strlit("c");
        reveal_strlit("d");
        reveal_strlit("e");
        reveal_strlit("f");
    }
    match d {
        0 => "0",
        1 => "1",
        2 => "2",
        3 => "3",
        4 => "4",
        5 => "5",
        6 => "6",
        7 => "7",
        8 => "8",
        9 => "9",
        10 => "a",
        11 => "b",
        12 => "c",
        13 => "d",
        14 => "e",
        _ => "f",
    }
}

fn push_byte_hex(t: &mut String, b: u8)
    ensures
        final(t)@ == old(t)@ + byte_hex(b),
{
    t.append(hex_str(b / 16));
    t.append(hex_str(b % 16));
    proof {
        assert(t@ =~= old(t)@ + byte_hex(b));
    }
}

fn firmware_version_text(v: Option<u16>) -> (t: String)
    ensures
        t@ == firmware_text(v),
{
    match v {
        Some(x) => {
            let mut t = String::new();
            append_dec_u64(&mut t, (x / 256) as u64);
            t.append(".");
            append_dec_u64(&mut t, (x % 256) as u64);
            proof {
                assert(t@ =~= firmware_text(v));
            }
            t
        },
        None => "unknown".to_owned(),
    }
}

fn radio_address_text(m: Option<[u8; 6]>) -> (t: String)
    ensures
        t@ == mac_text(m),
{
    match m {
        Some(b) => {
            let mut t = String::new();
            push_byte_hex(&mut t, b[0]);
            t.append(":");
            push_byte_hex(&mut t, b[1]);
            t.append(":");
            push_byte_hex(&mut t, b[2]);
            t.append(":");
            push_byte_hex(&mut t, b[3]);
            t.append(":");
            push_byte_hex(&mut t, b[4]);
            t.append(":");
            push_byte_hex(&mut t, b[5]);
            proof {
                assert(t@ =~= mac_text(m));
            }
            t
        },
        None => "n/a".to_owned(),
    }
}

/// Whether a device of the AURA backend is registered.
pub open spec fn has_aura_device(devices: Seq<DeviceInfo>) -> bool {
    exists|i: int| 0 <= i < devices.len() && (#[trigger] devices[i]).backend@ == "aura"@
}

fn any_aura_device(devices: &Vec<DeviceInfo>) -> (r: bool)
    ensures
        r == has_aura_device(devices@),
{
    let mut i: usize = 0;
    while i < devices.len()
        invariant
            i <= devices@.len(),
            forall|j: int| 0 <= j < i ==> (#[trigger] devices@[j]).backend@ != "aura"@,
        decreases devices@.len() - i,
    {
        if same_text(devices[i].backend.as_str(), "aura") {
            return true;
        }
        i = i + 1;
    }
    false
}

fn sensor_present(sensors: &Vec<Sensor>, s: Sensor) -> (r: bool)
    ensures
        r == sensors@.contains(s),
{
    let mut i: usize = 0;
    while i < sensors.len()
        invariant
            i <= sensors@.len(),
            forall|j: int| 0 <= j < i ==> sensors@[j] != s,
        decreases sensors@.len() - i,
    {
        if sensors[i] == s {
            assert(sensors@[i as int] == s);
            return true;
        }
        i = i + 1;
    }
    false
}

/// For each group of `groups` whose first device shows a known lighting,
/// in order: the group and that lighting at brightness `level`. Groups
/// without one are left alone.
pub open spec fn dimmed(groups: Seq<GroupId>, devices: Seq<DeviceInfo>, level: u8) -> Seq<(GroupId, ModeView)>
    decreases groups.len(),
{
    if groups.len() == 0 {
        Seq::empty()
    } else {
        let rest = dimmed(groups.drop_last(), devices, level);
        let g = groups.last();
        match dim_of(devices, g, level) {
            Some(m) => rest.push((g, m)),
            None => rest,
        }
    }
}

/// The lighting of the first device of group `g` at brightness `level`,
/// when it is known.
#[verifier::opaque]
pub open spec fn dim_of(devices: Seq<DeviceInfo>, g: GroupId, level: u8) -> Option<ModeView> {
    match first_device(devices, g) {
        Some(i) => match devices[i].rgb_mode {
            Some(m) => Some(mode_at_brightness(m@, level)),
            None => None,
        },
        None => None,
    }
}

fn dim_one(devices: &Vec<DeviceInfo>, g: GroupId, level: u8) -> (r: Option<RgbMode>)
    ensures
        match r {
            Some(x) => dim_of(devices@, g, level) == Some(x@),
            None => dim_of(devices@, g, level) is None,
        },
{
    proof {
        reveal(dim_of);
    }
    match find_device(devices, g) {
        Some(k) => match &devices[k].rgb_mode {
            Some(m) => {
                let c = copy_mode(m);
                let d = with_brightness(c, level);
                proof {
                    lemma_with_brightness_view(c, d, level);
                }
                Some(d)
            },
            None => None,
        },
        None => None,
    }
}

/// The same mode for each group.
pub open spec fn same_modes(n: nat, m: ModeView) -> Seq<ModeView> {
    Seq::new(n, |i: int| m)
}

fn repeat_mode(n: usize, m: &RgbMode) -> (r: Vec<RgbMode>)
    ensures
        r@.len() == n,
        r@.map_values(|x: RgbMode| x@) == same_modes(n as nat, m@),
{
    let mut r: Vec<RgbMode> = Vec::new();
    let mut i: usize = 0;
    while i < n
        invariant
            i <= n,
            r@.len() == i,
            r@.map_values(|x: RgbMode| x@) =~= same_modes(i as nat, m@),
        decreases n - i,
    {
        let ghost before = r@;
        let c = copy_mode(m);
        r.push(c);
        proof {
            assert(r@ =~= before.push(c));
            assert(r@.map_values(|x: RgbMode| x@) =~= before.map_values(|x: RgbMode| x@).push(c@));
        }
        i = i + 1;
    }
    r
}

fn dim_targets(groups: &Vec<GroupId>, devices: &Vec<DeviceInfo>, level: u8) -> (r: (Vec<GroupId>, Vec<RgbMode>))
    ensures
        r.0@.len() == r.1@.len(),
        r.0@ == dimmed(groups@, devices@, level).map_values(|e: (GroupId, ModeView)| e.0),
        r.1@.map_values(|x: RgbMode| x@) == dimmed(groups@, devices@, level).map_values(|e: (GroupId, ModeView)| e.1),
{
    let mut gs: Vec<GroupId> = Vec::new();
    let mut ms: Vec<RgbMode> = Vec::new();
    let mut i: usize = 0;
    while i < groups.len()
        invariant
            i <= groups@.len(),
            gs@.len() == ms@.len(),
            gs@ =~= dimmed(groups@.subrange(0, i as int), devices@, level).map_values(|e: (GroupId, ModeView)| e.0),
            ms@.map_values(|x: RgbMode| x@) =~= dimmed(groups@.subrange(0, i as int), devices@, level).map_values(
                |e: (GroupId, ModeView)| e.1,
            ),
        decreases groups@.len() - i,
    {
        let g = groups[i];
        let ghost d0 = dimmed(groups@.subrange(0, i as int), devices@, level);
        proof {
            assert(groups@.subrange(0, i + 1).drop_last() =~= groups@.subrange(0, i as int));
        }
        match dim_one(devices, g, level) {
            Some(d) => {
                let ghost gb = gs@;
                let ghost mb = ms@;
                gs.push(g);
                ms.push(d);
                proof {
                    let d1 = d0.push((g, d@));
                    assert(dimmed(groups@.subrange(0, i + 1), devices@, level) == d1);
                    assert(gs@ =~= gb.push(g));
                    assert(ms@ =~= mb.push(d));
                    assert(d1.map_values(|e: (GroupId, ModeView)| e.0) =~= d0.map_values(
                        |e: (GroupId, ModeView)| e.0,
                    ).push(g));
                    assert(d1.map_values(|e: (GroupId, ModeView)| e.1) =~= d0.map_values(
                        |e: (GroupId, ModeView)| e.1,
                    ).push(d@));
                    assert(ms@.map_values(|x: RgbMode| x@) =~= mb.map_values(|x: RgbMode| x@).push(d@));
                }
            },
            None => {
                proof {
                    assert(dimmed(groups@.subrange(0, i + 1), devices@, level) == d0);
                }
            },
        }
        i = i + 1;
    }
    proof {
        assert(groups@.subrange(0, i as int) =~= groups@);
    }
    (gs, ms)
}

/// A schedule target as values.
pub open spec fn target_view(t: Target) -> TargetView {
    match t {
        Target::All => TargetView::All,
        Target::Group(g) => TargetView::Group(g),
        Target::Groups(gs) => TargetView::Groups(gs@),
        Target::Role(r) => TargetView::Role(r),
    }
}

/// A schedule entry as values.
pub open spec fn entry_view(e: ScheduleEntry) -> EntryView {
    EntryView {
        hour: e.hour,
        minute: e.minute,
        days: e.days@,
        action: match e.action {
            ScheduleAction::SwitchProfile(n) => ScheduleActionView::SwitchProfile(n@),
            ScheduleAction::SetSpeed { target, percent } => ScheduleActionView::SetSpeed {
                target: target_view(target),
                percent,
            },
            ScheduleAction::ApplyCurve { target, curve } => ScheduleActionView::ApplyCurve {
                target: target_view(target),
                curve: curve@,
            },
        },
    }
}

/// Alert settings as values.
pub open spec fn alert_config_view(c: AlertConfig) -> AlertConfigView {
    AlertConfigView {
        temp_alerts: c.temp_alerts@,
        fan_stall_detect: c.fan_stall_detect,
        device_disconnect: c.device_disconnect,
    }
}

/// The alert settings reported when none are set: no temperature alerts,
/// stall and disconnect detection on.
pub open spec fn default_alerts() -> AlertConfigView {
    AlertConfigView { temp_alerts: Seq::empty(), fan_stall_detect: true, device_disconnect: true }
}

/// Sync settings as values.
pub open spec fn sync_config_view(c: SyncConfig) -> SyncConfigView {
    SyncConfigView {
        enabled: c.enabled,
        include_lianli: c.include_lianli,
        include_mobo_rgb: c.include_mobo_rgb,
        include_openrgb: c.include_openrgb,
        include_roles: c.include_roles@,
        include_device_types: c.include_device_types@,
        exclude_groups: c.exclude_groups@,
    }
}

/// The sync settings reported when none are set: off, wireless fans only,
/// no filters.
pub open spec fn default_sync() -> SyncConfigView {
    SyncConfigView {
        enabled: false,
        include_lianli: true,
        include_mobo_rgb: false,
        include_openrgb: false,
        include_roles: Seq::empty(),
        include_device_types: Seq::empty(),
        exclude_groups: Seq::empty(),
    }
}

/// Each imported item saved after the current ones, replacing those of the same key.
pub open spec fn merged_items(s: Seq<SavedItem>, imported: Seq<SavedItem>) -> Seq<SavedItem>
    decreases imported.len(),
{
    if imported.len() == 0 {
        s
    } else {
        remove_then_push(merged_items(s, imported.drop_last()), imported.last())
    }
}

/// Each imported name added after the current ones, replacing the same name.
pub open spec fn merged_names(s: Seq<String>, imported: Seq<String>) -> Seq<String>
    decreases imported.len(),
{
    if imported.len() == 0 {
        s
    } else {
        drop_name(merged_names(s, imported.drop_last()), imported.last()@).push(imported.last())
    }
}

/// Whether the resolved path `p` lies at or below the directory `base`,
/// component by component.
pub open spec fn within(p: Seq<char>, base: Seq<char>) -> bool {
    ||| p == base
    ||| (base.len() > 0 && p.len() > base.len() && p.subrange(0, base.len() as int) == base && (base.last() == '/'
        || p[base.len() as int] == '/'))
}

/// The home directory's characters, when known.
pub open spec fn home_view(home: Option<&str>) -> Option<Seq<char>> {
    match home {
        Some(h) => Some(h@),
        None => None,
    }
}

/// Why a resolved configuration path is refused: it must lie within the
/// home directory or `/tmp`.
pub open spec fn path_refusal(resolved: Seq<char>, home: Option<Seq<char>>) -> Option<Seq<char>> {
    let allowed = within(resolved, "/tmp"@) || (home matches Some(h) && within(resolved, h));
    if allowed {
        None
    } else {
        Some("path must be within home directory or /tmp, got: "@ + resolved)
    }
}

fn is_within(p: &Vec<char>, base: &Vec<char>) -> (r: bool)
    ensures
        r == within(p@, base@),
{
    let n = base.len();
    if p.len() < n {
        proof {
            assert(p@ != base@ ==> true);
            assert(p@.len() != base@.len());
        }
        return false;
    }
    let mut i: usize = 0;
    while i < n
        invariant
            n == base@.len(),
            n <= p@.len(),
            i <= n,
            p@.subrange(0, i as int) =~= base@.subrange(0, i as int),
        decreases n - i,
    {
        if p[i] != base[i] {
            proof {
                assert(p@.subrange(0, n as int)[i as int] != base@[i as int]);
                assert(p@.subrange(0, n as int) != base@);
                if p@ == base@ {
                    assert(p@[i as int] == base@[i as int]);
                }
            }
            return false;
        }
        i = i + 1;
    }
    proof {
        assert(p@.subrange(0, n as int) =~= base@);
    }
    if p.len() == n {
        proof {
            assert(p@ =~= base@);
        }
        return true;
    }
    if n == 0 {
        return false;
    }
    base[n - 1] == '/' || p[n] == '/'
}

/// Accepts a resolved configuration path within the home directory (when
/// known) or `/tmp`; otherwise says why it is refused.
pub fn config_path_verdict(resolved: &str, home: Option<&str>) -> (r: Result<(), String>)
    ensures
        match r {
            Ok(()) => path_refusal(resolved@, home_view(home)) is None,
            Err(m) => path_refusal(resolved@, home_view(home)) == Some(m@),
        },
{
    let p = chars_of(resolved);
    let tmp = chars_of("/tmp");
    let mut allowed = is_within(&p, &tmp);
    match home {
        Some(h) => {
            let hc = chars_of(h);
            if is_within(&p, &hc) {
                allowed = true;
            }
        },
        None => {},
    }
    if allowed {
        Ok(())
    } else {
        let mut m = "path must be within home directory or /tmp, got: ".to_owned();
        m.append(resolved);
        Err(m)
    }
}

fn copy_target(t: &Target) -> (r: Target)
    ensures
        target_view(r) == target_view(*t),
{
    match t {
        Target::All => Target::All,
        Target::Group(g) => Target::Group(*g),
        Target::Groups(gs) => Target::Groups(copy_group_ids(gs)),
        Target::Role(role) => Target::Role(copy_role(role)),
    }
}

fn copy_days(d: &Vec<Weekday>) -> (r: Vec<Weekday>)
    ensures
        r@ == d@,
{
    let mut r: Vec<Weekday> = Vec::new();
    let mut i: usize = 0;
    while i < d.len()
        invariant
            i <= d@.len(),
            r@ == d@.subrange(0, i as int),
        decreases d@.len() - i,
    {
        r.push(d[i]);
        proof {
            assert(d@.subrange(0, i + 1) =~= d@.subrange(0, i as int).push(d@[i as int]));
        }
        i = i + 1;
    }
    proof {
        assert(d@.subrange(0, i as int) =~= d@);
    }
    r
}

fn copy_entry(e: &ScheduleEntry) -> (r: ScheduleEntry)
    ensures
        entry_view(r) == entry_view(*e),
{
    let action = match &e.action {
        ScheduleAction::SwitchProfile(n) => ScheduleAction::SwitchProfile(n.clone()),
        ScheduleAction::SetSpeed { target, percent } => ScheduleAction::SetSpeed {
            target: copy_target(target),
            percent: *percent,
        },
        ScheduleAction::ApplyCurve { target, curve } => ScheduleAction::ApplyCurve {
            target: copy_target(target),
            curve: curve.clone(),
        },
    };
    ScheduleEntry { hour: e.hour, minute: e.minute, days: copy_days(&e.days), action }
}

fn copy_entries(s: &Vec<ScheduleEntry>) -> (r: Vec<ScheduleEntry>)
    ensures
        r@.map_values(|e: ScheduleEntry| entry_view(e)) == s@.map_values(|e: ScheduleEntry| entry_view(e)),
{
    let mut r: Vec<ScheduleEntry> = Vec::new();
    let mut i: usize = 0;
    while i < s.len()
        invariant
            i <= s@.len(),
            r@.map_values(|e: ScheduleEntry| entry_view(e)) =~= s@.subrange(0, i as int).map_values(
                |e: ScheduleEntry| entry_view(e),
            ),
        decreases s@.len() - i,
    {
        let c = copy_entry(&s[i]);
        let ghost before = r@;
        r.push(c);
        proof {
            assert(r@ =~= before.push(c));
            assert(r@.map_values(|e: ScheduleEntry| entry_view(e)) =~= before.map_values(
                |e: ScheduleEntry| entry_view(e),
            ).push(entry_view(c)));
            assert(s@.subrange(0, i + 1) =~= s@.subrange(0, i as int).push(s@[i as int]));
            assert(s@.subrange(0, i + 1).map_values(|e: ScheduleEntry| entry_view(e)) =~= s@.subrange(
                0,
                i as int,
            ).map_values(|e: ScheduleEntry| entry_view(e)).push(entry_view(s@[i as int])));
        }
        i = i + 1;
    }
    proof {
        assert(s@.subrange(0, i as int) =~= s@);
    }
    r
}

pub(crate) fn copy_alerts(c: &AlertConfig) -> (r: AlertConfig)
    ensures
        alert_config_view(r) == alert_config_view(*c),
{
    let mut v: Vec<TempAlert> = Vec::new();
    let mut i: usize = 0;
    while i < c.temp_alerts.len()
        invariant
            i <= c.temp_alerts@.len(),
            v@ == c.temp_alerts@.subrange(0, i as int),
        decreases c.temp_alerts@.len() - i,
    {
        let a = &c.temp_alerts[i];
        v.push(TempAlert { sensor: a.sensor, threshold: a.threshold, action: copy_action(&a.action) });
        proof {
            assert(c.temp_alerts@.subrange(0, i + 1) =~= c.temp_alerts@.subrange(0, i as int).push(
                c.temp_alerts@[i as int],
            ));
        }
        i = i + 1;
    }
    proof {
        assert(c.temp_alerts@.subrange(0, i as int) =~= c.temp_alerts@);
    }
    AlertConfig { temp_alerts: v, fan_stall_detect: c.fan_stall_detect, device_disconnect: c.device_disconnect }
}

fn copy_roles(s: &Vec<FanRole>) -> (r: Vec<FanRole>)
    ensures
        r@ == s@,
{
    let mut r: Vec<FanRole> = Vec::new();
    let mut i: usize = 0;
    while i < s.len()
        invariant
            i <= s@.len(),
            r@ == s@.subrange(0, i as int),
        decreases s@.len() - i,
    {
        r.push(copy_role(&s[i]));
        proof {
            assert(s@.subrange(0, i + 1) =~= s@.subrange(0, i as int).push(s@[i as int]));
        }
        i = i + 1;
    }
    proof {
        assert(s@.subrange(0, i as int) =~= s@);
    }
    r
}

fn copy_types(s: &Vec<DeviceType>) -> (r: Vec<DeviceType>)
    ensures
        r@ == s@,
{
    let mut r: Vec<DeviceType> = Vec::new();
    let mut i: usize = 0;
    while i < s.len()
        invariant
            i <= s@.len(),
            r@ == s@.subrange(0, i as int),
        decreases s@.len() - i,
    {
        r.push(s[i]);
        proof {
            assert(s@.subrange(0, i + 1) =~= s@.subrange(0, i as int).push(s@[i as int]));
        }
        i = i + 1;
    }
    proof {
        assert(s@.subrange(0, i as int) =~= s@);
    }
    r
}

fn copy_sync(c: &SyncConfig) -> (r: SyncConfig)
    ensures
        sync_config_view(r) == sync_config_view(*c),
{
    SyncConfig {
        enabled: c.enabled,
        include_lianli: c.include_lianli,
        include_mobo_rgb: c.include_mobo_rgb,
        include_openrgb: c.include_openrgb,
        include_roles: copy_roles(&c.include_roles),
        include_device_types: copy_types(&c.include_device_types),
        exclude_groups: copy_group_ids(&c.exclude_groups),
    }
}

fn merge_items(list: &mut Vec<SavedItem>, imported: &Vec<SavedItem>)
    ensures
        final(list)@ == merged_items(old(list)@, imported@),
{
    let mut i: usize = 0;
    while i < imported.len()
        invariant
            i <= imported@.len(),
            list@ == merged_items(old(list)@, imported@.subrange(0, i as int)),
        decreases imported@.len() - i,
    {
        proof {
            assert(imported@.subrange(0, i + 1).drop_last() =~= imported@.subrange(0, i as int));
        }
        save_appending(list, copy_item(&imported[i]));
        i = i + 1;
    }
    proof {
        assert(imported@.subrange(0, i as int) =~= imported@);
    }
}

fn merge_names(list: &mut Vec<String>, imported: &Vec<String>)
    ensures
        final(list)@ == merged_names(old(list)@, imported@),
{
    let mut i: usize = 0;
    while i < imported.len()
        invariant
            i <= imported@.len(),
            list@ == merged_names(old(list)@, imported@.subrange(0, i as int)),
        decreases imported@.len() - i,
    {
        proof {
            assert(imported@.subrange(0, i + 1).drop_last() =~= imported@.subrange(0, i as int));
        }
        remove_name(list, imported[i].as_str());
        list.push(imported[i].clone());
        i = i + 1;
    }
    proof {
        assert(imported@.subrange(0, i as int) =~= imported@);
    }
}

/// Longest accepted name, in characters.
pub const MAX_NAME_CHARS: usize = 64;

/// What is wrong with a profile or group name: empty, or longer than 64
/// characters.
pub open spec fn name_problem_spec(name: Seq<char>) -> Option<Seq<char>> {
    if name.len() == 0 {
        Some("name must not be empty"@)
    } else if name.len() > MAX_NAME_CHARS {
        Some("name must be at most 64 characters"@)
    } else {
        None
    }
}

/// What is wrong with a profile or group name, if anything.
pub fn name_problem(name: &str) -> (r: Option<String>)
    ensures
        match r {
            Some(m) => name_problem_spec(name@) == Some(m@),
            None => name_problem_spec(name@) is None,
        },
{
    let n = chars_of(name).len();
    if n == 0 {
        Some("name must not be empty".to_owned())
    } else if n > MAX_NAME_CHARS {
        Some("name must be at most 64 characters".to_owned())
    } else {
        None
    }
}

/// What is wrong with a speed mode: a manual speed above 100 percent.
pub open spec fn speed_problem_spec(mode: SpeedMode) -> Option<Seq<char>> {
    match mode {
        SpeedMode::Manual(p) => if p > 100 {
            Some("speed must be 0-100, got "@ + dec_chars(p as nat))
        } else {
            None
        },
        _ => None,
    }
}

/// What is wrong with a speed mode, if anything.
pub fn speed_problem(mode: &SpeedMode) -> (r: Option<String>)
    ensures
        match r {
            Some(m) => speed_problem_spec(*mode) == Some(m@),
            None => speed_problem_spec(*mode) is None,
        },
{
    match mode {
        SpeedMode::Manual(p) => if *p > 100 {
            let mut m = "speed must be 0-100, got ".to_owned();
            append_dec(&mut m, *p);
            Some(m)
        } else {
            None
        },
        _ => None,
    }
}

/// What is wrong with a fan curve of `points` points: it needs at least one.
pub fn curve_problem(points: usize) -> (r: Option<String>)
    ensures
        r is Some <==> points == 0,
        r matches Some(m) ==> m@ == "FanCurve has no points"@,
{
    if points == 0 {
        Some("FanCurve has no points".to_owned())
    } else {
        None
    }
}

/// Largest preview side, in pixels.
pub const MAX_PREVIEW_DIM: u32 = 2048;

/// The name a group's running time is listed under: its first device's
/// name, or "Group g" when no device of it is connected.
pub open spec fn wear_label_spec(devices: Seq<DeviceInfo>, g: GroupId) -> Seq<char> {
    match first_device(devices, g) {
        Some(i) => devices[i].name@,
        None => "Group "@ + dec_chars(g.0 as nat),
    }
}

/// The name a group's running time is listed under.
pub fn wear_label(sys: &SystemView, g: GroupId) -> (r: String)
    ensures
        r@ == wear_label_spec(sys.devices@, g),
{
    match find_device(&sys.devices, g) {
        Some(i) => sys.devices[i].name.clone(),
        None => {
            let mut t = "Group ".to_owned();
            append_dec(&mut t, g.0);
            t
        },
    }
}

/// Whether the first device of group `g` reported a radio address.
pub open spec fn group_has_mac(devices: Seq<DeviceInfo>, g: GroupId) -> bool {
    match first_device(devices, g) {
        Some(i) => devices[i].has_mac,
        None => false,
    }
}

// ---------------------------------------------------------------------------
// The handler
// ---------------------------------------------------------------------------

/// "`what` '`name`' not found".
pub open spec fn missing_text(what: Seq<char>, name: Seq<char>) -> Seq<char> {
    what + " '"@ + name + "' not found"@
}

/// The refusal of a merge order of `n` groups.
pub open spec fn order_size_text(n: nat) -> Seq<char> {
    "order must be 1-4 groups, got "@ + dec_chars(n)
}

/// The refusal of a schedule index past the end.
pub open spec fn schedule_index_text(index: nat) -> Seq<char> {
    "schedule index "@ + dec_chars(index) + " out of bounds"@
}

/// An outcome that is only a response.
pub open spec fn reply(response: ResponseView, flush: bool) -> OutcomeView {
    OutcomeView {
        response: response,
        events: Seq::empty(),
        actions: Seq::empty(),
        pending: PendingView::Nothing,
        flush: flush,
    }
}

/// An accepted request whose outcome is the actions it asks for.
pub open spec fn acted(actions: Seq<ActionView>, flush: bool) -> OutcomeView {
    OutcomeView {
        response: ResponseView::Done,
        events: Seq::empty(),
        actions: actions,
        pending: PendingView::Nothing,
        flush: flush,
    }
}

/// For each group, in order: drop its curve, take it off motherboard sync,
/// stop its fans.
pub open spec fn stop_actions(groups: Seq<GroupId>) -> Seq<ActionView>
    decreases groups.len(),
{
    if groups.len() == 0 {
        Seq::empty()
    } else {
        let g = groups.last();
        stop_actions(groups.drop_last()) + seq![
            ActionView::RemoveCurve { group: g },
            ActionView::MbSyncOff { group: g },
            ActionView::StopFan { group: g },
        ]
    }
}

/// Static `color` on both rings at full brightness.
pub open spec fn static_view(color: Rgb) -> ModeView {
    ModeView::Static { ring: Ring::Both, color: color, brightness: 255 }
}

/// One lighting action per group, group `i` taking mode `i`.
pub open spec fn rgb_actions(groups: Seq<GroupId>, modes: Seq<ModeView>) -> Seq<ActionView> {
    Seq::new(groups.len(), |i: int| ActionView::SetRgb { group: groups[i], mode: modes[i] })
}

/// One discovery event per unbound device.
pub open spec fn bind_events(unbound: nat) -> Seq<EventView> {
    Seq::new(unbound, |i: int| EventView::BindDiscovered { index: i as usize })
}

/// A delete that fails when nothing carried the key: the list without the
/// key, and the answer.
pub open spec fn strict_delete(s: Seq<SavedItem>, what: Seq<char>, key: Seq<char>) -> (Seq<SavedItem>, OutcomeView) {
    let kept = drop_key(s, key);
    if kept.len() == s.len() {
        (kept, reply(ResponseView::Error(missing_text(what, key)), false))
    } else {
        (kept, reply(ResponseView::Done, true))
    }
}

/// Handshake, subscriptions, bind scanning, settings and application profiles.
#[verifier::opaque]
pub open spec fn session_spec(v: DaemonView, request: Request, sys: SystemView) -> (DaemonView, OutcomeView) {
    match request {
        Request::Hello { protocol_version } => (v, reply(
            match negotiated_protocol(protocol_version, PROTOCOL_VERSION_MIN, PROTOCOL_VERSION) {
                Some(n) => ResponseView::Hello { protocol_version: n },
                None => ResponseView::Error(too_old_text(protocol_version)),
            },
            false,
        )),
        Request::Subscribe => (v, reply(ResponseView::Done, false)),
        Request::Unsubscribe => (v, reply(ResponseView::Done, false)),
        Request::EnterBindMode => (
            DaemonView { bind_scanning: true, ..v },
            OutcomeView {
                response: ResponseView::Done,
                events: bind_events(sys.unbound as nat),
                actions: Seq::empty(),
                pending: PendingView::Nothing,
                flush: false,
            },
        ),
        Request::ExitBindMode => (DaemonView { bind_scanning: false, ..v }, reply(ResponseView::Done, false)),
        Request::SetSyncConfig { config } => (DaemonView { sync: Some(config), ..v }, reply(ResponseView::Done, true)),
        Request::SetAlertConfig { config } => (
            DaemonView {
                alert_config: Some(config),
                alert_states: Seq::new(config.temp_alerts@.len(), |i: int| false),
                ..v
            },
            reply(ResponseView::Done, true),
        ),
        Request::SetPowerConfig { config } => (
            DaemonView { power_config: Some(config), ..v },
            reply(ResponseView::Done, true),
        ),
        Request::SetDaemonConfig { poll_interval_ms } => (
            DaemonView { poll_interval_ms: poll_interval_ms, ..v },
            reply(ResponseView::Done, true),
        ),
        Request::SetAppProfiles { profiles } => (
            DaemonView { app_profiles: profiles@, ..v },
            reply(ResponseView::Done, true),
        ),
        _ => (v, reply(ResponseView::Done, false)),
    }
}

/// Profile names: listing, saving, copying, deleting and switching.
#[verifier::opaque]
pub open spec fn profiles_spec(v: DaemonView, request: Request, sys: SystemView) -> (DaemonView, OutcomeView) {
    match request {
        Request::ListProfiles => (v, reply(ResponseView::ProfileList(v.profiles), false)),
        Request::SaveProfile { name } => (
            DaemonView {
                profiles: if has_name(v.profiles, name@) { v.profiles } else { v.profiles.push(name) },
                ..v
            },
            acted(seq![ActionView::CaptureProfile { name: name@ }], true),
        ),
        Request::DeleteProfile { name } => (
            DaemonView { profiles: drop_name(v.profiles, name@), ..v },
            reply(ResponseView::Done, true),
        ),
        Request::SwitchProfile { name } => if has_name(v.profiles, name@) {
            (v, OutcomeView {
                response: ResponseView::Done,
                events: seq![EventView::ProfileSwitched { name: name@ }],
                actions: seq![ActionView::ApplyProfile { name: name@ }],
                pending: PendingView::Nothing,
                flush: false,
            })
        } else {
            (v, reply(ResponseView::Error(missing_text("profile"@, name@)), false))
        },
        Request::CopyProfile { from, to, invalid } => match invalid {
            Some(e) => (v, reply(ResponseView::Error(e@), false)),
            None => if !has_name(v.profiles, from@) {
                (v, reply(ResponseView::Error(missing_text("profile"@, from@)), false))
            } else if has_name(v.profiles, to@) {
                (v, reply(ResponseView::Error("profile '"@ + to@ + "' already exists"@), false))
            } else {
                (
                    DaemonView { profiles: v.profiles.push(to), ..v },
                    acted(seq![ActionView::CopyProfile { from: from@, to: to@ }], true),
                )
            },
        },
        _ => (v, reply(ResponseView::Done, false)),
    }
}

/// Saved curves and sequences.
#[verifier::opaque]
pub open spec fn curves_spec(v: DaemonView, request: Request, sys: SystemView) -> (DaemonView, OutcomeView) {
    match request {
        Request::ListCurves => (v, reply(ResponseView::Items(v.curves), false)),
        Request::SaveCurve { curve, invalid } => match invalid {
            Some(e) => (v, reply(ResponseView::Error("invalid curve: "@ + e@), false)),
            None => (
                DaemonView { curves: replace_or_push(v.curves, curve), ..v },
                reply(ResponseView::Done, true),
            ),
        },
        Request::DeleteCurve { name } => (
            DaemonView { curves: drop_key(v.curves, name@), ..v },
            reply(ResponseView::Done, true),
        ),
        Request::ListSequences => (v, reply(ResponseView::Items(v.sequences), false)),
        Request::SaveSequence { sequence } => (
            DaemonView { sequences: replace_or_push(v.sequences, sequence), ..v },
            acted(seq![ActionView::ReloadSequences], true),
        ),
        Request::DeleteSequence { name } => (
            DaemonView { sequences: drop_key(v.sequences, name@), ..v },
            acted(seq![ActionView::ReloadSequences], true),
        ),
        _ => (v, reply(ResponseView::Done, false)),
    }
}

/// Saved effects, LED presets and LCD templates.
#[verifier::opaque]
pub open spec fn lighting_spec(v: DaemonView, request: Request, sys: SystemView) -> (DaemonView, OutcomeView) {
    match request {
        Request::ListEffects => (v, reply(ResponseView::Items(v.effects), false)),
        Request::SaveEffect { effect } => (
            DaemonView { effects: remove_then_push(v.effects, effect), ..v },
            reply(ResponseView::Done, true),
        ),
        Request::DeleteEffect { name } => {
            let (kept, out) = strict_delete(v.effects, "effect"@, name@);
            (DaemonView { effects: kept, ..v }, out)
        },
        Request::ListLedPresets => (v, reply(ResponseView::Items(v.led_presets), false)),
        Request::SaveLedPreset { preset } => (
            DaemonView { led_presets: remove_then_push(v.led_presets, preset), ..v },
            reply(ResponseView::Done, true),
        ),
        Request::DeleteLedPreset { name } => {
            let (kept, out) = strict_delete(v.led_presets, "LED preset"@, name@);
            (DaemonView { led_presets: kept, ..v }, out)
        },
        Request::ListLcdTemplates => (v, reply(ResponseView::Items(v.lcd_templates), false)),
        Request::SaveLcdTemplate { template } => (
            DaemonView { lcd_templates: replace_or_push(v.lcd_templates, template), ..v },
            reply(ResponseView::Done, true),
        ),
        Request::DeleteLcdTemplate { id } => {
            let (kept, out) = strict_delete(v.lcd_templates, "template"@, id@);
            (DaemonView { lcd_templates: kept, ..v }, out)
        },
        _ => (v, reply(ResponseView::Done, false)),
    }
}

/// The schedule.
#[verifier::opaque]
pub open spec fn schedule_spec(v: DaemonView, request: Request, sys: SystemView) -> (DaemonView, OutcomeView) {
    match request {
        Request::AddSchedule { entry } => match entry_error(entry) {
            Some(m) => (v, reply(ResponseView::Error(m), false)),
            None => (DaemonView { schedule: v.schedule.push(entry), ..v }, reply(ResponseView::Done, true)),
        },
        Request::DeleteSchedule { index } => if index < v.schedule.len() {
            (DaemonView { schedule: v.schedule.remove(index as int), ..v }, reply(ResponseView::Done, true))
        } else {
            (v, reply(ResponseView::Error(schedule_index_text(index as nat)), false))
        },
        Request::ClearSchedule => (
            DaemonView { schedule: Seq::empty(), ..v },
            reply(ResponseView::Done, true),
        ),
        _ => (v, reply(ResponseView::Done, false)),
    }
}

/// Group entries.
#[verifier::opaque]
pub open spec fn groups_spec(v: DaemonView, request: Request, sys: SystemView) -> (DaemonView, OutcomeView) {
    match request {
        Request::RenameGroup { group, name, invalid } => match invalid {
            Some(e) => (v, reply(ResponseView::Error(e@), false)),
            None => (
                DaemonView { groups: renamed(v.groups, group, name), ..v },
                acted(seq![ActionView::RenameDevice { group: group, name: name@ }], true),
            ),
        },
        Request::SetRole { group, role } => (
            DaemonView { groups: role_set(v.groups, sys.devices@, group, role), ..v },
            acted(seq![ActionView::SetDeviceRole { group: group, role: role }], true),
        ),
        Request::ExcludeGroup { group } => (
            DaemonView { groups: flagged(v.groups, group, true), ..v },
            reply(ResponseView::Done, true),
        ),
        Request::IncludeGroup { group } => (
            DaemonView { groups: flagged(v.groups, group, false), ..v },
            reply(ResponseView::Done, true),
        ),
        Request::ForgetGroup { group } => (
            DaemonView { groups: drop_group(v.groups, group), ..v },
            reply(ResponseView::Done, true),
        ),
        _ => (v, reply(ResponseView::Done, false)),
    }
}

/// Requests that act on the devices; most replies wait for the hardware.
#[verifier::opaque]
pub open spec fn hardware_spec(v: DaemonView, request: Request, sys: SystemView) -> (DaemonView, OutcomeView) {
    match request {
        Request::ReorderGroups { order } => if order@.len() == 0 || order@.len() > MAX_MERGE_GROUPS {
            (v, reply(ResponseView::Error(order_size_text(order@.len())), false))
        } else {
            (v, OutcomeView {
                response: ResponseView::Done,
                events: Seq::empty(),
                actions: seq![ActionView::SetMergeOrder { order: order@ }],
                pending: PendingView::MergeOrder { order: order@ },
                flush: false,
            })
        },
        Request::StopFans => {
            let gs = fan_groups(sys.devices@);
            (v, OutcomeView {
                response: ResponseView::Done,
                events: Seq::empty(),
                actions: stop_actions(gs),
                pending: PendingView::StopFans { groups: gs },
                flush: false,
            })
        },
        Request::Sync { color, config } => if !config.enabled {
            (v, reply(ResponseView::Error("sync is disabled"@), false))
        } else {
            let gs = sync_targets(config, sys.devices@);
            let ms = Seq::new(gs.len(), |i: int| static_view(color));
            (v, OutcomeView {
                response: ResponseView::Done,
                events: Seq::empty(),
                actions: rgb_actions(gs, ms),
                pending: PendingView::Colors { groups: gs, modes: ms },
                flush: false,
            })
        },
        Request::Indicate { group, duration_secs, previous } => (v, OutcomeView {
            response: ResponseView::Done,
            events: Seq::empty(),
            actions: seq![ActionView::Flash { group: group }],
            pending: PendingView::Indicate { group: group, duration_secs: duration_secs, previous: previous },
            flush: false,
        }),
        Request::Reset { target } => {
            let gs = target_groups(target, sys.devices@);
            (v, OutcomeView {
                response: ResponseView::Done,
                events: Seq::empty(),
                actions: reset_actions(gs),
                pending: PendingView::Reset { groups: gs },
                flush: false,
            })
        },
        Request::SetMbSync { group, enable } => (v, OutcomeView {
            response: ResponseView::Done,
            events: Seq::empty(),
            actions: seq![ActionView::SetMbSync { group: group, enable: enable }],
            pending: PendingView::MbSync,
            flush: false,
        }),
        Request::Lock => if sys.has_rf {
            (v, OutcomeView {
                response: ResponseView::Done,
                events: Seq::empty(),
                actions: seq![ActionView::Lock],
                pending: PendingView::Lock,
                flush: false,
            })
        } else {
            (v, reply(ResponseView::Error("no RF backend available"@), false))
        },
        Request::Unlock => if sys.has_rf {
            (v, OutcomeView {
                response: ResponseView::Done,
                events: Seq::empty(),
                actions: seq![ActionView::Unlock],
                pending: PendingView::Unlock,
                flush: false,
            })
        } else {
            (v, reply(ResponseView::Error("no RF backend available"@), false))
        },
        Request::SetSpeed { group, mode, inline_curve, invalid } => match invalid {
            Some(e) => (v, reply(ResponseView::Error("invalid speed mode: "@ + e@), false)),
            None => match mode {
                SpeedMode::NamedCurve(name) => if first_key(v.curves, name@) is Some {
                    (v, OutcomeView {
                        response: ResponseView::Done,
                        events: seq![EventView::SpeedChanged { group: group, mode: mode }],
                        actions: seq![
                            ActionView::RemoveCurve { group: group },
                            ActionView::ActivateCurve { group: group, name: name@ },
                        ],
                        pending: PendingView::Nothing,
                        flush: false,
                    })
                } else {
                    (v, OutcomeView {
                        response: ResponseView::Error(missing_text("curve"@, name@)),
                        events: Seq::empty(),
                        actions: seq![ActionView::RemoveCurve { group: group }],
                        pending: PendingView::Nothing,
                        flush: false,
                    })
                },
                SpeedMode::Curve => (v, OutcomeView {
                    response: ResponseView::Done,
                    events: seq![EventView::SpeedChanged { group: group, mode: mode }],
                    actions: seq![
                        ActionView::RemoveCurve { group: group },
                        ActionView::SetInlineCurve { group: group, curve: inline_curve },
                    ],
                    pending: PendingView::Nothing,
                    flush: false,
                }),
                SpeedMode::Manual(_) => (v, OutcomeView {
                    response: ResponseView::Done,
                    events: Seq::empty(),
                    actions: seq![
                        ActionView::RemoveCurve { group: group },
                        ActionView::MbSyncOff { group: group },
                        ActionView::SetSpeed { group: group, mode: mode },
                    ],
                    pending: PendingView::Speeds { groups: seq![group], mode: mode },
                    flush: false,
                }),
                SpeedMode::Pwm => (v, OutcomeView {
                    response: ResponseView::Done,
                    events: Seq::empty(),
                    actions: seq![ActionView::RemoveCurve { group: group }, ActionView::SetSpeed { group: group, mode: mode }],
                    pending: PendingView::Speeds { groups: seq![group], mode: mode },
                    flush: false,
                }),
            },
        },
        Request::SetSpeedAll { target, mode, invalid } => match invalid {
            Some(e) => (v, reply(ResponseView::Error("invalid speed mode: "@ + e@), false)),
            None => {
                let gs = speed_groups(target_groups(Some(target), sys.devices@), sys.devices@);
                (v, OutcomeView {
                    response: ResponseView::Done,
                    events: Seq::empty(),
                    actions: speed_actions(gs, mode),
                    pending: PendingView::Speeds { groups: gs, mode: mode },
                    flush: false,
                })
            },
        },
        Request::Bind { group, lock } => if !sys.has_rf {
            (v, reply(ResponseView::Error("backend does not support bind"@), false))
        } else if sys.unbound == 0 {
            (v, reply(ResponseView::Error("no unbound devices"@), false))
        } else {
            (v, OutcomeView {
                response: ResponseView::Done,
                events: Seq::empty(),
                actions: seq![ActionView::BindDevice { index: 0, group: group, lock: lock }],
                pending: PendingView::Single,
                flush: false,
            })
        },
        Request::Unbind { group } => if !sys.has_rf {
            (v, reply(ResponseView::Error("backend does not support unbind"@), false))
        } else if !group_has_mac(sys.devices@, group) {
            (v, reply(ResponseView::Error("no device found in group "@ + dec_chars(group.0 as nat)), false))
        } else {
            (v, OutcomeView {
                response: ResponseView::Done,
                events: Seq::empty(),
                actions: seq![ActionView::UnbindDevice { group: group }],
                pending: PendingView::Single,
                flush: false,
            })
        },
        _ => (v, reply(ResponseView::Done, false)),
    }
}

/// Sequence and effect-cycle playback.
#[verifier::opaque]
pub open spec fn shows_spec(v: DaemonView, request: Request, sys: SystemView) -> (DaemonView, OutcomeView) {
    match request {
        Request::SetEffectCycle { show } => (
            DaemonView { show_active: started(v.show_active, device_groups(sys.devices@), show), ..v },
            reply(ResponseView::Done, false),
        ),
        Request::StartSequence { name, target } => match named_show(v.show_sequences, name@) {
            Some(show) => (
                DaemonView { show_active: started(v.show_active, target_groups(target, sys.devices@), show), ..v },
                reply(ResponseView::Done, false),
            ),
            None => (v, reply(ResponseView::Error("sequence '"@ + name@ + "' not found in config"@), false)),
        },
        Request::StopSequence { target } => {
            let (a, evs) = stopped(v.show_active, target_groups(target, sys.devices@));
            (DaemonView { show_active: a, ..v }, OutcomeView {
                response: ResponseView::Done,
                events: show_events(evs),
                actions: Seq::empty(),
                pending: PendingView::Nothing,
                flush: false,
            })
        },
        Request::StopAllSequences => {
            let (a, evs) = stopped(v.show_active, Seq::empty());
            (DaemonView { show_active: a, ..v }, OutcomeView {
                response: ResponseView::Done,
                events: show_events(evs),
                actions: Seq::empty(),
                pending: PendingView::Nothing,
                flush: false,
            })
        },
        _ => (v, reply(ResponseView::Done, false)),
    }
}

/// What the host reads from the devices and sensors, and the motherboard channels.
#[verifier::opaque]
pub open spec fn queries_spec(v: DaemonView, request: Request, sys: SystemView) -> (DaemonView, OutcomeView) {
    match request {
        Request::Status => (v, reply(ResponseView::DeviceStatus(status_list(sys.devices@, true)), false)),
        Request::StatusVerbose => (v, reply(ResponseView::DeviceStatus(status_list(sys.devices@, true)), false)),
        Request::Watch => (v, reply(ResponseView::DeviceStatus(status_list(sys.devices@, true)), false)),
        Request::Discover => (v, OutcomeView {
            response: ResponseView::Done,
            events: Seq::empty(),
            actions: seq![ActionView::Discover],
            pending: PendingView::Discovery,
            flush: false,
        }),
        Request::ListGroups => (v, reply(ResponseView::GroupList(group_infos(sys.devices@)), false)),
        Request::ListLcdDevices => (v, reply(ResponseView::Report(Report::LcdDevices), false)),
        Request::ListSensors => (v, reply(ResponseView::Report(Report::SensorList), false)),
        Request::GetSensorReading { sensor } => if sys.sensors@.contains(sensor) {
            (v, reply(ResponseView::Report(Report::SensorReading(sensor)), false))
        } else {
            (v, reply(ResponseView::Error("sensor "@ + sensor_text(sensor) + " not available"@), false))
        },
        Request::ListPresets => (v, reply(ResponseView::Report(Report::LcdPresets), false)),
        Request::GetFirmwareInfo => (v, reply(
            ResponseView::FirmwareInfo { tx_version: firmware_text(sys.tx_firmware), rx_version: mac_text(sys.tx_mac) },
            false,
        )),
        Request::MoboDetect => if sys.has_aura {
            (v, reply(ResponseView::Done, false))
        } else {
            (v, reply(ResponseView::Error("no AURA motherboard RGB device found"@), false))
        },
        Request::MoboStatus => if has_aura_device(sys.devices@) {
            (v, reply(ResponseView::Done, false))
        } else {
            (v, reply(ResponseView::Error("no AURA devices in registry"@), false))
        },
        Request::MoboSetSpeed { channel, percent } => (v, OutcomeView {
            response: ResponseView::Done,
            events: Seq::empty(),
            actions: seq![ActionView::SetSpeed { group: GroupId(channel), mode: SpeedMode::Manual(percent) }],
            pending: PendingView::MoboSpeed,
            flush: false,
        }),
        Request::MoboAuto { channel } => (v, OutcomeView {
            response: ResponseView::Done,
            events: Seq::empty(),
            actions: seq![ActionView::SetSpeed { group: GroupId(channel), mode: SpeedMode::Pwm }],
            pending: PendingView::MoboAuto,
            flush: false,
        }),
        Request::MoboTemps => (v, reply(ResponseView::Error("use ListSensors for temperature data"@), false)),
        Request::ListAuraChannels => (v, reply(ResponseView::Report(Report::AuraChannels), false)),
        Request::SetAuraEffect { group, effect, color } => (v, OutcomeView {
            response: ResponseView::Done,
            events: Seq::empty(),
            actions: seq![ActionView::SetAuraEffect { group: group, effect: effect, color: color }],
            pending: PendingView::Single,
            flush: false,
        }),
        Request::RenderTemplatePreview { template, width, height } => (v, OutcomeView {
            response: ResponseView::Done,
            events: Seq::empty(),
            actions: seq![
                ActionView::RenderPreview {
                    template: template@,
                    width: if width < MAX_PREVIEW_DIM { width } else { MAX_PREVIEW_DIM },
                    height: if height < MAX_PREVIEW_DIM { height } else { MAX_PREVIEW_DIM },
                },
            ],
            pending: PendingView::Preview,
            flush: false,
        }),
        Request::GetCurveSuggestions => (v, reply(ResponseView::Report(Report::CurveSuggestions), false)),
        Request::GetRecoveryCounters => (v, reply(ResponseView::Report(Report::RecoveryCounters), false)),
        Request::GetWearStats => (v, reply(ResponseView::Report(Report::WearStats), false)),
        _ => (v, reply(ResponseView::Done, false)),
    }
}

/// Lighting, pump and screen settings of the devices.
#[verifier::opaque]
pub open spec fn lights_spec(v: DaemonView, request: Request, sys: SystemView) -> (DaemonView, OutcomeView) {
    match request {
        Request::SetRgb { group, mode } => (v, OutcomeView {
            response: ResponseView::Done,
            events: Seq::empty(),
            actions: seq![ActionView::SetRgb { group: group, mode: mode@ }],
            pending: PendingView::Rgb { group: group, mode: mode@ },
            flush: false,
        }),
        Request::SetRgbAll { target, mode } => {
            let gs = target_groups(Some(target), sys.devices@);
            let ms = same_modes(gs.len(), mode@);
            (v, OutcomeView {
                response: ResponseView::Done,
                events: Seq::empty(),
                actions: rgb_actions(gs, ms),
                pending: PendingView::Colors { groups: gs, modes: ms },
                flush: false,
            })
        },
        Request::SetBrightness { target, level } => {
            let d = dimmed(target_groups(Some(target), sys.devices@), sys.devices@, level);
            let gs = d.map_values(|e: (GroupId, ModeView)| e.0);
            let ms = d.map_values(|e: (GroupId, ModeView)| e.1);
            (v, OutcomeView {
                response: ResponseView::Done,
                events: Seq::empty(),
                actions: rgb_actions(gs, ms),
                pending: PendingView::Colors { groups: gs, modes: ms },
                flush: false,
            })
        },
        Request::SetPumpMode { group, mode, invalid } => match invalid {
            Some(e) => (v, reply(ResponseView::Error(e@), false)),
            None => (v, OutcomeView {
                response: ResponseView::Done,
                events: Seq::empty(),
                actions: seq![ActionView::SetPump { group: group, mode: mode@ }],
                pending: PendingView::Pump,
                flush: false,
            }),
        },
        Request::SetLcd { lcd_index, config } => if lcd_index < sys.lcd_devices@.len() {
            (v, acted(seq![ActionView::ConfigureLcd { device: sys.lcd_devices@[lcd_index as int], config: config }], false))
        } else {
            (v, reply(ResponseView::Error("no LCD device at index "@ + dec_chars(lcd_index as nat)), false))
        },
        _ => (v, reply(ResponseView::Done, false)),
    }
}

/// Reading the settings back, and the configuration file.
#[verifier::opaque]
pub open spec fn config_spec(v: DaemonView, request: Request, sys: SystemView) -> (DaemonView, OutcomeView) {
    match request {
        Request::ListSchedule => (
            v,
            reply(ResponseView::ScheduleList(v.schedule.map_values(|e: ScheduleEntry| entry_view(e))), false),
        ),
        Request::GetAlertConfig => (v, reply(
            ResponseView::AlertConfig(
                match v.alert_config {
                    Some(c) => alert_config_view(c),
                    None => default_alerts(),
                },
            ),
            false,
        )),
        Request::GetSyncConfig => (v, reply(
            ResponseView::SyncConfig(
                match v.sync {
                    Some(c) => sync_config_view(c),
                    None => default_sync(),
                },
            ),
            false,
        )),
        Request::GetDaemonConfig => (v, reply(ResponseView::DaemonConfig { poll_interval_ms: v.poll_interval_ms }, false)),
        Request::ExportConfig { path, path_error } => match path_error {
            Some(e) => (v, reply(ResponseView::Error(e@), false)),
            None => (v, OutcomeView {
                response: ResponseView::Done,
                events: Seq::empty(),
                actions: seq![ActionView::WriteConfig { path: path@ }],
                pending: PendingView::Single,
                flush: false,
            }),
        },
        Request::ImportConfig { imported, merge, problem } => match problem {
            Some(e) => (v, reply(ResponseView::Error(e@), false)),
            None => if merge {
                (
                    DaemonView {
                        profiles: merged_names(v.profiles, imported.profiles@),
                        curves: merged_items(v.curves, imported.curves@),
                        effects: merged_items(v.effects, imported.effects@),
                        ..v
                    },
                    reply(ResponseView::Done, true),
                )
            } else {
                (
                    DaemonView {
                        profiles: imported.profiles@,
                        curves: imported.curves@,
                        sequences: imported.sequences@,
                        effects: imported.effects@,
                        led_presets: imported.led_presets@,
                        lcd_templates: imported.lcd_templates@,
                        groups: group_entry_views(imported.groups@),
                        ..v
                    },
                    reply(ResponseView::Done, true),
                )
            },
        },
        Request::ReloadConfig => (v, acted(seq![ActionView::ReloadConfig], false)),
        Request::SetSensorCalibration { calibration } => (
            v,
            acted(seq![ActionView::ApplyCalibration { calibration: calibration@ }], true),
        ),
        _ => (v, reply(ResponseView::Done, false)),
    }
}

/// The state after a request and the outcome, for every request.
pub open spec fn handle_spec(v: DaemonView, request: Request, sys: SystemView) -> (DaemonView, OutcomeView) {
    match request_kind(request) {
        RequestKind::Session => session_spec(v, request, sys),
        RequestKind::Profiles => profiles_spec(v, request, sys),
        RequestKind::Curves => curves_spec(v, request, sys),
        RequestKind::Lighting => lighting_spec(v, request, sys),
        RequestKind::Schedule => schedule_spec(v, request, sys),
        RequestKind::Groups => groups_spec(v, request, sys),
        RequestKind::Hardware => hardware_spec(v, request, sys),
        RequestKind::Config => config_spec(v, request, sys),
        RequestKind::Lights => lights_spec(v, request, sys),
        RequestKind::Queries => queries_spec(v, request, sys),
        RequestKind::Shows => shows_spec(v, request, sys),
    }
}

fn outcome(response: Response, flush: bool) -> (o: HandleOutcome)
    ensures
        o@ == reply(response@, flush),
{
    let o = HandleOutcome { response, events: Vec::new(), actions: Vec::new(), pending: Pending::Nothing, flush };
    proof {
        assert(actions_view(o.actions@) =~= Seq::<ActionView>::empty());
    }
    o
}

fn outcome_with(actions: Vec<Action>, flush: bool) -> (o: HandleOutcome)
    ensures
        o@ == acted(actions_view(actions@), flush),
{
    HandleOutcome { response: Response::Done, events: Vec::new(), actions, pending: Pending::Nothing, flush }
}

fn one_action(a: Action) -> (r: Vec<Action>)
    ensures
        actions_view(r@) == seq![a@],
{
    let mut r: Vec<Action> = Vec::new();
    r.push(a);
    proof {
        assert(actions_view(r@) =~= seq![a@]);
    }
    r
}

fn missing(what: &str, name: &str) -> (m: String)
    ensures
        m@ == missing_text(what@, name@),
{
    let mut m = what.to_owned();
    m.append(" '");
    m.append(name);
    m.append("' not found");
    m
}

fn delete_strict(list: &mut Vec<SavedItem>, what: &str, key: &str) -> (o: HandleOutcome)
    ensures
        final(list)@ == strict_delete(old(list)@, what@, key@).0,
        o@ == strict_delete(old(list)@, what@, key@).1,
{
    let before = list.len();
    remove_key(list, key);
    if list.len() == before {
        outcome(Response::Error(missing(what, key)), false)
    } else {
        outcome(Response::Done, true)
    }
}

fn push_action(acts: &mut Vec<Action>, a: Action)
    ensures
        actions_view(final(acts)@) == actions_view(old(acts)@).push(a@),
{
    acts.push(a);
    proof {
        assert(actions_view(acts@) =~= actions_view(old(acts)@).push(a@));
    }
}

fn stop_fan_actions(groups: &Vec<GroupId>) -> (r: Vec<Action>)
    ensures
        actions_view(r@) == stop_actions(groups@),
{
    let mut r: Vec<Action> = Vec::new();
    let mut i: usize = 0;
    proof {
        assert(actions_view(r@) =~= stop_actions(groups@.subrange(0, 0)));
    }
    while i < groups.len()
        invariant
            i <= groups@.len(),
            actions_view(r@) == stop_actions(groups@.subrange(0, i as int)),
        decreases groups@.len() - i,
    {
        let g = groups[i];
        push_action(&mut r, Action::RemoveCurve { group: g });
        push_action(&mut r, Action::MbSyncOff { group: g });
        push_action(&mut r, Action::StopFan { group: g });
        proof {
            let p = groups@.subrange(0, i + 1);
            assert(p.drop_last() =~= groups@.subrange(0, i as int));
            assert(p.last() == g);
            assert(actions_view(r@) =~= stop_actions(p));
        }
        i = i + 1;
    }
    proof {
        assert(groups@.subrange(0, i as int) =~= groups@);
    }
    r
}

/// One lighting action per group, group `i` taking a copy of mode `i`.
fn set_rgb_actions(groups: &Vec<GroupId>, modes: &Vec<RgbMode>) -> (r: Vec<Action>)
    requires
        groups@.len() == modes@.len(),
    ensures
        actions_view(r@) == rgb_actions(groups@, modes@.map_values(|m: RgbMode| m@)),
{
    let ghost ms = modes@.map_values(|m: RgbMode| m@);
    let mut r: Vec<Action> = Vec::new();
    let mut i: usize = 0;
    while i < groups.len()
        invariant
            i <= groups@.len(),
            groups@.len() == modes@.len(),
            ms == modes@.map_values(|m: RgbMode| m@),
            actions_view(r@) =~= rgb_actions(groups@.subrange(0, i as int), ms.subrange(0, i as int)),
        decreases groups@.len() - i,
    {
        push_action(&mut r, Action::SetRgb { group: groups[i], mode: copy_mode(&modes[i]) });
        proof {
            assert(rgb_actions(groups@.subrange(0, i + 1), ms.subrange(0, i + 1)) =~= rgb_actions(
                groups@.subrange(0, i as int),
                ms.subrange(0, i as int),
            ).push(ActionView::SetRgb { group: groups@[i as int], mode: ms[i as int] }));
        }
        i = i + 1;
    }
    proof {
        assert(groups@.subrange(0, i as int) =~= groups@);
        assert(ms.subrange(0, i as int) =~= ms);
    }
    r
}

/// Static `color` on both rings at full brightness, once per group.
fn static_modes(n: usize, color: Rgb) -> (r: Vec<RgbMode>)
    ensures
        r@.map_values(|m: RgbMode| m@) == Seq::new(n as nat, |i: int| static_view(color)),
        r@.len() == n,
{
    let mut r: Vec<RgbMode> = Vec::new();
    let mut i: usize = 0;
    while i < n
        invariant
            i <= n,
            r@.len() == i,
            r@.map_values(|m: RgbMode| m@) =~= Seq::new(i as nat, |k: int| static_view(color)),
        decreases n - i,
    {
        let ghost before = r@;
        let m = RgbMode::Static { ring: Ring::Both, color, brightness: 255 };
        r.push(m);
        proof {
            assert(r@ =~= before.push(m));
            assert(r@.map_values(|m: RgbMode| m@) =~= before.map_values(|m: RgbMode| m@).push(m@));
        }
        i = i + 1;
    }
    r
}

fn discovery_events(unbound: usize) -> (r: Vec<DaemonEvent>)
    ensures
        event_views(r@) == bind_events(unbound as nat),
{
    let mut r: Vec<DaemonEvent> = Vec::new();
    let mut i: usize = 0;
    while i < unbound
        invariant
            i <= unbound,
            event_views(r@) =~= bind_events(i as nat),
        decreases unbound - i,
    {
        let ghost before = r@;
        let e = DaemonEvent::BindDiscovered { index: i };
        r.push(e);
        proof {
            assert(r@ =~= before.push(e));
            assert(event_views(r@) =~= event_views(before).push(e@));
        }
        i = i + 1;
    }
    r
}

/// The family a request belongs to.
pub enum RequestKind {
    Config,
    Lights,
    Queries,
    Shows,
    Session,
    Profiles,
    Curves,
    Lighting,
    Schedule,
    Groups,
    Hardware,
}

/// The family of each request.
pub open spec fn request_kind(r: Request) -> RequestKind {
    match r {
        Request::Hello { .. } | Request::Subscribe { .. } | Request::Unsubscribe { .. } | Request::EnterBindMode { .. } | Request::ExitBindMode { .. } | Request::SetSyncConfig { .. } | Request::SetAlertConfig { .. } | Request::SetPowerConfig { .. } | Request::SetDaemonConfig { .. } | Request::SetAppProfiles { .. } => RequestKind::Session,
        Request::ListProfiles { .. } | Request::SaveProfile { .. } | Request::DeleteProfile { .. } | Request::SwitchProfile { .. } | Request::CopyProfile { .. } => RequestKind::Profiles,
        Request::ListCurves { .. } | Request::SaveCurve { .. } | Request::DeleteCurve { .. } | Request::ListSequences { .. } | Request::SaveSequence { .. } | Request::DeleteSequence { .. } => RequestKind::Curves,
        Request::ListEffects { .. } | Request::SaveEffect { .. } | Request::DeleteEffect { .. } | Request::ListLedPresets { .. } | Request::SaveLedPreset { .. } | Request::DeleteLedPreset { .. } | Request::ListLcdTemplates { .. } | Request::SaveLcdTemplate { .. } | Request::DeleteLcdTemplate { .. } => RequestKind::Lighting,
        Request::AddSchedule { .. } | Request::DeleteSchedule { .. } | Request::ClearSchedule { .. } => RequestKind::Schedule,
        Request::RenameGroup { .. } | Request::SetRole { .. } | Request::ExcludeGroup { .. } | Request::IncludeGroup { .. } | Request::ForgetGroup { .. } => RequestKind::Groups,
        Request::SetEffectCycle { .. } | Request::StartSequence { .. } | Request::StopSequence { .. } | Request::StopAllSequences { .. } => RequestKind::Shows,
        Request::Status { .. } | Request::StatusVerbose { .. } | Request::Watch { .. } | Request::Discover { .. } | Request::ListGroups { .. } | Request::ListLcdDevices { .. } | Request::ListSensors { .. } | Request::GetSensorReading { .. } | Request::ListPresets { .. } | Request::GetFirmwareInfo { .. } | Request::MoboDetect { .. } | Request::MoboStatus { .. } | Request::MoboSetSpeed { .. } | Request::MoboAuto { .. } | Request::MoboTemps { .. } | Request::ListAuraChannels { .. } | Request::SetAuraEffect { .. } | Request::RenderTemplatePreview { .. } | Request::GetCurveSuggestions { .. } | Request::GetRecoveryCounters { .. } | Request::GetWearStats { .. } => RequestKind::Queries,
        Request::SetRgb { .. } | Request::SetRgbAll { .. } | Request::SetBrightness { .. } | Request::SetPumpMode { .. } | Request::SetLcd { .. } => RequestKind::Lights,
        Request::ListSchedule { .. } | Request::GetAlertConfig { .. } | Request::GetSyncConfig { .. } | Request::GetDaemonConfig { .. } | Request::ExportConfig { .. } | Request::ImportConfig { .. } | Request::ReloadConfig { .. } | Request::SetSensorCalibration { .. } => RequestKind::Config,
        Request::ReorderGroups { .. } | Request::StopFans { .. } | Request::Sync { .. } | Request::Indicate { .. } | Request::Reset { .. } | Request::SetMbSync { .. } | Request::Lock { .. } | Request::Unlock { .. } | Request::SetSpeed { .. } | Request::SetSpeedAll { .. } | Request::Bind { .. } | Request::Unbind { .. } => RequestKind::Hardware,
    }
}

fn kind_of(r: &Request) -> (k: RequestKind)
    ensures
        k == request_kind(*r),
{
    match r {
        Request::Hello { .. } | Request::Subscribe { .. } | Request::Unsubscribe { .. } | Request::EnterBindMode { .. } | Request::ExitBindMode { .. } | Request::SetSyncConfig { .. } | Request::SetAlertConfig { .. } | Request::SetPowerConfig { .. } | Request::SetDaemonConfig { .. } | Request::SetAppProfiles { .. } => RequestKind::Session,
        Request::ListProfiles { .. } | Request::SaveProfile { .. } | Request::DeleteProfile { .. } | Request::SwitchProfile { .. } | Request::CopyProfile { .. } => RequestKind::Profiles,
        Request::ListCurves { .. } | Request::SaveCurve { .. } | Request::DeleteCurve { .. } | Request::ListSequences { .. } | Request::SaveSequence { .. } | Request::DeleteSequence { .. } => RequestKind::Curves,
        Request::ListEffects { .. } | Request::SaveEffect { .. } | Request::DeleteEffect { .. } | Request::ListLedPresets { .. } | Request::SaveLedPreset { .. } | Request::DeleteLedPreset { .. } | Request::ListLcdTemplates { .. } | Request::SaveLcdTemplate { .. } | Request::DeleteLcdTemplate { .. } => RequestKind::Lighting,
        Request::AddSchedule { .. } | Request::DeleteSchedule { .. } | Request::ClearSchedule { .. } => RequestKind::Schedule,
        Request::RenameGroup { .. } | Request::SetRole { .. } | Request::ExcludeGroup { .. } | Request::IncludeGroup { .. } | Request::ForgetGroup { .. } => RequestKind::Groups,
        Request::SetEffectCycle { .. } | Request::StartSequence { .. } | Request::StopSequence { .. } | Request::StopAllSequences { .. } => RequestKind::Shows,
        Request::Status { .. } | Request::StatusVerbose { .. } | Request::Watch { .. } | Request::Discover { .. } | Request::ListGroups { .. } | Request::ListLcdDevices { .. } | Request::ListSensors { .. } | Request::GetSensorReading { .. } | Request::ListPresets { .. } | Request::GetFirmwareInfo { .. } | Request::MoboDetect { .. } | Request::MoboStatus { .. } | Request::MoboSetSpeed { .. } | Request::MoboAuto { .. } | Request::MoboTemps { .. } | Request::ListAuraChannels { .. } | Request::SetAuraEffect { .. } | Request::RenderTemplatePreview { .. } | Request::GetCurveSuggestions { .. } | Request::GetRecoveryCounters { .. } | Request::GetWearStats { .. } => RequestKind::Queries,
        Request::SetRgb { .. } | Request::SetRgbAll { .. } | Request::SetBrightness { .. } | Request::SetPumpMode { .. } | Request::SetLcd { .. } => RequestKind::Lights,
        Request::ListSchedule { .. } | Request::GetAlertConfig { .. } | Request::GetSyncConfig { .. } | Request::GetDaemonConfig { .. } | Request::ExportConfig { .. } | Request::ImportConfig { .. } | Request::ReloadConfig { .. } | Request::SetSensorCalibration { .. } => RequestKind::Config,
        Request::ReorderGroups { .. } | Request::StopFans { .. } | Request::Sync { .. } | Request::Indicate { .. } | Request::Reset { .. } | Request::SetMbSync { .. } | Request::Lock { .. } | Request::Unlock { .. } | Request::SetSpeed { .. } | Request::SetSpeedAll { .. } | Request::Bind { .. } | Request::Unbind { .. } => RequestKind::Hardware,
    }
}

/// Handshake, subscriptions, bind scanning, settings and application profiles.
fn handle_session(state: &mut DaemonState, request: Request, sys: &SystemView) -> (r: HandleOutcome)
    requires
        old(state).wf(),
        request_kind(request) == RequestKind::Session,
    ensures
        final(state).wf(),
        final(state)@ == session_spec(old(state)@, request, *sys).0,
        r@ == session_spec(old(state)@, request, *sys).1,
{
    proof {
        reveal(session_spec);
    }
    match request {
        Request::Hello { protocol_version } => match hello_reply(protocol_version) {
            Ok(n) => outcome(Response::Hello { protocol_version: n }, false),
            Err(m) => outcome(Response::Error(m), false),
        },
        Request::Subscribe => outcome(Response::Done, false),
        Request::Unsubscribe => outcome(Response::Done, false),
        Request::EnterBindMode => {
            state.bind_scanning = true;
            HandleOutcome {
                response: Response::Done,
                events: discovery_events(sys.unbound),
                actions: Vec::new(),
                pending: Pending::Nothing,
                flush: false,
            }
        },
        Request::ExitBindMode => {
            state.bind_scanning = false;
            outcome(Response::Done, false)
        },
        Request::SetSyncConfig { config } => {
            state.sync = Some(config);
            outcome(Response::Done, true)
        },
        Request::SetAlertConfig { config } => {
            state.alerts.set_config(config);
            outcome(Response::Done, true)
        },
        Request::SetPowerConfig { config } => {
            state.power.set_config(config);
            outcome(Response::Done, true)
        },
        Request::SetDaemonConfig { poll_interval_ms } => {
            state.poll_interval_ms = poll_interval_ms;
            outcome(Response::Done, true)
        },
        Request::SetAppProfiles { profiles } => {
            state.app_profiles.load(profiles);
            outcome(Response::Done, true)
        },
        _ => outcome(Response::Done, false),
    }
}

/// Profile names: listing, saving, copying, deleting and switching.
fn handle_profiles(state: &mut DaemonState, request: Request, sys: &SystemView) -> (r: HandleOutcome)
    requires
        old(state).wf(),
        request_kind(request) == RequestKind::Profiles,
    ensures
        final(state).wf(),
        final(state)@ == profiles_spec(old(state)@, request, *sys).0,
        r@ == profiles_spec(old(state)@, request, *sys).1,
{
    proof {
        reveal(profiles_spec);
    }
    match request {
        Request::ListProfiles => outcome(Response::ProfileList(copy_names(&state.profiles)), false),
        Request::SaveProfile { name } => {
            let capture = Action::CaptureProfile { name: name.clone() };
            if !contains_name(&state.profiles, name.as_str()) {
                state.profiles.push(name);
            }
            outcome_with(one_action(capture), true)
        },
        Request::DeleteProfile { name } => {
            remove_name(&mut state.profiles, name.as_str());
            outcome(Response::Done, true)
        },
        Request::SwitchProfile { name } => {
            if contains_name(&state.profiles, name.as_str()) {
                let apply = Action::ApplyProfile { name: name.clone() };
                let mut events: Vec<DaemonEvent> = Vec::new();
                events.push(DaemonEvent::ProfileSwitched { name });
                HandleOutcome {
                    response: Response::Done,
                    events,
                    actions: one_action(apply),
                    pending: Pending::Nothing,
                    flush: false,
                }
            } else {
                outcome(Response::Error(missing("profile", name.as_str())), false)
            }
        },
        Request::CopyProfile { from, to, invalid } => match invalid {
            Some(e) => outcome(Response::Error(e), false),
            None => {
                if !contains_name(&state.profiles, from.as_str()) {
                    outcome(Response::Error(missing("profile", from.as_str())), false)
                } else if contains_name(&state.profiles, to.as_str()) {
                    let mut m = "profile '".to_owned();
                    m.append(to.as_str());
                    m.append("' already exists");
                    outcome(Response::Error(m), false)
                } else {
                    let act = Action::CopyProfile { from, to: to.clone() };
                    state.profiles.push(to);
                    outcome_with(one_action(act), true)
                }
            },
        },
        _ => outcome(Response::Done, false),
    }
}

/// Saved curves and sequences.
fn handle_curves(state: &mut DaemonState, request: Request, sys: &SystemView) -> (r: HandleOutcome)
    requires
        old(state).wf(),
        request_kind(request) == RequestKind::Curves,
    ensures
        final(state).wf(),
        final(state)@ == curves_spec(old(state)@, request, *sys).0,
        r@ == curves_spec(old(state)@, request, *sys).1,
{
    proof {
        reveal(curves_spec);
    }
    match request {
        Request::ListCurves => outcome(Response::Items(copy_items(&state.curves)), false),
        Request::SaveCurve { curve, invalid } => match invalid {
            Some(e) => {
                let mut m = "invalid curve: ".to_owned();
                m.append(e.as_str());
                outcome(Response::Error(m), false)
            },
            None => {
                save_replacing(&mut state.curves, curve);
                outcome(Response::Done, true)
            },
        },
        Request::DeleteCurve { name } => {
            remove_key(&mut state.curves, name.as_str());
            outcome(Response::Done, true)
        },
        Request::ListSequences => outcome(Response::Items(copy_items(&state.sequences)), false),
        Request::SaveSequence { sequence } => {
            save_replacing(&mut state.sequences, sequence);
            outcome_with(one_action(Action::ReloadSequences), true)
        },
        Request::DeleteSequence { name } => {
            remove_key(&mut state.sequences, name.as_str());
            outcome_with(one_action(Action::ReloadSequences), true)
        },
        _ => outcome(Response::Done, false),
    }
}

/// Saved effects, LED presets and LCD templates.
fn handle_lighting(state: &mut DaemonState, request: Request, sys: &SystemView) -> (r: HandleOutcome)
    requires
        old(state).wf(),
        request_kind(request) == RequestKind::Lighting,
    ensures
        final(state).wf(),
        final(state)@ == lighting_spec(old(state)@, request, *sys).0,
        r@ == lighting_spec(old(state)@, request, *sys).1,
{
    proof {
        reveal(lighting_spec);
    }
    match request {
        Request::ListEffects => outcome(Response::Items(copy_items(&state.effects)), false),
        Request::SaveEffect { effect } => {
            save_appending(&mut state.effects, effect);
            outcome(Response::Done, true)
        },
        Request::DeleteEffect { name } => delete_strict(&mut state.effects, "effect", name.as_str()),
        Request::ListLedPresets => outcome(Response::Items(copy_items(&state.led_presets)), false),
        Request::SaveLedPreset { preset } => {
            save_appending(&mut state.led_presets, preset);
            outcome(Response::Done, true)
        },
        Request::DeleteLedPreset { name } => delete_strict(&mut state.led_presets, "LED preset", name.as_str()),
        Request::ListLcdTemplates => outcome(Response::Items(copy_items(&state.lcd_templates)), false),
        Request::SaveLcdTemplate { template } => {
            save_replacing(&mut state.lcd_templates, template);
            outcome(Response::Done, true)
        },
        Request::DeleteLcdTemplate { id } => delete_strict(&mut state.lcd_templates, "template", id.as_str()),
        _ => outcome(Response::Done, false),
    }
}

/// The schedule.
fn handle_schedule(state: &mut DaemonState, request: Request, sys: &SystemView) -> (r: HandleOutcome)
    requires
        old(state).wf(),
        request_kind(request) == RequestKind::Schedule,
    ensures
        final(state).wf(),
        final(state)@ == schedule_spec(old(state)@, request, *sys).0,
        r@ == schedule_spec(old(state)@, request, *sys).1,
{
    proof {
        reveal(schedule_spec);
    }
    match request {
        Request::AddSchedule { entry } => match entry.validate() {
            Err(m) => outcome(Response::Error(m), false),
            Ok(()) => {
                state.schedule.add(entry);
                outcome(Response::Done, true)
            },
        },
        Request::DeleteSchedule { index } => {
            if state.schedule.remove(index) {
                outcome(Response::Done, true)
            } else {
                let mut m = "schedule index ".to_owned();
                append_dec_u64(&mut m, index as u64);
                m.append(" out of bounds");
                outcome(Response::Error(m), false)
            }
        },
        Request::ClearSchedule => {
            state.schedule.clear();
            proof {
                assert(state.schedule.entries@ =~= Seq::<ScheduleEntry>::empty());
            }
            outcome(Response::Done, true)
        },
        _ => outcome(Response::Done, false),
    }
}

/// Group entries.
fn handle_groups(state: &mut DaemonState, request: Request, sys: &SystemView) -> (r: HandleOutcome)
    requires
        old(state).wf(),
        request_kind(request) == RequestKind::Groups,
    ensures
        final(state).wf(),
        final(state)@ == groups_spec(old(state)@, request, *sys).0,
        r@ == groups_spec(old(state)@, request, *sys).1,
{
    proof {
        reveal(groups_spec);
    }
    match request {
        Request::RenameGroup { group, name, invalid } => match invalid {
            Some(e) => outcome(Response::Error(e), false),
            None => {
                let act = Action::RenameDevice { group, name: name.clone() };
                rename_group(&mut state.groups, group, name);
                outcome_with(one_action(act), true)
            },
        },
        Request::SetRole { group, role } => {
            let act = Action::SetDeviceRole { group, role: copy_role(&role) };
            set_role(&mut state.groups, &sys.devices, group, role);
            outcome_with(one_action(act), true)
        },
        Request::ExcludeGroup { group } => {
            flag_group(&mut state.groups, group, true);
            outcome(Response::Done, true)
        },
        Request::IncludeGroup { group } => {
            flag_group(&mut state.groups, group, false);
            outcome(Response::Done, true)
        },
        Request::ForgetGroup { group } => {
            forget_group(&mut state.groups, group);
            outcome(Response::Done, true)
        },
        _ => outcome(Response::Done, false),
    }
}

/// Requests that act on the devices; most replies wait for the hardware.
fn handle_hardware(state: &mut DaemonState, request: Request, sys: &SystemView) -> (r: HandleOutcome)
    requires
        old(state).wf(),
        request_kind(request) == RequestKind::Hardware,
    ensures
        final(state).wf(),
        final(state)@ == hardware_spec(old(state)@, request, *sys).0,
        r@ == hardware_spec(old(state)@, request, *sys).1,
{
    proof {
        reveal(hardware_spec);
    }
    match request {
        Request::ReorderGroups { order } => {
            let n = order.len();
            if n == 0 || n > MAX_MERGE_GROUPS {
                let mut m = "order must be 1-4 groups, got ".to_owned();
                append_dec_u64(&mut m, n as u64);
                outcome(Response::Error(m), false)
            } else {
                let kept = copy_group_ids(&order);
                HandleOutcome {
                    response: Response::Done,
                    events: Vec::new(),
                    actions: one_action(Action::SetMergeOrder { order }),
                    pending: Pending::MergeOrder { order: kept },
                    flush: false,
                }
            }
        },
        Request::StopFans => {
            let groups = collect_fan_groups(&sys.devices);
            let actions = stop_fan_actions(&groups);
            HandleOutcome {
                response: Response::Done,
                events: Vec::new(),
                actions,
                pending: Pending::StopFans { groups },
                flush: false,
            }
        },
        Request::Sync { color, config } => {
            if !config.enabled {
                outcome(Response::Error("sync is disabled".to_owned()), false)
            } else {
                let groups = collect_sync_targets(&config, &sys.devices);
                let modes = static_modes(groups.len(), color);
                let actions = set_rgb_actions(&groups, &modes);
                HandleOutcome {
                    response: Response::Done,
                    events: Vec::new(),
                    actions,
                    pending: Pending::Colors { groups, modes },
                    flush: false,
                }
            }
        },
        Request::Indicate { group, duration_secs, previous } => HandleOutcome {
            response: Response::Done,
            events: Vec::new(),
            actions: one_action(Action::Flash { group }),
            pending: Pending::Indicate { group, duration_secs, previous },
            flush: false,
        },
        Request::Reset { target } => {
            let groups = match &target {
                Some(t) => resolve_target_groups(sys, Some(t)),
                None => resolve_target_groups(sys, None),
            };
            let actions = reset_device_actions(&groups);
            HandleOutcome {
                response: Response::Done,
                events: Vec::new(),
                actions,
                pending: Pending::Reset { groups },
                flush: false,
            }
        },
        Request::SetMbSync { group, enable } => HandleOutcome {
            response: Response::Done,
            events: Vec::new(),
            actions: one_action(Action::SetMbSync { group, enable }),
            pending: Pending::MbSync,
            flush: false,
        },
        Request::Lock => if sys.has_rf {
            HandleOutcome {
                response: Response::Done,
                events: Vec::new(),
                actions: one_action(Action::Lock),
                pending: Pending::Lock,
                flush: false,
            }
        } else {
            outcome(Response::Error("no RF backend available".to_owned()), false)
        },
        Request::Unlock => if sys.has_rf {
            HandleOutcome {
                response: Response::Done,
                events: Vec::new(),
                actions: one_action(Action::Unlock),
                pending: Pending::Unlock,
                flush: false,
            }
        } else {
            outcome(Response::Error("no RF backend available".to_owned()), false)
        },
        Request::SetSpeed { group, mode, inline_curve, invalid } => match invalid {
            Some(e) => {
                let mut m = "invalid speed mode: ".to_owned();
                m.append(e.as_str());
                outcome(Response::Error(m), false)
            },
            None => {
                let mut actions: Vec<Action> = Vec::new();
                push_action(&mut actions, Action::RemoveCurve { group });
                match &mode {
                    SpeedMode::NamedCurve(name) => {
                        if find_key(&state.curves, name.as_str()).is_some() {
                            push_action(&mut actions, Action::ActivateCurve { group, name: name.clone() });
                            let mut events: Vec<DaemonEvent> = Vec::new();
                            events.push(DaemonEvent::SpeedChanged { group, mode: copy_speed_mode(&mode) });
                            proof {
                                assert(actions_view(actions@) =~= seq![
                                    ActionView::RemoveCurve { group: group },
                                    ActionView::ActivateCurve { group: group, name: name@ },
                                ]);
                            }
                            HandleOutcome {
                                response: Response::Done,
                                events,
                                actions,
                                pending: Pending::Nothing,
                                flush: false,
                            }
                        } else {
                            proof {
                                assert(actions_view(actions@) =~= seq![ActionView::RemoveCurve { group: group }]);
                            }
                            HandleOutcome {
                                response: Response::Error(missing("curve", name.as_str())),
                                events: Vec::new(),
                                actions,
                                pending: Pending::Nothing,
                                flush: false,
                            }
                        }
                    },
                    SpeedMode::Curve => {
                        push_action(&mut actions, Action::SetInlineCurve { group, curve: copy_curve_text(&inline_curve) });
                        let mut events: Vec<DaemonEvent> = Vec::new();
                        events.push(DaemonEvent::SpeedChanged { group, mode: copy_speed_mode(&mode) });
                        proof {
                            assert(actions_view(actions@) =~= seq![
                                ActionView::RemoveCurve { group: group },
                                ActionView::SetInlineCurve { group: group, curve: inline_curve },
                            ]);
                        }
                        HandleOutcome { response: Response::Done, events, actions, pending: Pending::Nothing, flush: false }
                    },
                    SpeedMode::Manual(_) => {
                        push_action(&mut actions, Action::MbSyncOff { group });
                        push_action(&mut actions, Action::SetSpeed { group, mode: copy_speed_mode(&mode) });
                        let mut groups: Vec<GroupId> = Vec::new();
                        groups.push(group);
                        proof {
                            assert(actions_view(actions@) =~= seq![
                                ActionView::RemoveCurve { group: group },
                                ActionView::MbSyncOff { group: group },
                                ActionView::SetSpeed { group: group, mode: mode },
                            ]);
                            assert(groups@ =~= seq![group]);
                        }
                        HandleOutcome {
                            response: Response::Done,
                            events: Vec::new(),
                            actions,
                            pending: Pending::Speeds { groups, mode },
                            flush: false,
                        }
                    },
                    SpeedMode::Pwm => {
                        push_action(&mut actions, Action::SetSpeed { group, mode: copy_speed_mode(&mode) });
                        let mut groups: Vec<GroupId> = Vec::new();
                        groups.push(group);
                        proof {
                            assert(actions_view(actions@) =~= seq![
                                ActionView::RemoveCurve { group: group },
                                ActionView::SetSpeed { group: group, mode: mode },
                            ]);
                            assert(groups@ =~= seq![group]);
                        }
                        HandleOutcome {
                            response: Response::Done,
                            events: Vec::new(),
                            actions,
                            pending: Pending::Speeds { groups, mode },
                            flush: false,
                        }
                    },
                }
            },
        },
        Request::SetSpeedAll { target, mode, invalid } => match invalid {
            Some(e) => {
                let mut m = "invalid speed mode: ".to_owned();
                m.append(e.as_str());
                outcome(Response::Error(m), false)
            },
            None => {
                let targets = resolve_target_groups(sys, Some(&target));
                let groups = select_speed_groups(&targets, &sys.devices);
                let actions = set_speed_actions(&groups, &mode);
                HandleOutcome {
                    response: Response::Done,
                    events: Vec::new(),
                    actions,
                    pending: Pending::Speeds { groups, mode },
                    flush: false,
                }
            },
        },
        Request::Bind { group, lock } => if !sys.has_rf {
            outcome(Response::Error("backend does not support bind".to_owned()), false)
        } else if sys.unbound == 0 {
            outcome(Response::Error("no unbound devices".to_owned()), false)
        } else {
            HandleOutcome {
                response: Response::Done,
                events: Vec::new(),
                actions: one_action(Action::BindDevice { index: 0, group, lock }),
                pending: Pending::Single,
                flush: false,
            }
        },
        Request::Unbind { group } => {
            let with_mac = match find_device(&sys.devices, group) {
                Some(i) => sys.devices[i].has_mac,
                None => false,
            };
            if !sys.has_rf {
                outcome(Response::Error("backend does not support unbind".to_owned()), false)
            } else if !with_mac {
                let mut m = "no device found in group ".to_owned();
                append_dec(&mut m, group.0);
                outcome(Response::Error(m), false)
            } else {
                HandleOutcome {
                    response: Response::Done,
                    events: Vec::new(),
                    actions: one_action(Action::UnbindDevice { group }),
                    pending: Pending::Single,
                    flush: false,
                }
            }
        },
        _ => outcome(Response::Done, false),
    }
}

/// Sequence and effect-cycle playback.
fn handle_shows(state: &mut DaemonState, request: Request, sys: &SystemView) -> (r: HandleOutcome)
    requires
        old(state).wf(),
        request_kind(request) == RequestKind::Shows,
    ensures
        final(state).wf(),
        final(state)@ == shows_spec(old(state)@, request, *sys).0,
        r@ == shows_spec(old(state)@, request, *sys).1,
{
    proof {
        reveal(shows_spec);
    }
    match request {
        Request::SetEffectCycle { show } => {
            let groups = resolve_target_groups(sys, None);
            state.show.start_sequence(groups.as_slice(), show);
            outcome(Response::Done, false)
        },
        Request::StartSequence { name, target } => match state.show.get_sequence(name.as_str()) {
            Some(show) => {
                proof {
                    let seqs = state.show.sequences@;
                    let i = choose|i: int| 0 <= i < seqs.len() && seqs[i] == show && show.name@ == name@;
                    let j = choose|j: int| 0 <= j < seqs.len() && (#[trigger] seqs[j]).name@ == name@;
                    assert(seqs[i].name@ == name@);
                    if i != j {
                        if i < j {
                            assert(seqs[i].name@ != seqs[j].name@);
                        } else {
                            assert(seqs[j].name@ != seqs[i].name@);
                        }
                    }
                }
                let groups = match &target {
                    Some(t) => resolve_target_groups(sys, Some(t)),
                    None => resolve_target_groups(sys, None),
                };
                state.show.start_sequence(groups.as_slice(), show);
                outcome(Response::Done, false)
            },
            None => {
                let mut m = "sequence '".to_owned();
                m.append(name.as_str());
                m.append("' not found in config");
                outcome(Response::Error(m), false)
            },
        },
        Request::StopSequence { target } => {
            let groups = match &target {
                Some(t) => resolve_target_groups(sys, Some(t)),
                None => resolve_target_groups(sys, None),
            };
            let evs = state.show.stop(groups.as_slice());
            proof {
                if groups@.len() == 0 {
                    assert(state.show.active@ =~= Seq::<ActiveEntry<String>>::empty());
                }
            }
            HandleOutcome {
                response: Response::Done,
                events: wrap_show_events(&evs),
                actions: Vec::new(),
                pending: Pending::Nothing,
                flush: false,
            }
        },
        Request::StopAllSequences => {
            let none: Vec<GroupId> = Vec::new();
            let evs = state.show.stop(none.as_slice());
            proof {
                assert(state.show.active@ =~= Seq::<ActiveEntry<String>>::empty());
            }
            HandleOutcome {
                response: Response::Done,
                events: wrap_show_events(&evs),
                actions: Vec::new(),
                pending: Pending::Nothing,
                flush: false,
            }
        },
        _ => outcome(Response::Done, false),
    }
}

/// What the host reads from the devices and sensors, and the motherboard channels.
fn handle_queries(state: &mut DaemonState, request: Request, sys: &SystemView) -> (r: HandleOutcome)
    requires
        old(state).wf(),
        request_kind(request) == RequestKind::Queries,
    ensures
        final(state).wf(),
        final(state)@ == queries_spec(old(state)@, request, *sys).0,
        r@ == queries_spec(old(state)@, request, *sys).1,
{
    proof {
        reveal(queries_spec);
    }
    match request {
        Request::Status => outcome(Response::DeviceStatus(build_status_list(sys, true)), false),
        Request::StatusVerbose => outcome(Response::DeviceStatus(build_status_list(sys, true)), false),
        Request::Watch => outcome(Response::DeviceStatus(build_status_list(sys, true)), false),
        Request::Discover => HandleOutcome {
            response: Response::Done,
            events: Vec::new(),
            actions: one_action(Action::Discover),
            pending: Pending::Discovery,
            flush: false,
        },
        Request::ListGroups => outcome(Response::GroupList(list_groups(sys)), false),
        Request::ListLcdDevices => outcome(Response::Report(Report::LcdDevices), false),
        Request::ListSensors => outcome(Response::Report(Report::SensorList), false),
        Request::GetSensorReading { sensor } => if sensor_present(&sys.sensors, sensor) {
            outcome(Response::Report(Report::SensorReading(sensor)), false)
        } else {
            let mut m = "sensor ".to_owned();
            let t = sensor_debug(sensor);
            m.append(t.as_str());
            m.append(" not available");
            outcome(Response::Error(m), false)
        },
        Request::ListPresets => outcome(Response::Report(Report::LcdPresets), false),
        Request::GetFirmwareInfo => outcome(
            Response::FirmwareInfo {
                tx_version: firmware_version_text(sys.tx_firmware),
                rx_version: radio_address_text(sys.tx_mac),
            },
            false,
        ),
        Request::MoboDetect => if sys.has_aura {
            outcome(Response::Done, false)
        } else {
            outcome(Response::Error("no AURA motherboard RGB device found".to_owned()), false)
        },
        Request::MoboStatus => if any_aura_device(&sys.devices) {
            outcome(Response::Done, false)
        } else {
            outcome(Response::Error("no AURA devices in registry".to_owned()), false)
        },
        Request::MoboSetSpeed { channel, percent } => HandleOutcome {
            response: Response::Done,
            events: Vec::new(),
            actions: one_action(Action::SetSpeed { group: GroupId(channel), mode: SpeedMode::Manual(percent) }),
            pending: Pending::MoboSpeed,
            flush: false,
        },
        Request::MoboAuto { channel } => HandleOutcome {
            response: Response::Done,
            events: Vec::new(),
            actions: one_action(Action::SetSpeed { group: GroupId(channel), mode: SpeedMode::Pwm }),
            pending: Pending::MoboAuto,
            flush: false,
        },
        Request::MoboTemps => outcome(Response::Error("use ListSensors for temperature data".to_owned()), false),
        Request::ListAuraChannels => outcome(Response::Report(Report::AuraChannels), false),
        Request::SetAuraEffect { group, effect, color } => HandleOutcome {
            response: Response::Done,
            events: Vec::new(),
            actions: one_action(Action::SetAuraEffect { group, effect, color }),
            pending: Pending::Single,
            flush: false,
        },
        Request::RenderTemplatePreview { template, width, height } => {
            let w = if width < MAX_PREVIEW_DIM { width } else { MAX_PREVIEW_DIM };
            let h = if height < MAX_PREVIEW_DIM { height } else { MAX_PREVIEW_DIM };
            HandleOutcome {
                response: Response::Done,
                events: Vec::new(),
                actions: one_action(Action::RenderPreview { template, width: w, height: h }),
                pending: Pending::Preview,
                flush: false,
            }
        },
        Request::GetCurveSuggestions => outcome(Response::Report(Report::CurveSuggestions), false),
        Request::GetRecoveryCounters => outcome(Response::Report(Report::RecoveryCounters), false),
        Request::GetWearStats => outcome(Response::Report(Report::WearStats), false),
        _ => outcome(Response::Done, false),
    }
}

/// Lighting, pump and screen settings of the devices.
fn handle_lights(state: &mut DaemonState, request: Request, sys: &SystemView) -> (r: HandleOutcome)
    requires
        old(state).wf(),
        request_kind(request) == RequestKind::Lights,
    ensures
        final(state).wf(),
        final(state)@ == lights_spec(old(state)@, request, *sys).0,
        r@ == lights_spec(old(state)@, request, *sys).1,
{
    proof {
        reveal(lights_spec);
    }
    match request {
        Request::SetRgb { group, mode } => {
            let act = Action::SetRgb { group, mode: copy_mode(&mode) };
            HandleOutcome {
                response: Response::Done,
                events: Vec::new(),
                actions: one_action(act),
                pending: Pending::Rgb { group, mode },
                flush: false,
            }
        },
        Request::SetRgbAll { target, mode } => {
            let groups = resolve_target_groups(sys, Some(&target));
            let modes = repeat_mode(groups.len(), &mode);
            let actions = set_rgb_actions(&groups, &modes);
            HandleOutcome {
                response: Response::Done,
                events: Vec::new(),
                actions,
                pending: Pending::Colors { groups, modes },
                flush: false,
            }
        },
        Request::SetBrightness { target, level } => {
            let targets = resolve_target_groups(sys, Some(&target));
            let (groups, modes) = dim_targets(&targets, &sys.devices, level);
            let actions = set_rgb_actions(&groups, &modes);
            HandleOutcome {
                response: Response::Done,
                events: Vec::new(),
                actions,
                pending: Pending::Colors { groups, modes },
                flush: false,
            }
        },
        Request::SetPumpMode { group, mode, invalid } => match invalid {
            Some(e) => outcome(Response::Error(e), false),
            None => HandleOutcome {
                response: Response::Done,
                events: Vec::new(),
                actions: one_action(Action::SetPump { group, mode }),
                pending: Pending::Pump,
                flush: false,
            },
        },
        Request::SetLcd { lcd_index, config } => if lcd_index < sys.lcd_devices.len() {
            outcome_with(one_action(Action::ConfigureLcd { device: sys.lcd_devices[lcd_index], config }), false)
        } else {
            let mut m = "no LCD device at index ".to_owned();
            append_dec_u64(&mut m, lcd_index as u64);
            outcome(Response::Error(m), false)
        },
        _ => outcome(Response::Done, false),
    }
}

/// Reading the settings back, and the configuration file.
fn handle_config(state: &mut DaemonState, request: Request, sys: &SystemView) -> (r: HandleOutcome)
    requires
        old(state).wf(),
        request_kind(request) == RequestKind::Config,
    ensures
        final(state).wf(),
        final(state)@ == config_spec(old(state)@, request, *sys).0,
        r@ == config_spec(old(state)@, request, *sys).1,
{
    proof {
        reveal(config_spec);
    }
    match request {
        Request::ListSchedule => {
            let entries = copy_entries(&state.schedule.entries);
            outcome(Response::ScheduleList(entries), false)
        },
        Request::GetAlertConfig => {
            let c = match &state.alerts.config {
                Some(c) => copy_alerts(c),
                None => AlertConfig { temp_alerts: Vec::new(), fan_stall_detect: true, device_disconnect: true },
            };
            proof {
                if state.alerts.config is None {
                    assert(alert_config_view(c) =~= default_alerts());
                }
            }
            outcome(Response::AlertConfig(c), false)
        },
        Request::GetSyncConfig => {
            let c = match &state.sync {
                Some(c) => copy_sync(c),
                None => SyncConfig {
                    enabled: false,
                    include_lianli: true,
                    include_mobo_rgb: false,
                    include_openrgb: false,
                    include_roles: Vec::new(),
                    include_device_types: Vec::new(),
                    exclude_groups: Vec::new(),
                },
            };
            proof {
                if state.sync is None {
                    assert(sync_config_view(c) =~= default_sync());
                }
            }
            outcome(Response::SyncConfig(c), false)
        },
        Request::GetDaemonConfig => outcome(Response::DaemonConfig { poll_interval_ms: state.poll_interval_ms }, false),
        Request::ExportConfig { path, path_error } => match path_error {
            Some(e) => outcome(Response::Error(e), false),
            None => HandleOutcome {
                response: Response::Done,
                events: Vec::new(),
                actions: one_action(Action::WriteConfig { path }),
                pending: Pending::Single,
                flush: false,
            },
        },
        Request::ImportConfig { imported, merge, problem } => match problem {
            Some(e) => outcome(Response::Error(e), false),
            None => {
                if merge {
                    merge_names(&mut state.profiles, &imported.profiles);
                    merge_items(&mut state.curves, &imported.curves);
                    merge_items(&mut state.effects, &imported.effects);
                } else {
                    state.profiles = imported.profiles;
                    state.curves = imported.curves;
                    state.sequences = imported.sequences;
                    state.effects = imported.effects;
                    state.led_presets = imported.led_presets;
                    state.lcd_templates = imported.lcd_templates;
                    state.groups = imported.groups;
                }
                outcome(Response::Done, true)
            },
        },
        Request::ReloadConfig => outcome_with(one_action(Action::ReloadConfig), false),
        Request::SetSensorCalibration { calibration } => outcome_with(
            one_action(Action::ApplyCalibration { calibration }),
            true,
        ),
        _ => outcome(Response::Done, false),
    }
}

/// Handles one request: changes the state and says what to answer, what to
/// broadcast, what the hardware must do and what the reply waits for, as
/// `handle_spec` gives them.
pub fn handle_request(state: &mut DaemonState, request: Request, sys: &SystemView) -> (r: HandleOutcome)
    requires
        old(state).wf(),
    ensures
        final(state).wf(),
        final(state)@ == handle_spec(old(state)@, request, *sys).0,
        r@ == handle_spec(old(state)@, request, *sys).1,
{
    match kind_of(&request) {
        RequestKind::Session => handle_session(state, request, sys),
        RequestKind::Profiles => handle_profiles(state, request, sys),
        RequestKind::Curves => handle_curves(state, request, sys),
        RequestKind::Lighting => handle_lighting(state, request, sys),
        RequestKind::Schedule => handle_schedule(state, request, sys),
        RequestKind::Groups => handle_groups(state, request, sys),
        RequestKind::Hardware => handle_hardware(state, request, sys),
        RequestKind::Config => handle_config(state, request, sys),
        RequestKind::Lights => handle_lights(state, request, sys),
        RequestKind::Queries => handle_queries(state, request, sys),
        RequestKind::Shows => handle_shows(state, request, sys),
    }
}

// ---------------------------------------------------------------------------
// Completing a request from the hardware's results
// ---------------------------------------------------------------------------

/// The groups whose action succeeded, in order.
pub open spec fn succeeded(groups: Seq<GroupId>, results: Seq<Result<(), String>>) -> Seq<GroupId>
    decreases groups.len(),
{
    if groups.len() == 0 {
        Seq::empty()
    } else {
        let rest = succeeded(groups.drop_last(), results.drop_last());
        match results.last() {
            Ok(_) => rest.push(groups.last()),
            Err(_) => rest,
        }
    }
}

/// "group `g`: `error`" for each group whose action failed, in order.
pub open spec fn failure_texts(groups: Seq<GroupId>, results: Seq<Result<(), String>>) -> Seq<Seq<char>>
    decreases groups.len(),
{
    if groups.len() == 0 {
        Seq::empty()
    } else {
        let rest = failure_texts(groups.drop_last(), results.drop_last());
        match results.last() {
            Ok(_) => rest,
            Err(e) => rest.push("group "@ + dec_chars(groups.last().0 as nat) + ": "@ + e@),
        }
    }
}

/// The texts joined with "; ".
pub open spec fn joined(texts: Seq<Seq<char>>) -> Seq<char>
    decreases texts.len(),
{
    if texts.len() == 0 {
        Seq::empty()
    } else if texts.len() == 1 {
        texts[0]
    } else {
        joined(texts.drop_last()) + "; "@ + texts.last()
    }
}

/// Success when no action failed, else every failure in one error.
pub open spec fn failures_reply(groups: Seq<GroupId>, results: Seq<Result<(), String>>) -> ResponseView {
    let f = failure_texts(groups, results);
    if f.len() == 0 {
        ResponseView::Done
    } else {
        ResponseView::Error(joined(f))
    }
}

/// Success, or the error after `prefix`.
pub open spec fn checked_reply(prefix: Seq<char>, result: Result<(), String>) -> ResponseView {
    match result {
        Ok(_) => ResponseView::Done,
        Err(e) => ResponseView::Error(prefix + e@),
    }
}

fn checked(prefix: &str, result: &Result<(), String>) -> (r: Response)
    ensures
        r@ == checked_reply(prefix@, *result),
{
    match result {
        Ok(()) => Response::Done,
        Err(e) => {
            let mut m = prefix.to_owned();
            m.append(e.as_str());
            Response::Error(m)
        },
    }
}

/// Whether the results answer what is pending: one for a merge order, one
/// per group otherwise.
pub open spec fn results_fit(p: PendingView, n: nat) -> bool {
    match p {
        PendingView::Nothing => true,
        PendingView::MergeOrder { .. } => n == 1,
        PendingView::StopFans { groups } => n == groups.len(),
        PendingView::Colors { groups, modes } => n == groups.len() && modes.len() == groups.len(),
        PendingView::Rgb { .. } => n == 1,
        PendingView::Indicate { .. } => n == 1,
        PendingView::Reset { groups } => n == groups.len(),
        PendingView::MbSync => n == 1,
        PendingView::Lock => n == 1,
        PendingView::Unlock => n == 1,
        PendingView::Speeds { groups, .. } => n == groups.len(),
        PendingView::Single => n == 1,
        PendingView::Discovery => n == 1,
        PendingView::MoboSpeed => n == 1,
        PendingView::MoboAuto => n == 1,
        PendingView::Pump => n == 1,
        PendingView::Preview => n == 1,
    }
}

/// Whether `n` results answer what is pending.
pub fn results_fit_count(pending: &Pending, n: usize) -> (r: bool)
    ensures
        r == results_fit(pending@, n as nat),
{
    match pending {
        Pending::Nothing => true,
        Pending::MergeOrder { .. } => n == 1,
        Pending::StopFans { groups } => n == groups.len(),
        Pending::Colors { groups, modes } => n == groups.len() && modes.len() == groups.len(),
        Pending::Rgb { .. } => n == 1,
        Pending::Indicate { .. } => n == 1,
        Pending::Reset { groups } => n == groups.len(),
        Pending::MbSync => n == 1,
        Pending::Lock => n == 1,
        Pending::Unlock => n == 1,
        Pending::Speeds { groups, .. } => n == groups.len(),
        Pending::Single => n == 1,
        Pending::Discovery => n == 1,
        Pending::MoboSpeed => n == 1,
        Pending::MoboAuto => n == 1,
        Pending::Pump => n == 1,
        Pending::Preview => n == 1,
    }
}

/// Whether the result of `a` is one of those that the pending reply `p`
/// awaits: each kind of reply waits for the actions of one kind.
pub open spec fn awaits(p: Pending, a: Action) -> bool {
    match p {
        Pending::Nothing => false,
        Pending::MergeOrder { .. } => a is SetMergeOrder,
        Pending::StopFans { .. } => a is StopFan,
        Pending::Colors { .. } => a is SetRgb,
        Pending::Rgb { .. } => a is SetRgb,
        Pending::Indicate { .. } => a is Flash,
        Pending::Reset { .. } => a is ResetDevice,
        Pending::MbSync => a is SetMbSync,
        Pending::Lock => a is Lock,
        Pending::Unlock => a is Unlock,
        Pending::Speeds { .. } => a is SetSpeed,
        Pending::Single => a is BindDevice || a is UnbindDevice || a is WriteConfig || a is SetAuraEffect,
        Pending::Discovery => a is Discover,
        Pending::MoboSpeed => a is SetSpeed,
        Pending::MoboAuto => a is SetSpeed,
        Pending::Pump => a is SetPump,
        Pending::Preview => a is RenderPreview,
    }
}

/// Whether the host hands the result of `action` to [`complete_request`]
/// for `pending`.
pub fn is_awaited(pending: &Pending, action: &Action) -> (r: bool)
    ensures
        r == awaits(*pending, *action),
{
    match pending {
        Pending::Nothing => false,
        Pending::MergeOrder { .. } => matches!(action, Action::SetMergeOrder { .. }),
        Pending::StopFans { .. } => matches!(action, Action::StopFan { .. }),
        Pending::Colors { .. } => matches!(action, Action::SetRgb { .. }),
        Pending::Rgb { .. } => matches!(action, Action::SetRgb { .. }),
        Pending::Indicate { .. } => matches!(action, Action::Flash { .. }),
        Pending::Reset { .. } => matches!(action, Action::ResetDevice { .. }),
        Pending::MbSync => matches!(action, Action::SetMbSync { .. }),
        Pending::Lock => matches!(action, Action::Lock),
        Pending::Unlock => matches!(action, Action::Unlock),
        Pending::Speeds { .. } => matches!(action, Action::SetSpeed { .. }),
        Pending::Single => matches!(
            action,
            Action::BindDevice { .. } | Action::UnbindDevice { .. } | Action::WriteConfig { .. } | Action::SetAuraEffect { .. }
        ),
        Pending::Discovery => matches!(action, Action::Discover),
        Pending::MoboSpeed => matches!(action, Action::SetSpeed { .. }),
        Pending::MoboAuto => matches!(action, Action::SetSpeed { .. }),
        Pending::Pump => matches!(action, Action::SetPump { .. }),
        Pending::Preview => matches!(action, Action::RenderPreview { .. }),
    }
}

/// The state, reply, events and whether to write the configuration once the
/// hardware answered at `now_ms`: a merge order is kept when it was set;
/// stopped fans and synced colours are announced for the groups that took
/// them; a flash that was shown is undone after its duration (a newer flash
/// of the group replaces an older one).
pub open spec fn complete_spec(v: DaemonView, p: PendingView, results: Seq<Result<(), String>>, now_ms: u64) -> (
    DaemonView,
    ResponseView,
    Seq<EventView>,
    bool,
) {
    match p {
        PendingView::Nothing => (v, ResponseView::Done, Seq::empty(), false),
        PendingView::MergeOrder { order } => match results[0] {
            Ok(_) => (DaemonView { merge_order: Some(order), ..v }, ResponseView::Done, Seq::empty(), true),
            Err(e) => (v, ResponseView::Error("set merge order: "@ + e@), Seq::empty(), false),
        },
        PendingView::StopFans { groups } => (
            v,
            failures_reply(groups, results),
            kept_events(speed_events(groups, SpeedMode::Manual(0)), results),
            false,
        ),
        PendingView::Colors { groups, modes } => (
            v,
            failures_reply(groups, results),
            kept_events(mode_events(groups, modes), results),
            false,
        ),
        PendingView::Rgb { group, mode } => match results[0] {
            Ok(_) => (v, ResponseView::Done, seq![EventView::RgbChanged { group: group, mode: mode }], false),
            Err(e) => (v, ResponseView::Error(e@), Seq::empty(), false),
        },
        PendingView::Indicate { group, duration_secs, previous } => match results[0] {
            Ok(_) => (
                DaemonView {
                    restores: v.restores.filter(for_other_group(group)).push(
                        IndicateRestore {
                            deadline_ms: (now_ms + flash_secs(duration_secs) * 1000) as u64,
                            group: group,
                            mode: previous,
                        },
                    ),
                    ..v
                },
                ResponseView::Done,
                Seq::empty(),
                false,
            ),
            Err(e) => (v, ResponseView::Error(e@), Seq::empty(), false),
        },
        PendingView::Reset { groups } => (
            v,
            failures_reply(groups, results),
            kept_events(Seq::new(groups.len(), |i: int| None), results),
            false,
        ),
        PendingView::MbSync => (v, checked_reply("MB sync failed: "@, results[0]), Seq::empty(), false),
        PendingView::Lock => (v, checked_reply("Lock failed: "@, results[0]), Seq::empty(), false),
        PendingView::Unlock => (v, checked_reply("Unlock failed: "@, results[0]), Seq::empty(), false),
        PendingView::Speeds { groups, mode } => (
            v,
            failures_reply(groups, results),
            kept_events(speed_events(groups, mode), results),
            false,
        ),
        PendingView::Discovery => match results[0] {
            Ok(_) => (v, ResponseView::Report(Report::DeviceStatus), Seq::empty(), false),
            Err(e) => (v, ResponseView::Error(e@), Seq::empty(), false),
        },
        PendingView::MoboSpeed => (v, checked_reply("mobo speed: "@, results[0]), Seq::empty(), false),
        PendingView::MoboAuto => (v, checked_reply("mobo auto: "@, results[0]), Seq::empty(), false),
        PendingView::Pump => (v, checked_reply("set pump mode: "@, results[0]), Seq::empty(), false),
        PendingView::Preview => match results[0] {
            Ok(_) => (v, ResponseView::Report(Report::TemplatePreview), Seq::empty(), false),
            Err(e) => (v, ResponseView::Error("preview render failed: "@ + e@), Seq::empty(), false),
        },
        PendingView::Single => match results[0] {
            Ok(_) => (v, ResponseView::Done, Seq::empty(), false),
            Err(e) => (v, ResponseView::Error(e@), Seq::empty(), false),
        },
    }
}

fn group_failure(g: GroupId, e: &String) -> (m: String)
    ensures
        m@ == "group "@ + dec_chars(g.0 as nat) + ": "@ + e@,
{
    let mut m = "group ".to_owned();
    append_dec(&mut m, g.0);
    m.append(": ");
    m.append(e.as_str());
    m
}

/// The announcement of each group's success, in order.
pub open spec fn speed_events(groups: Seq<GroupId>, mode: SpeedMode) -> Seq<Option<EventView>> {
    groups.map_values(|g: GroupId| Some(EventView::SpeedChanged { group: g, mode: mode }))
}

/// The announcement of each group's new lighting, group `i` with mode `i`.
pub open spec fn mode_events(groups: Seq<GroupId>, modes: Seq<ModeView>) -> Seq<Option<EventView>> {
    Seq::new(groups.len(), |i: int| Some(EventView::RgbChanged { group: groups[i], mode: modes[i] }))
}

/// The announcements of the actions that succeeded, in order.
pub open spec fn kept_events(c: Seq<Option<EventView>>, results: Seq<Result<(), String>>) -> Seq<EventView>
    decreases c.len(),
{
    if c.len() == 0 {
        Seq::empty()
    } else {
        let rest = kept_events(c.drop_last(), results.drop_last());
        match (results.last(), c.last()) {
            (Ok(_), Some(e)) => rest.push(e),
            _ => rest,
        }
    }
}

fn speed_announcements(groups: &Vec<GroupId>, mode: &SpeedMode) -> (r: Vec<Option<DaemonEvent>>)
    ensures
        option_views(r@) == speed_events(groups@, *mode),
        r@.len() == groups@.len(),
{
    let mut r: Vec<Option<DaemonEvent>> = Vec::new();
    let mut i: usize = 0;
    while i < groups.len()
        invariant
            i <= groups@.len(),
            r@.len() == i,
            option_views(r@) =~= speed_events(groups@.subrange(0, i as int), *mode),
        decreases groups@.len() - i,
    {
        let ghost before = r@;
        let e = Some(DaemonEvent::SpeedChanged { group: groups[i], mode: copy_speed_mode(mode) });
        r.push(e);
        proof {
            assert(r@ =~= before.push(e));
            assert(option_views(r@) =~= option_views(before).push(
                Some(EventView::SpeedChanged { group: groups@[i as int], mode: *mode }),
            ));
            assert(groups@.subrange(0, i + 1) =~= groups@.subrange(0, i as int).push(groups@[i as int]));
        }
        i = i + 1;
    }
    proof {
        assert(groups@.subrange(0, i as int) =~= groups@);
    }
    r
}

fn mode_announcements(groups: &Vec<GroupId>, modes: &Vec<RgbMode>) -> (r: Vec<Option<DaemonEvent>>)
    requires
        groups@.len() == modes@.len(),
    ensures
        option_views(r@) == mode_events(groups@, modes@.map_values(|m: RgbMode| m@)),
        r@.len() == groups@.len(),
{
    let ghost ms = modes@.map_values(|m: RgbMode| m@);
    let mut r: Vec<Option<DaemonEvent>> = Vec::new();
    let mut i: usize = 0;
    while i < groups.len()
        invariant
            i <= groups@.len(),
            groups@.len() == modes@.len(),
            ms == modes@.map_values(|m: RgbMode| m@),
            r@.len() == i,
            option_views(r@) =~= mode_events(groups@.subrange(0, i as int), ms.subrange(0, i as int)),
        decreases groups@.len() - i,
    {
        let ghost before = r@;
        let e = Some(DaemonEvent::RgbChanged { group: groups[i], mode: copy_mode(&modes[i]) });
        r.push(e);
        proof {
            assert(r@ =~= before.push(e));
            assert(option_views(r@) =~= option_views(before).push(
                Some(EventView::RgbChanged { group: groups@[i as int], mode: ms[i as int] }),
            ));
            assert(mode_events(groups@.subrange(0, i + 1), ms.subrange(0, i + 1)) =~= mode_events(
                groups@.subrange(0, i as int),
                ms.subrange(0, i as int),
            ).push(Some(EventView::RgbChanged { group: groups@[i as int], mode: ms[i as int] })));
        }
        i = i + 1;
    }
    proof {
        assert(groups@.subrange(0, i as int) =~= groups@);
        assert(ms.subrange(0, i as int) =~= ms);
    }
    r
}

fn silent_announcements(n: usize) -> (r: Vec<Option<DaemonEvent>>)
    ensures
        option_views(r@) == Seq::new(n as nat, |i: int| None::<EventView>),
        r@.len() == n,
{
    let mut r: Vec<Option<DaemonEvent>> = Vec::new();
    let mut i: usize = 0;
    while i < n
        invariant
            i <= n,
            r@.len() == i,
            option_views(r@) =~= Seq::new(i as nat, |k: int| None::<EventView>),
        decreases n - i,
    {
        let ghost before = r@;
        r.push(None);
        proof {
            assert(r@ =~= before.push(None));
            assert(option_views(r@) =~= option_views(before).push(None));
        }
        i = i + 1;
    }
    r
}

/// A copy of an event, saying the same.
fn copy_event(e: &DaemonEvent) -> (r: DaemonEvent)
    ensures
        r@ == e@,
{
    match e {
        DaemonEvent::ProfileSwitched { name } => DaemonEvent::ProfileSwitched { name: name.clone() },
        DaemonEvent::BindDiscovered { index } => DaemonEvent::BindDiscovered { index: *index },
        DaemonEvent::SpeedChanged { group, mode } => DaemonEvent::SpeedChanged { group: *group, mode: copy_speed_mode(mode) },
        DaemonEvent::RgbChanged { group, mode } => DaemonEvent::RgbChanged { group: *group, mode: copy_mode(mode) },
        DaemonEvent::Show(ev) => DaemonEvent::Show(
            match ev {
                ShowEvent::SequenceStep { group, step_index } => ShowEvent::SequenceStep {
                    group: *group,
                    step_index: *step_index,
                },
                ShowEvent::SequenceEnded { name } => ShowEvent::SequenceEnded { name: name.clone() },
            },
        ),
        DaemonEvent::CurveApplied { group, speed, temp } => DaemonEvent::CurveApplied {
            group: *group,
            speed: *speed,
            temp: *temp,
        },
    }
}

fn per_group_reply(groups: &Vec<GroupId>, results: &Vec<Result<(), String>>, announce: &Vec<Option<DaemonEvent>>) -> (r: (
    Response,
    Vec<DaemonEvent>,
))
    requires
        results@.len() == groups@.len(),
        announce@.len() == groups@.len(),
    ensures
        r.0@ == failures_reply(groups@, results@),
        event_views(r.1@) == kept_events(option_views(announce@), results@),
{
    let mut events: Vec<DaemonEvent> = Vec::new();
    let mut msg = String::new();
    let mut failed: usize = 0;
    let mut i: usize = 0;
    while i < groups.len()
        invariant
            i <= groups@.len(),
            results@.len() == groups@.len(),
            announce@.len() == groups@.len(),
            failed == failure_texts(groups@.subrange(0, i as int), results@.subrange(0, i as int)).len(),
            failed <= i,
            msg@ == joined(failure_texts(groups@.subrange(0, i as int), results@.subrange(0, i as int))),
            event_views(events@) == kept_events(
                option_views(announce@).subrange(0, i as int),
                results@.subrange(0, i as int),
            ),
        decreases groups@.len() - i,
    {
        let ghost gs = groups@.subrange(0, i + 1);
        let ghost rs = results@.subrange(0, i + 1);
        let ghost cs = option_views(announce@).subrange(0, i + 1);
        proof {
            assert(gs.drop_last() =~= groups@.subrange(0, i as int));
            assert(rs.drop_last() =~= results@.subrange(0, i as int));
            assert(cs.drop_last() =~= option_views(announce@).subrange(0, i as int));
        }
        let g = groups[i];
        match &results[i] {
            Ok(()) => {
                let ghost before = events@;
                match &announce[i] {
                    Some(e) => {
                        events.push(copy_event(e));
                        proof {
                            assert(event_views(events@) =~= event_views(before).push(e@));
                        }
                    },
                    None => {},
                }
                proof {
                    assert(event_views(events@) =~= kept_events(cs, rs));
                }
            },
            Err(e) => {
                proof {
                    assert(kept_events(cs, rs) =~= kept_events(cs.drop_last(), rs.drop_last()));
                }
                if failed > 0 {
                    msg.append("; ");
                }
                let part = group_failure(g, e);
                msg.append(part.as_str());
                failed = failed + 1;
                proof {
                    let f = failure_texts(gs, rs);
                    assert(f.drop_last() =~= failure_texts(groups@.subrange(0, i as int), results@.subrange(0, i as int)));
                    if f.len() == 1 {
                        assert(msg@ =~= f[0]);
                    } else {
                        assert(msg@ =~= joined(f.drop_last()) + "; "@ + f.last());
                    }
                }
            },
        }
        i = i + 1;
    }
    proof {
        assert(groups@.subrange(0, i as int) =~= groups@);
        assert(results@.subrange(0, i as int) =~= results@);
        assert(option_views(announce@).subrange(0, i as int) =~= option_views(announce@));
    }
    if failed == 0 {
        (Response::Done, events)
    } else {
        (Response::Error(msg), events)
    }
}

/// Turns the hardware's results into the reply of a pending request: the
/// state, reply and events are those of `complete_spec`, and the `bool`
/// says whether the configuration must be written.
pub fn complete_request(state: &mut DaemonState, pending: Pending, results: Vec<Result<(), String>>, now_ms: u64) -> (r: (
    Response,
    Vec<DaemonEvent>,
    bool,
))
    requires
        old(state).wf(),
        results_fit(pending@, results@.len()),
        now_ms + INDICATE_MAX_SECS * 1000 <= u64::MAX,
    ensures
        final(state).wf(),
        final(state)@ == complete_spec(old(state)@, pending@, results@, now_ms).0,
        r.0@ == complete_spec(old(state)@, pending@, results@, now_ms).1,
        event_views(r.1@) == complete_spec(old(state)@, pending@, results@, now_ms).2,
        r.2 == complete_spec(old(state)@, pending@, results@, now_ms).3,
{
    match pending {
        Pending::Nothing => (Response::Done, Vec::new(), false),
        Pending::MergeOrder { order } => match &results[0] {
            Ok(()) => {
                state.merge_order = Some(order);
                (Response::Done, Vec::new(), true)
            },
            Err(e) => {
                let mut m = "set merge order: ".to_owned();
                m.append(e.as_str());
                (Response::Error(m), Vec::new(), false)
            },
        },
        Pending::StopFans { groups } => {
            let ann = speed_announcements(&groups, &SpeedMode::Manual(0));
            let (resp, events) = per_group_reply(&groups, &results, &ann);
            (resp, events, false)
        },
        Pending::Colors { groups, modes } => {
            let ann = mode_announcements(&groups, &modes);
            let (resp, events) = per_group_reply(&groups, &results, &ann);
            (resp, events, false)
        },
        Pending::Rgb { group, mode } => match &results[0] {
            Ok(()) => {
                let mut events: Vec<DaemonEvent> = Vec::new();
                events.push(DaemonEvent::RgbChanged { group, mode });
                proof {
                    assert(event_views(events@) =~= seq![events@[0]@]);
                }
                (Response::Done, events, false)
            },
            Err(e) => (Response::Error(e.clone()), Vec::new(), false),
        },
        Pending::Indicate { group, duration_secs, previous } => match &results[0] {
            Ok(()) => {
                schedule_restore(&mut state.restores, now_ms, group, duration_secs, previous);
                (Response::Done, Vec::new(), false)
            },
            Err(e) => (Response::Error(e.clone()), Vec::new(), false),
        },
        Pending::Reset { groups } => {
            let ann = silent_announcements(groups.len());
            let (resp, events) = per_group_reply(&groups, &results, &ann);
            (resp, events, false)
        },
        Pending::MbSync => (checked("MB sync failed: ", &results[0]), Vec::new(), false),
        Pending::Lock => (checked("Lock failed: ", &results[0]), Vec::new(), false),
        Pending::Unlock => (checked("Unlock failed: ", &results[0]), Vec::new(), false),
        Pending::Speeds { groups, mode } => {
            let ann = speed_announcements(&groups, &mode);
            let (resp, events) = per_group_reply(&groups, &results, &ann);
            (resp, events, false)
        },
        Pending::Discovery => match &results[0] {
            Ok(()) => (Response::Report(Report::DeviceStatus), Vec::new(), false),
            Err(e) => (Response::Error(e.clone()), Vec::new(), false),
        },
        Pending::MoboSpeed => (checked("mobo speed: ", &results[0]), Vec::new(), false),
        Pending::MoboAuto => (checked("mobo auto: ", &results[0]), Vec::new(), false),
        Pending::Pump => (checked("set pump mode: ", &results[0]), Vec::new(), false),
        Pending::Preview => match &results[0] {
            Ok(()) => (Response::Report(Report::TemplatePreview), Vec::new(), false),
            Err(_) => (checked("preview render failed: ", &results[0]), Vec::new(), false),
        },
        Pending::Single => match &results[0] {
            Ok(()) => (Response::Done, Vec::new(), false),
            Err(e) => (Response::Error(e.clone()), Vec::new(), false),
        },
    }
}

// ---------------------------------------------------------------------------
// Laws
// ---------------------------------------------------------------------------

/// Deleting a key removes every item under it and keeps every other item,
/// in order.
pub proof fn law_delete_removes_key(s: Seq<SavedItem>, key: Seq<char>)
    ensures
        forall|i: int| 0 <= i < drop_key(s, key).len() ==> #[trigger] drop_key(s, key)[i].key@ != key,
        forall|i: int| 0 <= i < s.len() && s[i].key@ != key ==> drop_key(s, key).contains(#[trigger] s[i]),
        drop_key(s, key).len() <= s.len(),
        (forall|i: int| 0 <= i < s.len() ==> #[trigger] s[i].key@ != key) ==> drop_key(s, key) == s,
    decreases s.len(),
{
    if s.len() > 0 {
        law_delete_removes_key(s.drop_last(), key);
        let r = drop_key(s, key);
        let rest = drop_key(s.drop_last(), key);
        assert forall|i: int| 0 <= i < r.len() implies #[trigger] r[i].key@ != key by {
            if s.last().key@ == key {
                assert(r == rest);
                assert(rest[i].key@ != key);
            } else {
                assert(r == rest.push(s.last()));
                if i < rest.len() {
                    assert(r[i] == rest[i]);
                    assert(rest[i].key@ != key);
                } else {
                    assert(r[i] == s.last());
                }
            }
        }
        assert forall|i: int| 0 <= i < s.len() && s[i].key@ != key implies r.contains(#[trigger] s[i]) by {
            if i < s.len() - 1 {
                assert(s.drop_last()[i] == s[i]);
                let k = choose|k: int| 0 <= k < rest.len() && rest[k] == s[i];
                assert(r[k] == s[i]);
            } else {
                assert(r[r.len() - 1] == s[i]);
            }
        }
        if forall|i: int| 0 <= i < s.len() ==> #[trigger] s[i].key@ != key {
            assert forall|i: int| 0 <= i < s.drop_last().len() implies #[trigger] s.drop_last()[i].key@ != key by {
                assert(s.drop_last()[i] == s[i]);
            }
            assert(s.last().key@ != key);
            assert(r =~= s);
        }
    }
}

/// Saving an effect or an LED preset leaves exactly one item under its key:
/// the saved one, last.
pub proof fn law_append_save_single(s: Seq<SavedItem>, item: SavedItem)
    ensures
        remove_then_push(s, item).last() == item,
        forall|i: int|
            0 <= i < remove_then_push(s, item).len() - 1 ==> #[trigger] remove_then_push(s, item)[i].key@
                != item.key@,
{
    law_delete_removes_key(s, item.key@);
    let r = remove_then_push(s, item);
    assert forall|i: int| 0 <= i < r.len() - 1 implies #[trigger] r[i].key@ != item.key@ by {
        assert(r[i] == drop_key(s, item.key@)[i]);
    }
}

/// Saving a curve, a sequence or an LCD template puts the item in the place
/// of the first item under its key, or adds it at the end when there is
/// none; every other item stays where it was.
pub proof fn law_replace_save_in_place(s: Seq<SavedItem>, item: SavedItem)
    ensures
        match first_key(s, item.key@) {
            Some(i) => replace_or_push(s, item).len() == s.len() && replace_or_push(s, item)[i] == item
                && forall|j: int| 0 <= j < s.len() && j != i ==> #[trigger] replace_or_push(s, item)[j] == s[j],
            None => replace_or_push(s, item) == s.push(item) && forall|j: int|
                0 <= j < s.len() ==> #[trigger] s[j].key@ != item.key@,
        },
{
    match first_key(s, item.key@) {
        Some(i) => {
            let w = choose|k: int|
                0 <= k < s.len() && s[k].key@ == item.key@ && forall|j: int| 0 <= j < k ==> s[j].key@ != item.key@;
            assert(0 <= i < s.len());
        },
        None => {
            assert forall|j: int| 0 <= j < s.len() implies #[trigger] s[j].key@ != item.key@ by {
                if s[j].key@ == item.key@ {
                    lemma_first_key_exists(s, item.key@, j);
                }
            }
        },
    }
}

proof fn lemma_first_key_exists(s: Seq<SavedItem>, key: Seq<char>, j: int)
    requires
        0 <= j < s.len(),
        s[j].key@ == key,
    ensures
        first_key(s, key) is Some,
    decreases j,
{
    if exists|k: int| 0 <= k < j && s[k].key@ == key {
        let k = choose|k: int| 0 <= k < j && s[k].key@ == key;
        lemma_first_key_exists(s, key, k);
    } else {
        assert(0 <= j < s.len() && s[j].key@ == key && forall|m: int| 0 <= m < j ==> s[m].key@ != key);
    }
}

/// What was saved is listed: after saving an LED preset, listing the LED
/// presets gives every earlier preset under another key, then the saved one.
pub proof fn law_saved_preset_listed(v: DaemonView, preset: SavedItem, sys: SystemView)
    ensures
        ({
            let saved = handle_spec(v, Request::SaveLedPreset { preset: preset }, sys);
            let listed = handle_spec(saved.0, Request::ListLedPresets, sys);
            &&& saved.1.response == ResponseView::Done
            &&& listed.1.response == ResponseView::Items(drop_key(v.led_presets, preset.key@).push(preset))
            &&& listed.0 == saved.0
        }),
{
    reveal(lighting_spec);
}

/// What was deleted is gone: deleting a saved LED preset succeeds, asks for
/// the configuration to be written, and leaves no preset under its name; a
/// second delete of the same name is refused and changes nothing.
pub proof fn law_deleted_preset_gone(v: DaemonView, preset: SavedItem, name: String, sys: SystemView)
    requires
        name@ == preset.key@,
    ensures
        ({
            let saved = handle_spec(v, Request::SaveLedPreset { preset: preset }, sys);
            let deleted = handle_spec(saved.0, Request::DeleteLedPreset { name: name }, sys);
            let again = handle_spec(deleted.0, Request::DeleteLedPreset { name: name }, sys);
            &&& deleted.1.response == ResponseView::Done
            &&& deleted.1.flush
            &&& forall|i: int| 0 <= i < deleted.0.led_presets.len() ==> #[trigger] deleted.0.led_presets[i].key@ != name@
            &&& again.1.response == ResponseView::Error(missing_text("LED preset"@, name@))
            &&& again.0 == deleted.0
        }),
{
    reveal(lighting_spec);
    let k = name@;
    let s0 = v.led_presets;
    let d0 = drop_key(s0, k);
    let s1 = d0.push(preset);
    law_delete_removes_key(s0, k);
    assert(s1.drop_last() =~= d0);
    assert(s1.last().key@ == k);
    let kept = drop_key(s1, k);
    assert(kept == drop_key(d0, k));
    law_delete_removes_key(d0, k);
    assert(drop_key(d0, k) == d0);
    assert(kept.len() < s1.len());
    law_delete_removes_key(kept, k);
    assert(drop_key(kept, k) == kept);
    let saved = handle_spec(v, Request::SaveLedPreset { preset: preset }, sys);
    assert(saved.0.led_presets == s1);
    let deleted = handle_spec(saved.0, Request::DeleteLedPreset { name: name }, sys);
    assert(deleted.0.led_presets == kept);
    assert(deleted.1.response == ResponseView::Done);
    let again = handle_spec(deleted.0, Request::DeleteLedPreset { name: name }, sys);
    assert(again.0 =~= deleted.0);
}

/// Entering bind mode and leaving it again ends with scanning off, whatever
/// came before; entering again turns it back on.
pub proof fn law_bind_mode_cycle(v: DaemonView, sys: SystemView)
    ensures
        ({
            let entered = handle_spec(v, Request::EnterBindMode, sys);
            let left = handle_spec(entered.0, Request::ExitBindMode, sys);
            let again = handle_spec(left.0, Request::EnterBindMode, sys);
            &&& entered.0.bind_scanning
            &&& !left.0.bind_scanning
            &&& again.0.bind_scanning
            &&& again.1.events == bind_events(sys.unbound as nat)
        }),
{
    reveal(session_spec);
}

} // verus!
