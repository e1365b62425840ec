//! Data carried by the API: requests, responses and device readings.

use vstd::prelude::*;
use crate::loader::same_chars;
use crate::text::chars_of;

verus! {

/// Serving cell summary.
#[derive(Debug, Default, Clone)]
pub struct ServingCell {
    /// Radio technology: nr, lte or unknown.
    pub tech: String,
    pub cell_id: u32,
    pub tac: u32,
}

/// One cell as reported by the modem; signal values are raw (x100).
#[derive(Debug, Default, Clone)]
pub struct CellInfo {
    pub is_serving: bool,
    pub tech: String,
    pub band: String,
    pub arfcn: String,
    pub pci: String,
    pub rsrp: String,
    pub rsrq: String,
    pub sinr: String,
}

/// The texts a `CellInfo` holds.
pub struct CellView {
    pub is_serving: bool,
    pub tech: Seq<char>,
    pub band: Seq<char>,
    pub arfcn: Seq<char>,
    pub pci: Seq<char>,
    pub rsrp: Seq<char>,
    pub rsrq: Seq<char>,
    pub sinr: Seq<char>,
}

impl View for CellInfo {
    type V = CellView;

    open spec fn view(&self) -> CellView {
        CellView {
            is_serving: self.is_serving,
            tech: self.tech@,
            band: self.band@,
            arfcn: self.arfcn@,
            pci: self.pci@,
            rsrp: self.rsrp@,
            rsrq: self.rsrq@,
            sinr: self.sinr@,
        }
    }
}

/// Serving cell and the full cell list.
#[derive(Debug, Default)]
pub struct CellsResponse {
    pub serving_cell: ServingCell,
    pub cells: Vec<CellInfo>,
}

/// A raw AT command to send.
#[derive(Debug, Clone, Default)]
pub struct AtCommandRequest {
    pub cmd: String,
}

/// Modem identity and power state.
#[derive(Debug, Clone, Default)]
pub struct DeviceInfoResponse {
    pub imei: String,
    pub manufacturer: String,
    pub model: String,
    pub revision: Option<String>,
    pub online: bool,
    pub powered: bool,
}

/// Turn the data connection on or off.
#[derive(Debug, Clone, Default)]
pub struct DataConnectionRequest {
    pub active: bool,
}

/// Whether the data connection is on.
#[derive(Debug, Clone, Default)]
pub struct DataConnectionResponse {
    pub active: bool,
}

/// Allow or forbid roaming.
#[derive(Debug, Clone, Default)]
pub struct RoamingRequest {
    pub allowed: bool,
}

/// Roaming permission and state.
#[derive(Debug, Clone, Default)]
pub struct RoamingResponse {
    pub roaming_allowed: bool,
    pub is_roaming: bool,
}

/// Turn airplane mode on or off.
#[derive(Debug, Clone, Default)]
pub struct AirplaneModeRequest {
    pub enabled: bool,
}

/// Airplane mode with the modem power and online state.
#[derive(Debug, Clone, Default)]
pub struct AirplaneModeResponse {
    pub enabled: bool,
    pub powered: bool,
    pub online: bool,
}

/// SIM card details.
#[derive(Debug, Clone, Default)]
pub struct SimInfoResponse {
    pub present: bool,
    pub iccid: String,
    pub imsi: String,
    pub phone_numbers: Vec<String>,
    pub sms_center: String,
    pub mcc: String,
    pub mnc: String,
    pub pin_required: String,
    pub preferred_languages: Vec<String>,
}

/// The active SIM slot and the raw reading it came from.
#[derive(Debug, Clone, Default)]
pub struct SimSlotResponse {
    pub active_slot: u8,
    pub raw_value: String,
}

/// Switch to a SIM slot.
#[derive(Debug, Clone, Default)]
pub struct SwitchSimSlotRequest {
    pub slot: u8,
}

/// Registration, operator and signal.
#[derive(Debug, Clone, Default)]
pub struct NetworkInfoResponse {
    pub operator_name: String,
    pub registration_status: String,
    pub technology_preference: String,
    pub signal_strength: u8,
    pub mcc: Option<String>,
    pub mnc: Option<String>,
}

/// QoS class and negotiated speeds (kbps).
#[derive(Debug, Clone, Default)]
pub struct QosInfoResponse {
    pub qci: u8,
    pub dl_speed: u32,
    pub ul_speed: u32,
    pub raw_response: Option<String>,
}

/// Set the USB mode, permanently or for the next boot.
#[derive(Debug, Clone, Default)]
pub struct SetUsbModeRequest {
    pub mode: u8,
    pub permanent: bool,
}

/// Current and configured USB modes.
#[derive(Debug, Clone, Default)]
pub struct UsbModeResponse {
    pub current_mode: Option<u8>,
    pub current_mode_name: String,
    pub permanent_mode: Option<u8>,
    pub temporary_mode: Option<u8>,
    pub needs_reboot: bool,
    pub read_mode: String,
}

/// Reboot after a delay.
#[derive(Debug, Clone, Default)]
pub struct SystemRebootRequest {
    pub delay_seconds: u32,
}

/// Traffic rates and totals of one interface.
#[derive(Debug, Clone, Default)]
pub struct NetworkSpeed {
    pub interface: String,
    pub rx_bytes_per_sec: u64,
    pub tx_bytes_per_sec: u64,
    pub total_rx_bytes: u64,
    pub total_tx_bytes: u64,
}

/// Uptime with its display form.
#[derive(Debug, Clone, Default)]
pub struct UptimeInfo {
    pub uptime_seconds: u64,
    pub idle_seconds: u64,
    pub uptime_formatted: String,
}

/// Kernel identification (uname).
#[derive(Debug, Clone, Default)]
pub struct SystemInfo {
    pub sysname: String,
    pub nodename: String,
    pub release: String,
    pub version: String,
    pub machine: String,
    pub domainname: String,
    pub full_info: String,
}

/// One processor of /proc/cpuinfo.
#[derive(Debug, Clone, Default)]
pub struct CpuCore {
    pub processor: u32,
    pub bogomips: String,
    pub features: Vec<String>,
    pub implementer: String,
    pub architecture: String,
    pub variant: String,
    pub part: String,
    pub revision: String,
}

/// Processors and board identification.
#[derive(Debug, Clone, Default)]
pub struct CpuInfo {
    pub core_count: u32,
    pub cores: Vec<CpuCore>,
    pub hardware: String,
    pub serial: String,
    pub model_name: String,
}

/// One interface address.
#[derive(Debug, Clone, Default)]
pub struct IpAddress {
    pub address: String,
    pub prefix_len: u8,
    pub ip_type: String,
    pub scope: String,
}

/// One network interface with addresses and counters.
#[derive(Debug, Clone, Default)]
pub struct NetworkInterfaceInfo {
    pub name: String,
    pub status: String,
    pub mac_address: Option<String>,
    pub mtu: u32,
    pub ip_addresses: Vec<IpAddress>,
    pub rx_bytes: u64,
    pub tx_bytes: u64,
    pub rx_packets: u64,
    pub tx_packets: u64,
    pub rx_errors: u64,
    pub tx_errors: u64,
}

/// All network interfaces.
#[derive(Debug, Clone, Default)]
pub struct NetworkInterfacesResponse {
    pub interfaces: Vec<NetworkInterfaceInfo>,
    pub total_count: usize,
}

/// Radio mode and the modem technology preference.
#[derive(Debug, Clone, Default)]
pub struct RadioModeResponse {
    pub mode: String,
    pub technology_preference: String,
}

/// Clear every cell lock.
#[derive(Debug, Clone, Default)]
pub struct CellUnlockRequest {}

/// Dial a number.
#[derive(Debug, Clone, Default)]
pub struct MakeCallRequest {
    pub phone_number: String,
}

/// A voice call.
#[derive(Debug, Clone, Default)]
pub struct CallInfo {
    pub path: String,
    pub phone_number: String,
    pub state: String,
    pub direction: String,
    pub start_time: Option<String>,
}

/// Current voice calls.
#[derive(Debug, Clone, Default)]
pub struct CallListResponse {
    pub calls: Vec<CallInfo>,
}

/// Hang up a call.
#[derive(Debug, Clone, Default)]
pub struct HangupCallRequest {
    pub path: String,
}

/// Network time.
#[derive(Debug, Clone, Default)]
pub struct NitzTimeResponse {
    pub time_string: String,
    pub available: bool,
}

/// IMS registration and capabilities.
#[derive(Debug, Clone, Default)]
pub struct ImsStatusResponse {
    pub registered: bool,
    pub voice_capable: bool,
    pub sms_capable: bool,
}

/// Call audio levels.
#[derive(Debug, Clone, Default)]
pub struct CallVolumeResponse {
    pub speaker_volume: u8,
    pub microphone_volume: u8,
    pub muted: bool,
}

/// Change call audio levels.
#[derive(Debug, Clone, Default)]
pub struct SetCallVolumeRequest {
    pub speaker_volume: Option<u8>,
    pub microphone_volume: Option<u8>,
    pub muted: Option<bool>,
}

/// Voicemail state.
#[derive(Debug, Clone, Default)]
pub struct VoicemailStatusResponse {
    pub waiting: bool,
    pub message_count: u8,
    pub mailbox_number: String,
}

/// A network operator found by a scan.
#[derive(Debug, Clone, Default)]
pub struct OperatorInfo {
    pub path: String,
    pub name: String,
    pub status: String,
    pub mcc: String,
    pub mnc: String,
    pub technologies: Vec<String>,
}

/// Network operators.
#[derive(Debug, Clone, Default)]
pub struct OperatorListResponse {
    pub operators: Vec<OperatorInfo>,
}

/// Register on an operator by MCC and MNC.
#[derive(Debug, Clone, Default)]
pub struct ManualRegisterRequest {
    pub mccmnc: String,
}

/// IMEI software version.
#[derive(Debug, Clone, Default)]
pub struct ImeisvResponse {
    pub software_version_number: String,
}

/// Signal strength.
#[derive(Debug, Clone, Default)]
pub struct SignalStrengthResponse {
    pub strength: i32,
}

/// Call forwarding targets.
#[derive(Debug, Clone, Default)]
pub struct CallForwardingResponse {
    pub voice_unconditional: String,
    pub voice_busy: String,
    pub voice_no_reply: String,
    pub voice_no_reply_timeout: u16,
    pub voice_not_reachable: String,
    pub forwarding_flag_on_sim: bool,
}

/// Set a call forwarding target.
#[derive(Debug, Clone, Default)]
pub struct SetCallForwardingRequest {
    pub forward_type: String,
    pub number: String,
    pub timeout: Option<u16>,
}

/// Caller id and call waiting settings.
#[derive(Debug, Clone, Default)]
pub struct CallSettingsResponse {
    pub calling_line_presentation: String,
    pub calling_name_presentation: String,
    pub connected_line_presentation: String,
    pub connected_line_restriction: String,
    pub called_line_presentation: String,
    pub calling_line_restriction: String,
    pub hide_caller_id: String,
    pub voice_call_waiting: String,
}

/// Change a call setting.
#[derive(Debug, Clone, Default)]
pub struct SetCallSettingRequest {
    pub property: String,
    pub value: String,
}

/// Send an SMS.
#[derive(Debug, Clone, Default)]
pub struct SendSmsRequest {
    pub phone_number: String,
    pub content: String,
}

/// A page of SMS.
#[derive(Debug, Clone, Default)]
pub struct SmsListRequest {
    pub limit: i64,
    pub offset: i64,
}

/// The SMS exchanged with one number.
#[derive(Debug, Clone, Default)]
pub struct SmsConversationRequest {
    pub phone_number: String,
    pub limit: i64,
}

/// A packet data context.
#[derive(Debug, Clone, Default)]
pub struct ApnContext {
    pub path: String,
    pub name: String,
    pub active: bool,
    pub apn: String,
    pub protocol: String,
    pub username: String,
    pub password: String,
    pub auth_method: String,
    pub context_type: String,
}

/// Packet data contexts.
#[derive(Debug, Clone, Default)]
pub struct ApnListResponse {
    pub contexts: Vec<ApnContext>,
}

/// Change a packet data context.
#[derive(Debug, Clone, Default)]
pub struct SetApnRequest {
    pub context_path: String,
    pub apn: Option<String>,
    pub protocol: Option<String>,
    pub username: Option<String>,
    pub password: Option<String>,
    pub auth_method: Option<String>,
}

/// A page of call history.
#[derive(Debug, Clone, Default)]
pub struct CallHistoryRequest {
    pub limit: i64,
    pub offset: i64,
}

/// Delete a call history entry.
#[derive(Debug, Clone, Default)]
pub struct DeleteCallRequest {
    pub id: i64,
}

/// Outcome of a webhook test.
#[derive(Debug, Clone, Default)]
pub struct WebhookTestResponse {
    pub success: bool,
    pub message: String,
}

/// The envelope of every API answer: `ok` with data, or `error` without.
pub struct ApiResponse<T> {
    pub status: String,
    pub message: String,
    pub data: Option<T>,
}

impl<T> ApiResponse<T> {
    /// A successful answer carrying `data`.
    pub fn success_with_message(message: String, data: T) -> (r: Self)
        ensures
            r.status@ == "ok"@,
            r.message@ == message@,
            r.data == Some(data),
    {
        ApiResponse { status: "ok".to_owned(), message, data: Some(data) }
    }

    /// A failed answer without data.
    pub fn error(message: String) -> (r: Self)
        ensures
            r.status@ == "error"@,
            r.message@ == message@,
            r.data is None,
    {
        ApiResponse { status: "error".to_owned(), message, data: None }
    }
}

/// Radio technology selection.
#[derive(PartialEq, Eq, Structural, Clone, Copy, Debug)]
pub enum RadioMode {
    /// 4G/5G automatic.
    Auto,
    /// 4G LTE only.
    LteOnly,
    /// 5G NR only.
    NrOnly,
}

/// The modem's technology preference text of a radio mode.
pub open spec fn ofono_value(m: RadioMode) -> Seq<char> {
    match m {
        RadioMode::Auto => "NR 5G/LTE auto"@,
        RadioMode::LteOnly => "LTE only"@,
        RadioMode::NrOnly => "NR 5G only"@,
    }
}

/// The radio mode of a technology preference text, if it names one; the
/// automatic preferences with GSM/WCDMA count as automatic.
pub open spec fn mode_of_ofono(v: Seq<char>) -> Option<RadioMode> {
    if v == "NR 5G/LTE auto"@ || v == "LTE/GSM/WCDMA auto"@ || v == "NR 5G/LTE/GSM/WCDMA auto"@ {
        Some(RadioMode::Auto)
    } else if v == "LTE only"@ {
        Some(RadioMode::LteOnly)
    } else if v == "NR 5G only"@ {
        Some(RadioMode::NrOnly)
    } else {
        None
    }
}

fn text_is(v: &Vec<char>, lit: &str) -> (r: bool)
    ensures
        r == (v@ == lit@),
{
    let l = chars_of(lit);
    same_chars(v.as_slice(), l.as_slice())
}

impl RadioMode {
    /// The technology preference to set for this mode.
    pub fn to_ofono_value(&self) -> (r: &'static str)
        ensures
            r@ == ofono_value(*self),
    {
        match self {
            RadioMode::Auto => "NR 5G/LTE auto",
            RadioMode::LteOnly => "LTE only",
            RadioMode::NrOnly => "NR 5G only",
        }
    }

    /// The mode of a technology preference read from the modem.
    pub fn from_ofono_value(value: &str) -> (r: Option<RadioMode>)
        ensures
            r == mode_of_ofono(value@),
    {
        let v = chars_of(value);
        if text_is(&v, "NR 5G/LTE auto") || text_is(&v, "LTE/GSM/WCDMA auto") || text_is(
            &v,
            "NR 5G/LTE/GSM/WCDMA auto",
        ) {
            Some(RadioMode::Auto)
        } else if text_is(&v, "LTE only") {
            Some(RadioMode::LteOnly)
        } else if text_is(&v, "NR 5G only") {
            Some(RadioMode::NrOnly)
        } else {
            None
        }
    }
}

/// A radio mode change.
pub struct RadioModeRequest {
    pub mode: RadioMode,
}

/// USB network function of the gadget.
#[derive(PartialEq, Eq, Structural, Clone, Copy, Debug)]
pub enum UsbMode {
    /// CDC-NCM (mode 1).
    CdcNcm,
    /// CDC-ECM (mode 2).
    CdcEcm,
    /// RNDIS (mode 3).
    Rndis,
}

impl UsbMode {
    /// The mode number: 1 NCM, 2 ECM, 3 RNDIS.
    pub fn value(&self) -> (r: u8)
        ensures
            r == match *self {
                UsbMode::CdcNcm => 1u8,
                UsbMode::CdcEcm => 2u8,
                UsbMode::Rndis => 3u8,
            },
    {
        match self {
            UsbMode::CdcNcm => 1,
            UsbMode::CdcEcm => 2,
            UsbMode::Rndis => 3,
        }
    }
}

/// Default cell lock type of a request: NR.
pub fn default_nr_rat() -> (r: u8)
    ensures
        r == 16,
{
    16
}

/// Default SMS page size.
pub fn default_page_size() -> (r: i64)
    ensures
        r == 50,
{
    50
}

/// Default call history page size.
pub fn default_limit() -> (r: i64)
    ensures
        r == 50,
{
    50
}

} // verus!
