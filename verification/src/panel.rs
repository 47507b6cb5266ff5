//! The application state that the memory panel works on.
use vstd::prelude::*;
use std::collections::{HashMap, HashSet};
use crate::scan::{MemoryScanAction, ScanValue, ScanValueType};
use crate::saved::{FreezeTarget, HotkeyBinding, PendingWriteCheck, SavedMemoryAddress, ScanCandidate, TextEncoding, TextScanCandidate};
use crate::library::{MemoryCodeEntry, MemoryPointerEntry};
use crate::code_access::{CodeAccessDialog, InstructionWatchDialog};

verus! {

/// The inputs and options of the next scan, as the scan controls hold them.
pub struct ScanSettings {
    /// Whether the value text is an array-of-bytes pattern.
    pub is_aob_scan: bool,
    pub text_case_sensitive: bool,
    pub text_null_terminated: bool,
    pub value_input: String,
    pub between_min_input: String,
    pub between_max_input: String,
    pub result_limit_input: String,
    pub scan_writable: bool,
    pub scan_executable: bool,
    pub scan_copy_on_write: bool,
    pub scan_active_memory_only: bool,
    pub scan_mem_private: bool,
    pub scan_mem_image: bool,
    pub scan_mem_mapped: bool,
    pub fast_scan: bool,
    pub fast_scan_alignment: String,
    pub pause_while_scanning: bool,
}

/// The state of the memory panel that its logic reads and changes.
pub struct MemoryPanelState {
    pub process_pid: Option<u32>,
    pub value_type: ScanValueType,
    pub text_encoding: Option<TextEncoding>,
    pub hex: bool,
    /// The inputs and options of the next scan.
    pub scan_settings: ScanSettings,
    pub candidates: Vec<ScanCandidate>,
    pub live_candidate_values: HashMap<usize, ScanValue>,
    pub text_candidates: Vec<TextScanCandidate>,
    pub selected_results: HashSet<usize>,
    pub marked_result_addresses: HashSet<usize>,
    pub selection_anchor: Option<usize>,
    pub saved: Vec<SavedMemoryAddress>,
    pub selected_saved: HashSet<usize>,
    pub saved_selection_anchor: Option<usize>,
    /// Whether the saved list, rather than the result list, was clicked last.
    pub saved_list_active: bool,
    pub saved_address_sort: u8,
    pub manual_address: String,
    pub status: String,
    pub last_action: String,
    /// Whether a scan job has been started and its outcome not yet received.
    pub job_pending: bool,
    pub scanning: bool,
    /// How many candidates the running follow-up scan started from.
    pub scan_input_count: usize,
    pub has_scan_session: bool,
    /// The result rows drawn in each result table during the last frame.
    pub visible_scan_ranges: [Option<(usize, usize)>; 2],
    pub pending_write_checks: Vec<PendingWriteCheck>,
    pub hotkeys: Vec<(MemoryScanAction, HotkeyBinding)>,
    pub capturing_hotkey: Option<MemoryScanAction>,
    pub edit_value_index: Option<usize>,
    pub edit_value_input: String,
    /// Whether the value editor is open at a screen position.
    pub edit_value_open: bool,
    pub code_list_open: bool,
    /// The process and targets handed to the freeze worker.
    pub freeze_pid: Option<u32>,
    pub freeze_targets: Vec<FreezeTarget>,
    /// Whether the freeze worker has been asked to run.
    pub freeze_worker_started: bool,
    /// The code-list entry being renamed, and the name typed for it.
    pub edit_code_name_index: Option<usize>,
    pub edit_code_name_input: String,
    /// The open debugger dialogs: the addresses one instruction accesses, and the
    /// instructions that access one address.
    pub code_access_dialog: Option<CodeAccessDialog>,
    pub instruction_watch_dialog: Option<InstructionWatchDialog>,
}


/// The persisted settings and lists of the application that the panel reads and updates.
pub struct AppState {
    pub memory_pointer_scan_offset: String,
    pub memory_pointer_scan_depth: usize,
    pub memory_pointer_scan_result_limit: usize,
    pub memory_pointer_scan_memory_mb: usize,
    pub memory_scan_hotkeys: Vec<(String, HotkeyBinding)>,
    pub memory_pointer_list: Vec<MemoryPointerEntry>,
    pub memory_code_list: Vec<MemoryCodeEntry>,
    /// The X, Y and Z expressions last used for the camera-matrix search.
    pub memory_camera_x: String,
    pub memory_camera_y: String,
    pub memory_camera_z: String,
    pub memory_camera_viewport_width: String,
    pub memory_camera_viewport_height: String,
}

/// The application: the memory panel and the persisted state beside it.
pub struct CrosshairApp {
    pub memory_panel: MemoryPanelState,
    pub state: AppState,
    /// The keys of the hotkey combination being captured.
    pub capture_hotkey_combo_keys: Option<String>,
    /// The virtual-key codes of the hotkey combination being captured.
    pub capture_hotkey_combo_vks: Vec<u32>,
}

/// Whether `p` is the panel as first opened: no process, no scan, no saved rows, no
/// hotkeys, and the status `Ready`.
pub open spec fn fresh_panel(p: MemoryPanelState) -> bool {
    fresh_apart_from_hotkeys(p) && p.hotkeys@.len() == 0
}

/// Whether `s` holds the scan settings of a new panel: value `0`, range `0` to `100`, no
/// result limit, writable private memory, fast scan aligned to 4.
pub open spec fn fresh_scan_settings(s: ScanSettings) -> bool {
    &&& !s.is_aob_scan
    &&& s.text_case_sensitive
    &&& !s.text_null_terminated
    &&& s.value_input@ == "0"@
    &&& s.between_min_input@ == "0"@
    &&& s.between_max_input@ == "100"@
    &&& s.result_limit_input@ == "Unlimited"@
    &&& s.scan_writable
    &&& !s.scan_executable
    &&& !s.scan_copy_on_write
    &&& s.scan_active_memory_only
    &&& s.scan_mem_private
    &&& !s.scan_mem_image
    &&& !s.scan_mem_mapped
    &&& s.fast_scan
    &&& s.fast_scan_alignment@ == "4"@
    &&& !s.pause_while_scanning
}

impl Default for ScanSettings {
    fn default() -> (s: Self)
        ensures
            fresh_scan_settings(s),
    {
        ScanSettings {
            is_aob_scan: false,
            text_case_sensitive: true,
            text_null_terminated: false,
            value_input: crate::text::owned("0"),
            between_min_input: crate::text::owned("0"),
            between_max_input: crate::text::owned("100"),
            result_limit_input: crate::text::owned("Unlimited"),
            scan_writable: true,
            scan_executable: false,
            scan_copy_on_write: false,
            scan_active_memory_only: true,
            scan_mem_private: true,
            scan_mem_image: false,
            scan_mem_mapped: false,
            fast_scan: true,
            fast_scan_alignment: crate::text::owned("4"),
            pause_while_scanning: false,
        }
    }
}

/// Whether `p` is the panel as first opened, whatever its hotkeys.
pub open spec fn fresh_apart_from_hotkeys(p: MemoryPanelState) -> bool {
    &&& p.process_pid is None
    &&& p.value_type == ScanValueType::I32
    &&& p.text_encoding is None
    &&& !p.hex
    &&& fresh_scan_settings(p.scan_settings)
    &&& p.candidates@.len() == 0
    &&& p.live_candidate_values@ == Map::<usize, ScanValue>::empty()
    &&& p.text_candidates@.len() == 0
    &&& p.selected_results@ == Set::<usize>::empty()
    &&& p.marked_result_addresses@ == Set::<usize>::empty()
    &&& p.selection_anchor is None
    &&& p.saved@.len() == 0
    &&& p.selected_saved@ == Set::<usize>::empty()
    &&& p.saved_selection_anchor is None
    &&& !p.saved_list_active
    &&& p.saved_address_sort == 0
    &&& p.manual_address@ == Seq::<char>::empty()
    &&& p.status@ == "Ready"@
    &&& p.last_action@ == "Ready"@
    &&& !p.job_pending
    &&& !p.scanning
    &&& p.scan_input_count == 0
    &&& !p.has_scan_session
    &&& p.visible_scan_ranges@ == seq![None::<(usize, usize)>, None]
    &&& p.pending_write_checks@.len() == 0
    &&& p.capturing_hotkey is None
    &&& p.edit_value_index is None
    &&& p.edit_value_input@ == Seq::<char>::empty()
    &&& !p.edit_value_open
    &&& !p.code_list_open
    &&& p.freeze_pid is None
    &&& p.freeze_targets@.len() == 0
    &&& !p.freeze_worker_started
    &&& p.edit_code_name_index is None
    &&& p.edit_code_name_input@ == Seq::<char>::empty()
    &&& p.code_access_dialog is None
    &&& p.instruction_watch_dialog is None
}

impl Default for MemoryPanelState {
    fn default() -> (p: Self)
        ensures
            fresh_panel(p),
    {
        let p = MemoryPanelState {
            process_pid: None,
            value_type: ScanValueType::I32,
            text_encoding: None,
            hex: false,
            scan_settings: ScanSettings::default(),
            candidates: Vec::new(),
            live_candidate_values: HashMap::new(),
            text_candidates: Vec::new(),
            selected_results: HashSet::new(),
            marked_result_addresses: HashSet::new(),
            selection_anchor: None,
            saved: Vec::new(),
            selected_saved: HashSet::new(),
            saved_selection_anchor: None,
            saved_list_active: false,
            saved_address_sort: 0,
            manual_address: String::new(),
            status: crate::text::owned("Ready"),
            last_action: crate::text::owned("Ready"),
            job_pending: false,
            scanning: false,
            scan_input_count: 0,
            has_scan_session: false,
            visible_scan_ranges: [None, None],
            pending_write_checks: Vec::new(),
            hotkeys: Vec::new(),
            capturing_hotkey: None,
            edit_value_index: None,
            edit_value_input: String::new(),
            edit_value_open: false,
            code_list_open: false,
            freeze_pid: None,
            freeze_targets: Vec::new(),
            freeze_worker_started: false,
            edit_code_name_index: None,
            edit_code_name_input: String::new(),
            code_access_dialog: None,
            instruction_watch_dialog: None,
        };
        assert(p.visible_scan_ranges@ =~= seq![None::<(usize, usize)>, None]);
        p
    }
}

} // verus!
