//! Address, scan-value and saved-address logic of a process memory scanner panel.
pub mod text;
pub mod number;
pub mod address;
pub mod pointer;
pub mod scan;
pub mod structure;
pub mod view;
pub mod rtti;
pub mod entity;
pub mod saved;
pub mod library;
pub mod panel;
pub mod hotkeys;
pub mod results;
pub mod code;
pub mod settings;
pub mod edit;
pub mod selection;
pub mod scan_start;
pub mod address_dialog;
pub mod refresh;
pub mod code_access;
pub mod code_patch;
pub mod entity_list;
pub mod chain;
pub mod stable_pointer;
pub mod probe;
pub mod camera;
pub mod memory_view;
pub mod module_list;
pub mod disassembler;
pub mod saved_commands;
pub mod stable_filter;
pub mod deep_pointer;
pub mod hit_table;
pub mod watch_events;
pub mod code_list;
pub mod library_view;
pub mod panel_events;
pub mod dll_import;
