//! Early-boot helpers for a RISC-V firmware stub: clearing the
//! uninitialised-data region and collecting the machine description from a
//! flattened device tree blob.

mod blob;
mod bss;
pub mod fatal;
mod inline_string;
mod lemmas;
mod machine;
mod names;
mod structure;
mod visit;

pub use blob::{
    be_u32, check_walkable, declared_size, dtb_events, early_issue, header_issue, layout_ok,
    rsv_offset, strings_of, strings_offset, strings_size, structure_of, struct_offset, struct_size,
    tree_events, visit_allowed, walked, entered_only, walkable, Placed, is_tolerated, read_be_u32, tolerated, BlobError,
    HeaderIssue, HEADER_LEN,
};
pub use bss::{zero_bss, zero_bss_idempotent, zeroed};
pub use inline_string::{clamp, InlineString};
pub use lemmas::{
    absent_device_is_empty, cpu_count_is_entries, cpu_entries, described, enters_only_allowed, intervals_from_allowed_nodes,
    last_comp_version_ignored, last_root_model, model_kept_whole, same_but_last_comp, model_truncated, sets_device, unclassed_node_ignored,
};
pub use machine::{
    after, decide, empty_range, initial, is_cpu_entry_at, is_cpu_visit, verdict, Found, range_of, run, with_range, MachineInfo,
    MachineView, MODEL_CAPACITY,
};
pub use names::{
    cpu_entry_name, cpus_name, device_class, device_of, has_prefix, is_cpu_entry, is_cpus,
    is_root_container, is_soc, is_soc_device, memory_name, root_container, same_bytes,
    serial_name, soc_device, soc_name, starts_with, test_name, uart_name, clint_name, Device,
};
pub use visit::{DtbItem, Obj, Step, Visit};
