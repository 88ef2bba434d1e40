//! Loading of HID-BPF objects for a matched device: strategy selection, property
//! injection, probing, attachment and pinning, stated as verified decisions over
//! plain descriptions of the object and of the kernel's answers.

pub mod bpf;
pub mod error;
pub mod hidudev;
pub mod inject;
pub mod laws;
pub mod loader;
pub mod model;
pub mod object;
pub mod path;
pub mod syscall;
pub mod text;
pub mod views;

pub use bpf::{remove_bpf_objects, HidBPF};
pub use error::BpfError;
pub use hidudev::{HidUdev, HidUdevProperty};
pub use loader::{get_bpf_loader, HidBPFLoader, HidBPFStructOps, HidBPFTrace};
pub use model::{Action, Event};
pub use path::get_bpffs_path;
pub use syscall::{hid_bpf_probe_args, AttachProgArgs};
