//! Pin configuration synchronisation for a GPIO control surface: the pin
//! address model, configurations and their byte format, the event protocol
//! between control surface and hardware backend, the reconciliation engine,
//! and the state of the surrounding user interface pieces.
pub mod hw;
pub mod config;
pub mod protocol;
pub mod hardware_button;
pub mod hardware_view;
pub mod status;
pub mod identity;
pub mod connect_dialog_handler;
pub mod info_row;
pub mod version;
