//! The text that tells which hardware the control surface is connected to.
use vstd::prelude::*;
use vstd::string::*;
use crate::hw::{HardwareDescription, HardwareDetails};

verus! {

/// The four identity lines of a board.
pub open spec fn details_text(d: HardwareDetails) -> Seq<char> {
    "Hardware: "@ + d.hardware@ + "\nRevision: "@ + d.revision@ + "\nSerial: "@ + d.serial@
        + "\nModel: "@ + d.model@
}

/// Describes the connected hardware, or says that there is none.
pub open spec fn description_text(d: Option<HardwareDescription>) -> Seq<char> {
    match d {
        Some(d) => details_text(d.details),
        None => "No Hardware connected"@,
    }
}

/// The model of the connected hardware, or a placeholder.
pub open spec fn model_text(d: Option<HardwareDescription>) -> Seq<char> {
    match d {
        Some(d) => d.details.model@,
        None => "No Hardware connected"@,
    }
}

/// A string describing the hardware that is connected, or a placeholder.
pub fn hw_description(hardware_description: &Option<HardwareDescription>) -> (r: String)
    ensures
        r@ == description_text(*hardware_description),
{
    match hardware_description {
        Some(d) => {
            let mut s = String::from_str("Hardware: ");
            s.append(d.details.hardware.as_str());
            s.append("\nRevision: ");
            s.append(d.details.revision.as_str());
            s.append("\nSerial: ");
            s.append(d.details.serial.as_str());
            s.append("\nModel: ");
            s.append(d.details.model.as_str());
            s
        },
        None => String::from_str("No Hardware connected"),
    }
}

/// The model of the hardware that is connected, or a placeholder.
pub fn hw_model(hardware_description: &Option<HardwareDescription>) -> (r: String)
    ensures
        r@ == model_text(*hardware_description),
{
    match hardware_description {
        Some(d) => d.details.model.clone(),
        None => String::from_str("No Hardware connected"),
    }
}

} // verus!
