//! The text of the "about" box.
use vstd::prelude::*;
use vstd::string::*;

verus! {

pub const BIN_NAME: &'static str = "piggui";

pub const PKG_NAME: &'static str = "pigg";

pub const VERSION: &'static str = "0.1.0";

pub const LICENSE: &'static str = "Apache-2.0";

/// The licence's identifier as it appears in gnu.org addresses.
pub const LICENSE_LOWER: &'static str = "apache-2.0";

pub const REPOSITORY: &'static str = "https://github.com/andrewdavidmackenzie/pigg/";

/// The about text: name and version on the first line, then copyright,
/// licence and where the source is.
pub open spec fn version_text() -> Seq<char> {
    BIN_NAME@ + " "@ + VERSION@ + "\nCopyright (C) 2024 The "@ + PKG_NAME@ + " Developers \nLicense "@ + LICENSE@
        + ": <https://www.gnu.org/licenses/"@ + LICENSE_LOWER@ + ".html>\n"@
        + "This is free software: you are free to change and redistribute it.\n"@
        + "There is NO WARRANTY, to the extent permitted by law.\n\nWritten by the "@ + PKG_NAME@
        + " Contributors.\nFull source available at: "@ + REPOSITORY@
}

/// The about text.
pub fn version() -> (r: String)
    ensures
        r@ == version_text(),
{
    let mut s = String::from_str(BIN_NAME);
    s.append(" ");
    s.append(VERSION);
    s.append("\nCopyright (C) 2024 The ");
    s.append(PKG_NAME);
    s.append(" Developers \nLicense ");
    s.append(LICENSE);
    s.append(": <https://www.gnu.org/licenses/");
    s.append(LICENSE_LOWER);
    s.append(".html>\n");
    s.append("This is free software: you are free to change and redistribute it.\n");
    s.append("There is NO WARRANTY, to the extent permitted by law.\n\nWritten by the ");
    s.append(PKG_NAME);
    s.append(" Contributors.\nFull source available at: ");
    s.append(REPOSITORY);
    s
}

} // verus!
