//! Which files hold motion text.

use crate::text::to_chars;
use vstd::prelude::*;

verus! {

/// Why a file is not taken for motion text.
#[derive(Debug, Clone, PartialEq, Eq)]
pub enum ExtensionError {
    /// The name of the file has no extension.
    Missing,
    /// The name of the file has this extension, which is not `gcode`.
    Invalid(String),
}

/// The extension of files with motion text.
pub open spec fn gcode_extension() -> Seq<char> {
    seq!['g', 'c', 'o', 'd', 'e']
}

/// Accepts the extension `gcode` and no other.
pub fn check_extension(extension: Option<&str>) -> (r: Result<(), ExtensionError>)
    ensures
        match extension {
            None => r == Err::<(), ExtensionError>(ExtensionError::Missing),
            Some(e) => if e@ == gcode_extension() {
                r is Ok
            } else {
                r is Err && r->Err_0 is Invalid && r->Err_0->Invalid_0@ == e@
            },
        },
{
    match extension {
        None => Err(ExtensionError::Missing),
        Some(e) => {
            let chars = to_chars(e);
            if chars.len() == 5 && chars[0] == 'g' && chars[1] == 'c' && chars[2] == 'o' && chars[3]
                == 'd' && chars[4] == 'e' {
                assert(e@ =~= gcode_extension());
                Ok(())
            } else {
                proof {
                    if e@ == gcode_extension() {
                        assert(gcode_extension().len() == 5);
                        assert(gcode_extension()[0] == 'g');
                        assert(gcode_extension()[1] == 'c');
                        assert(gcode_extension()[2] == 'o');
                        assert(gcode_extension()[3] == 'd');
                        assert(gcode_extension()[4] == 'e');
                    }
                }
                Err(ExtensionError::Invalid(e.to_owned()))
            }
        },
    }
}

} // verus!
