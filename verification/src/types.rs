//! The flash chip kinds a run can target, their selector strings, and
//! their capabilities.

use vstd::prelude::*;
use crate::strings::str_eq;

verus! {

/// The flash chip a run targets.  Set once from the invoking command's
/// target argument and immutable for the run.
#[derive(Copy, Clone, Debug, PartialEq, Eq, Structural)]
pub enum FlashChip {
    EC,
    HOST,
    SERVOv2,
    DEDIPROG,
}

impl FlashChip {
    /// Parse a target-kind selector string; only the four known kind
    /// strings are accepted.
    pub fn from(s: &str) -> (r: Result<FlashChip, &'static str>)
        ensures
            r is Ok <==> (s@ == "ec"@ || s@ == "host"@ || s@ == "servo-v2"@ || s@
                == "dediprog"@),
            s@ == "ec"@ ==> r == Result::<FlashChip, &'static str>::Ok(FlashChip::EC),
            s@ == "host"@ ==> r == Result::<FlashChip, &'static str>::Ok(FlashChip::HOST),
            s@ == "servo-v2"@ ==> r == Result::<FlashChip, &'static str>::Ok(FlashChip::SERVOv2),
            s@ == "dediprog"@ ==> r == Result::<FlashChip, &'static str>::Ok(FlashChip::DEDIPROG),
            r is Err ==> r->Err_0@ == "cannot convert str to enum"@,
    {
        proof {
            reveal_strlit("ec");
            reveal_strlit("host");
            reveal_strlit("servo-v2");
            reveal_strlit("dediprog");
            assert("ec"@.len() == 2);
            assert("host"@.len() == 4);
            assert("servo-v2"@.len() == 8);
            assert("dediprog"@.len() == 8);
            assert("servo-v2"@[0] == 's');
            assert("dediprog"@[0] == 'd');
            assert("ec"@ != "host"@);
            assert("servo-v2"@ != "dediprog"@);
        }
        if str_eq(s, "ec") {
            Ok(FlashChip::EC)
        } else if str_eq(s, "host") {
            Ok(FlashChip::HOST)
        } else if str_eq(s, "servo-v2") {
            Ok(FlashChip::SERVOv2)
        } else if str_eq(s, "dediprog") {
            Ok(FlashChip::DEDIPROG)
        } else {
            Err("cannot convert str to enum")
        }
    }

    /// The programmer selector string for this kind, as contracts speak
    /// of it.
    pub open spec fn spec_to(self) -> Seq<char> {
        match self {
            FlashChip::EC => "ec"@,
            FlashChip::HOST => "host"@,
            FlashChip::SERVOv2 => "ft2232_spi:type=servo-v2"@,
            FlashChip::DEDIPROG => "dediprog"@,
        }
    }

    /// The programmer selector string handed to the external utility.
    pub fn to(fc: FlashChip) -> (r: &'static str)
        ensures
            r@ == fc.spec_to(),
    {
        match fc {
            FlashChip::EC => "ec",
            FlashChip::HOST => "host",
            FlashChip::SERVOv2 => "ft2232_spi:type=servo-v2",
            FlashChip::DEDIPROG => "dediprog",
        }
    }

    /// Whether the harness has a physical channel to toggle hardware
    /// write-protect for this kind.  Kinds without one behave as if
    /// hardware write-protect were permanently asserted.
    pub open spec fn spec_can_control_hw_wp(self) -> bool {
        self == FlashChip::EC || self == FlashChip::HOST
    }

    /// Whether the harness can toggle hardware write-protect for this kind.
    pub fn can_control_hw_wp(self) -> (r: bool)
        ensures
            r == self.spec_can_control_hw_wp(),
    {
        match self {
            FlashChip::EC => true,
            FlashChip::HOST => true,
            FlashChip::SERVOv2 => false,
            FlashChip::DEDIPROG => false,
        }
    }
}

} // verus!
