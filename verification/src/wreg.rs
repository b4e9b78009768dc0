//! The executor's store of the parental-control password.

use crate::codec::{base64_decoded, decode_password, decoded_password, PasswordError};
use vstd::prelude::*;

verus! {

pub struct WReg {
    parental_control_password: String,
}

impl WReg {
    pub closed spec fn password(&self) -> Seq<char> {
        self.parental_control_password@
    }

    pub fn new() -> (r: Self)
        ensures
            r.password() == Seq::<char>::empty(),
    {
        WReg { parental_control_password: String::new() }
    }

    /// Takes the password from its base64 form; on failure the stored
    /// password is kept.
    pub fn set_parental_control_password(&mut self, pass: &str) -> (r: Result<(), PasswordError>)
        ensures
            match decoded_password(pass@) {
                Some(p) => r is Ok && final(self).password() == p,
                None => r is Err && final(self).password() == old(self).password(),
            },
            r matches Err(PasswordError::InvalidBase64(_)) <==> base64_decoded(pass@) is None,
    {
        match decode_password(pass) {
            Ok(p) => {
                self.parental_control_password = p;
                Ok(())
            },
            Err(e) => Err(e),
        }
    }

    pub fn get_parental_control_password(&self) -> (r: &str)
        ensures
            r@ == self.password(),
    {
        self.parental_control_password.as_str()
    }
}

} // verus!
