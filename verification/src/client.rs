//! The supervising service's side of a request to the executor: what is sent
//! and how the reply is judged.

use crate::action::{action_name, Action, ActionType, ServiceAction};
use crate::actionprocessor::{reply_for, ActionOutcome};
use vstd::utf8::{encode_scalar, encode_utf8};
use vstd::prelude::*;

verus! {

/// The size of the buffer that a reply is read into.
pub const MAX_BUFFER_SIZE: usize = 128;

/// Why a request failed.
#[derive(Debug)]
pub enum ClientError {
    /// The action has no name.
    TranslationFailed,
    /// The executor replied this, and not `"Ok"`.
    ErrorResponse(Vec<u8>),
}

/// The bytes of `"Ok"`.
pub open spec fn ok_response() -> Seq<u8> {
    seq![0x4fu8, 0x6b]
}

pub struct ServiceClient {}

impl ServiceClient {
    pub fn new() -> (r: Self)
        ensures
            r == (ServiceClient {}),
    {
        ServiceClient {}
    }

    /// The text to send for `action_type`: its name.
    pub fn request(&self, action_type: ActionType) -> (r: Result<String, ClientError>)
        ensures
            r matches Ok(s) && s@ == action_name(action_type),
    {
        let action: ServiceAction = Action::new();
        match action.translate(action_type) {
            Ok(action_str) => Ok(action_str),
            Err(_) => Err(ClientError::TranslationFailed),
        }
    }

    /// Judges the executor's reply: it must be exactly `"Ok"`. (The reply's
    /// bytes read as text, invalid UTF-8 replaced, equal `"Ok"` exactly when
    /// the bytes are those of `"Ok"`.)
    pub fn check_response(&self, response: &[u8]) -> (r: Result<(), ClientError>)
        ensures
            response@ == ok_response() ==> r is Ok,
            response@ != ok_response() ==> (r matches Err(ClientError::ErrorResponse(b)) && b@ == response@),
    {
        if response.len() == 2 && response[0] == 0x4f && response[1] == 0x6b {
            proof {
                assert(response@ =~= ok_response());
            }
            Ok(())
        } else {
            let mut copy: Vec<u8> = Vec::new();
            let n: usize = response.len();
            for i in 0..n
                invariant
                    n == response@.len(),
                    copy@ == response@.take(i as int),
            {
                proof {
                    assert(response@.take(i as int + 1) == response@.take(i as int).push(response@[i as int]));
                }
                copy.push(response[i]);
            }
            proof {
                assert(response@.take(n as int) == response@);
            }
            Err(ClientError::ErrorResponse(copy))
        }
    }
}

/// What the executor replies to a started lock screen or a working user, sent
/// as UTF-8, is what the client accepts as success; the reply to an idle user
/// is not.
pub proof fn law_success_is_acknowledged()
    ensures
        reply_for(ActionOutcome::LockWorkstation(Ok(()))) matches Ok(t) && encode_utf8(t) == ok_response(),
        reply_for(ActionOutcome::IsUserWorking(Ok(true))) matches Ok(t) && encode_utf8(t) == ok_response(),
        reply_for(ActionOutcome::IsUserWorking(Ok(false))) matches Ok(t) && encode_utf8(t) != ok_response(),
{
    reveal_strlit("Ok");
    reveal_strlit("Not Ok");
    let ok = "Ok"@;
    assert(ok.len() == 2 && ok[0] == 'O' && ok[1] == 'k');
    assert((0x4fu32 & 0x7f) as u8 == 0x4fu8) by (bit_vector);
    assert((0x6bu32 & 0x7f) as u8 == 0x6bu8) by (bit_vector);
    let rest = ok.drop_first();
    assert(rest.len() == 1 && rest[0] == 'k');
    assert(rest.drop_first() =~= Seq::<char>::empty());
    assert(('k' as u32) == 0x6bu32);
    assert(('O' as u32) == 0x4fu32);
    assert(encode_scalar(0x6bu32) =~= seq![0x6bu8]);
    assert(encode_scalar(0x4fu32) =~= seq![0x4fu8]);
    assert(encode_utf8(rest.drop_first()) =~= Seq::<u8>::empty());
    assert(encode_utf8(rest) =~= seq![0x6bu8]);
    assert(encode_utf8(ok) =~= ok_response());
    let not_ok = "Not Ok"@;
    assert(encode_utf8(not_ok).len() != 2) by {
        vstd::utf8::encode_utf8_decode_utf8(not_ok);
        lemma_encode_len(not_ok);
    }
}

/// Encoding never gives fewer bytes than characters.
proof fn lemma_encode_len(s: Seq<char>)
    ensures
        encode_utf8(s).len() >= s.len(),
    decreases s.len(),
{
    if s.len() > 0 {
        lemma_encode_len(s.drop_first());
    }
}

} // verus!
