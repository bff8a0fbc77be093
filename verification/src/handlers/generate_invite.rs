//! The invite route: a reCAPTCHA-checked, single-use Discord invite.
use vstd::prelude::*;

verus! {

/// Form data posted to `/api/generate_invite` (the field is sent as
/// `g-recaptcha-response`).
pub struct InviteForm {
    pub g_recaptcha_response: String,
}

/// How the invite route answers once the captcha has been checked.
pub enum InviteResponse {
    /// Answer with this text.
    Message(String),
    /// Create an invite to the configured channel that expires after `max_age`
    /// seconds and can be used `max_uses` times, and redirect to its URL.
    CreateInvite { max_age: u32, max_uses: u8 },
}

/// Decides the answer of the invite route from how the captcha check ended: its
/// verdict, or the text of the error that stopped it. Only a valid captcha gives
/// an invite, and that invite is single-use and lasts a minute.
pub fn invite_response(captcha: Result<bool, String>) -> (response: InviteResponse)
    ensures
        match captcha {
            Err(e) => response matches InviteResponse::Message(m) && m@
                == "Error validating captcha: "@ + e@,
            Ok(false) => response matches InviteResponse::Message(m) && m@ == "Invalid captcha"@,
            Ok(true) => response == (InviteResponse::CreateInvite { max_age: 60, max_uses: 1 }),
        },
{
    match captcha {
        Err(e) => {
            let mut m = String::from_str("Error validating captcha: ");
            m.append(e.as_str());
            InviteResponse::Message(m)
        },
        Ok(false) => InviteResponse::Message(String::from_str("Invalid captcha")),
        Ok(true) => InviteResponse::CreateInvite { max_age: 60, max_uses: 1 },
    }
}

} // verus!
