use crate::error::Error;
use crate::store::{claim_post, has_unserved, items_kept, opt_view, Store};
use vstd::prelude::*;

verus! {

/// The request body sent to the speech vendor.
pub struct ElevenlabsBody {
    pub text: String,
    pub model_id: String,
}

impl ElevenlabsBody {
    /// A request to speak `text` with the model `model_id`.
    pub fn new(text: String, model_id: String) -> (r: ElevenlabsBody)
        ensures
            r.text@ == text@,
            r.model_id@ == model_id@,
    {
        ElevenlabsBody { text, model_id }
    }
}

/// Picks the text of one request: the content of an item claimed from the store,
/// or `fallback` where every item is served.
pub fn next_speech_text(store: &mut Store, fallback: &str) -> (r: String)
    requires
        old(store).wf(),
    ensures
        final(store).wf(),
        items_kept(old(store)@, final(store)@),
        exists|c: Option<Seq<char>>| #[trigger]
            claim_post(old(store)@, final(store)@, c) && match c {
                Some(t) => r@ == t,
                None => r@ == fallback@,
            },
        !has_unserved(old(store)@) ==> r@ == fallback@ && final(store)@ == old(store)@,
{
    match store.take_next_unserved() {
        Some(content) => {
            assert(claim_post(old(store)@, store@, opt_view(Some(content))));
            content
        },
        None => {
            assert(claim_post(old(store)@, store@, None));
            fallback.to_string()
        },
    }
}

/// The vendor endpoint that speaks with the voice `voice_id`.
pub fn vendor_url(voice_id: &str) -> (r: String)
    ensures
        r@ == "https://api.elevenlabs.io/v1/text-to-speech/"@ + voice_id@,
{
    let mut url = String::from_str("https://api.elevenlabs.io/v1/text-to-speech/");
    url.append(voice_id);
    url
}

/// The feed endpoint listing an account's recent posts, replies left out.
pub fn feed_url(account_url: &str) -> (r: String)
    ensures
        r@ == account_url@ + "/statuses?exclude_replies=true"@,
{
    let mut url = String::from_str(account_url);
    url.append("/statuses?exclude_replies=true");
    url
}

/// An HTTP status in the success class.
pub open spec fn is_success(status: u16) -> bool {
    200 <= status < 300
}

/// The answer to a request given the vendor's reply: its audio where the status
/// is a success; otherwise a request error that names the status (`status_text`
/// is how the status reads, such as `503 Service Unavailable`).
pub fn vendor_outcome(status: u16, status_text: &str, audio: Vec<u8>) -> (r: Result<Vec<u8>, Error>)
    ensures
        is_success(status) ==> (r matches Ok(a) && a@ == audio@),
        !is_success(status) ==> (r matches Err(Error::BadRequest(m)) && m@
            == "failed to request tts from vendor: "@ + status_text@),
{
    if 200 <= status && status < 300 {
        Ok(audio)
    } else {
        let mut m = String::from_str("failed to request tts from vendor: ");
        m.append(status_text);
        Err(Error::BadRequest(m))
    }
}

} // verus!
