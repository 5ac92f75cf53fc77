//! Notifications to a device over the Bark service: the address to call
//! and the reading of the answer. The call itself is left to the program
//! around the library.

use crate::datalayer::DeviceType;
use crate::utils::{AiError, ErrorKind, ErrorView};
use vstd::prelude::*;
use vstd::string::StringExecFns;

verus! {

/// The address of the notification for the token `bark_id`, before its
/// parameters: the title names the device the entry comes from.
pub open spec fn base_url_text(bark_id: Seq<char>, device_name: Seq<char>, device_type: DeviceType)
    -> Seq<char> {
    "https://api.day.app/"@ + bark_id + "/Clipboard from:"@ + device_name + "("@
        + device_type.tag() + ")/"@
}

/// The address of the notification for the token `bark_id`, before its
/// parameters.
pub fn bark_base_url(bark_id: &str, device_name: &str, device_type: DeviceType) -> (url: String)
    ensures
        url@ == base_url_text(bark_id@, device_name@, device_type),
{
    let mut url = String::from_str("https://api.day.app/");
    url.append(bark_id);
    url.append("/Clipboard from:");
    url.append(device_name);
    url.append("(");
    let tag = device_type.to_string();
    url.append(tag.as_str());
    url.append(")/");
    url
}

/// The parameters of a notification that carries `data`: the receiver is
/// to copy it at once.
pub open spec fn params_of(data: Seq<char>) -> Seq<(Seq<char>, Seq<char>)> {
    seq![("autoCopy"@, "1"@), ("automaticallyCopy"@, "1"@), ("copy"@, data)]
}

/// The names and values of a list of parameters.
pub open spec fn param_views(params: Seq<(String, String)>) -> Seq<(Seq<char>, Seq<char>)> {
    params.map_values(|p: (String, String)| (p.0@, p.1@))
}

/// The parameters of a notification that carries `data`.
pub fn bark_params(data: &str) -> (params: Vec<(String, String)>)
    ensures
        param_views(params@) == params_of(data@),
{
    let mut params: Vec<(String, String)> = Vec::new();
    params.push((String::from_str("autoCopy"), String::from_str("1")));
    params.push((String::from_str("automaticallyCopy"), String::from_str("1")));
    params.push((String::from_str("copy"), String::from_str(data)));
    assert(param_views(params@) =~= params_of(data@));
    params
}

/// The error for a notification that the service refused with the
/// answer `body`.
pub open spec fn bark_failure(body: Seq<char>) -> ErrorView {
    ErrorView { kind: ErrorKind::UpstreamFailure, err: "Failed to send bark: "@ + body }
}

/// Reads the answer of the service: a success, or the failure with the
/// text that the service gave.
pub fn bark_outcome(success: bool, body: &str) -> (r: Result<(), AiError>)
    ensures
        match r {
            Ok(_) => success,
            Err(e) => !success && e@ == bark_failure(body@),
        },
{
    if success {
        Ok(())
    } else {
        let mut text = String::from_str("Failed to send bark: ");
        text.append(body);
        Err(AiError { err: text, kind: ErrorKind::UpstreamFailure })
    }
}

} // verus!
