//! What the live-status provider's search answers mean: the first result
//! decides. Request URLs are built here too; the HTTP exchange is not.

use vstd::prelude::*;
use vstd::string::*;
use crate::live_state::{BroadcastInfo, BroadcastView, ProviderError};

verus! {

/// One result of a live-video search.
#[derive(Debug, Clone)]
pub struct LiveSearchItem {
    pub video_id: Option<String>,
    pub title: String,
    pub live_broadcast_content: String,
}

/// The live broadcast that a search answer reports: none for no result or
/// a first result that is not live; a live first result without a video id
/// is malformed and counts as the provider being unavailable.
pub open spec fn live_answer(items: Seq<LiveSearchItem>) -> Result<Option<BroadcastView>, ProviderError> {
    if items.len() == 0 || items[0].live_broadcast_content@ != "live"@ {
        Ok(None)
    } else {
        match items[0].video_id {
            Some(v) => Ok(Some(BroadcastView { broadcast_id: v@, title: items[0].title@ })),
            None => Err(ProviderError::Unavailable),
        }
    }
}

pub open spec fn answer_view(r: Result<Option<BroadcastInfo>, ProviderError>) -> Result<
    Option<BroadcastView>,
    ProviderError,
> {
    match r {
        Ok(Some(b)) => Ok(Some(b@)),
        Ok(None) => Ok(None),
        Err(e) => Err(e),
    }
}

/// Reads a live-video search answer.
pub fn live_broadcast_from_items(items: &Vec<LiveSearchItem>) -> (r: Result<
    Option<BroadcastInfo>,
    ProviderError,
>)
    ensures
        answer_view(r) == live_answer(items@),
{
    if items.len() == 0 {
        return Ok(None);
    }
    let first = &items[0];
    let live = String::from_str("live");
    if first.live_broadcast_content != live {
        return Ok(None);
    }
    match &first.video_id {
        Some(v) => Ok(Some(BroadcastInfo { broadcast_id: v.clone(), title: first.title.clone() })),
        None => Err(ProviderError::Unavailable),
    }
}

/// Reads a channel search answer, given as the channel ids of its results:
/// the first one, or `NotFound` when there is none.
pub fn channel_id_from_items(ids: &Vec<String>) -> (r: Result<String, ProviderError>)
    ensures
        ids@.len() == 0 <==> r == Err::<String, ProviderError>(ProviderError::NotFound),
        ids@.len() > 0 ==> r is Ok && r->Ok_0@ == ids@[0]@,
{
    if ids.len() == 0 {
        Err(ProviderError::NotFound)
    } else {
        Ok(ids[0].clone())
    }
}

pub open spec fn live_search_url_of(channel_id: Seq<char>, api_key: Seq<char>) -> Seq<char> {
    "https://www.googleapis.com/youtube/v3/search?part=id,snippet&channelId="@ + channel_id
        + "&eventType=live&type=video&key="@ + api_key
}

pub open spec fn channel_search_url_of(name: Seq<char>, api_key: Seq<char>) -> Seq<char> {
    "https://www.googleapis.com/youtube/v3/search?part=id,snippet&maxResults=1&q="@ + name
        + "&type=channel&key="@ + api_key
}

/// The search request for a live video of channel `channel_id`.
pub fn live_search_url(channel_id: &str, api_key: &str) -> (r: String)
    ensures
        r@ == live_search_url_of(channel_id@, api_key@),
{
    let mut s = String::from_str("https://www.googleapis.com/youtube/v3/search?part=id,snippet&channelId=");
    s.append(channel_id);
    s.append("&eventType=live&type=video&key=");
    s.append(api_key);
    s
}

/// The search request for the channel named `name`.
pub fn channel_search_url(name: &str, api_key: &str) -> (r: String)
    ensures
        r@ == channel_search_url_of(name@, api_key@),
{
    let mut s = String::from_str("https://www.googleapis.com/youtube/v3/search?part=id,snippet&maxResults=1&q=");
    s.append(name);
    s.append("&type=channel&key=");
    s.append(api_key);
    s
}

} // verus!
