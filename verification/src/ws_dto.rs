//! Inbound message payloads, one struct per message kind, and the shape of
//! the metadata resolver's response.
//!
//! The transport layer decodes each envelope into one of these before the
//! dispatch engine runs; the engine itself never sees raw bytes.

use vstd::prelude::*;

verus! {

/// An identity announce: the sender asserts who it is.
pub struct TakeUserMessage {
    pub action: String,
    pub provider: String,
    pub authData: AuthData,
}

/// The asserted identity: stable key plus display data.
pub struct AuthData {
    pub uid: String,
    pub fullName: String,
    pub imageUrl: String,
}

/// The sender reports going online or offline.
pub struct OnlineStatusChange {
    pub action: String,
    pub googleUserId: String,
    pub onlineState: bool,
}

/// The sender reports watching a new video.
pub struct VideoChangeMessage {
    pub action: String,
    pub googleUserId: String,
    pub videoUrl: String,
}

/// The sender mutes or unmutes one friend's presence updates.
pub struct FriendExclusionMessage {
    pub action: String,
    pub googleUserId: String,
    pub friendGoogleUserId: String,
    pub exclude: bool,
}

/// The sender requests a friendship with another identity.
pub struct MakeFriendshipMessage {
    pub action: String,
    pub googleUserId: String,
    pub friendGoogleUserId: String,
}

/// One thumbnail variant in the resolver's response.
pub struct YoutubeVideoResponseItemSnippetThumbnailDetail {
    pub url: String,
}

/// The thumbnail set of a resolved video.
pub struct YoutubeVideoResponseItemSnippetThumbnail {
    pub default: YoutubeVideoResponseItemSnippetThumbnailDetail,
}

/// The descriptive part of a resolved video.
pub struct YoutubeVideoResponseItemSnippet {
    pub title: String,
    pub thumbnails: YoutubeVideoResponseItemSnippetThumbnail,
}

/// One item of the resolver's response.
pub struct YoutubeVideoResponseItem {
    pub snippet: YoutubeVideoResponseItemSnippet,
}

/// The resolver's response: empty when the content id resolved to nothing.
pub struct YoutubeVideoResponse {
    pub items: Vec<YoutubeVideoResponseItem>,
}

} // verus!
