//! Row types of the identity and friendship store.
//!
//! Timestamps are kept as milliseconds since the Unix epoch; `updated_at` is
//! absent until a row has been rewritten at least once.

use vstd::prelude::*;

verus! {

/// A registered identity: a stable external user key plus display data.
pub struct Usermaster {
    pub id: i64,
    pub uid: String,
    pub provider: String,
    pub full_name: String,
    pub image_url: String,
    pub created_at: i64,
    pub updated_at: Option<i64>,
}

/// Mathematical image of a [`Usermaster`] row.
pub ghost struct UsermasterView {
    pub id: int,
    pub uid: Seq<char>,
    pub provider: Seq<char>,
    pub full_name: Seq<char>,
    pub image_url: Seq<char>,
    pub created_at: i64,
    pub updated_at: Option<i64>,
}

impl View for Usermaster {
    type V = UsermasterView;

    open spec fn view(&self) -> UsermasterView {
        UsermasterView {
            id: self.id as int,
            uid: self.uid@,
            provider: self.provider@,
            full_name: self.full_name@,
            image_url: self.image_url@,
            created_at: self.created_at,
            updated_at: self.updated_at,
        }
    }
}

impl Clone for Usermaster {
    fn clone(&self) -> (res: Self)
        ensures
            res@ == self@,
    {
        Usermaster {
            id: self.id,
            uid: self.uid.clone(),
            provider: self.provider.clone(),
            full_name: self.full_name.clone(),
            image_url: self.image_url.clone(),
            created_at: self.created_at,
            updated_at: self.updated_at,
        }
    }
}

/// A directed friendship edge: the owner follows the friend's presence
/// unless `is_friend_excluded` is set.
pub struct UserFriend {
    pub id: i64,
    pub user_google_uid: String,
    pub friend_google_uid: String,
    pub is_friend_excluded: bool,
    pub created_at: i64,
    pub updated_at: Option<i64>,
}

/// Mathematical image of a [`UserFriend`] row.
pub ghost struct UserFriendView {
    pub id: int,
    pub user_google_uid: Seq<char>,
    pub friend_google_uid: Seq<char>,
    pub is_friend_excluded: bool,
    pub created_at: i64,
    pub updated_at: Option<i64>,
}

impl View for UserFriend {
    type V = UserFriendView;

    open spec fn view(&self) -> UserFriendView {
        UserFriendView {
            id: self.id as int,
            user_google_uid: self.user_google_uid@,
            friend_google_uid: self.friend_google_uid@,
            is_friend_excluded: self.is_friend_excluded,
            created_at: self.created_at,
            updated_at: self.updated_at,
        }
    }
}

/// A friendship edge joined with the friend's identity row.
pub struct UserFriendEntity {
    pub id: i64,
    pub user_google_uid: String,
    pub friend_google_uid: String,
    pub friend: Usermaster,
    pub is_friend_excluded: bool,
    pub created_at: i64,
    pub updated_at: Option<i64>,
}

/// Mathematical image of a [`UserFriendEntity`].
pub ghost struct UserFriendEntityView {
    pub id: int,
    pub user_google_uid: Seq<char>,
    pub friend_google_uid: Seq<char>,
    pub friend: UsermasterView,
    pub is_friend_excluded: bool,
    pub created_at: i64,
    pub updated_at: Option<i64>,
}

impl View for UserFriendEntity {
    type V = UserFriendEntityView;

    open spec fn view(&self) -> UserFriendEntityView {
        UserFriendEntityView {
            id: self.id as int,
            user_google_uid: self.user_google_uid@,
            friend_google_uid: self.friend_google_uid@,
            friend: self.friend@,
            is_friend_excluded: self.is_friend_excluded,
            created_at: self.created_at,
            updated_at: self.updated_at,
        }
    }
}

/// The [`UserFriendEntityView`] that joining an edge with a friend row yields.
pub open spec fn join_edge(edge: UserFriendView, friend: UsermasterView) -> UserFriendEntityView {
    UserFriendEntityView {
        id: edge.id,
        user_google_uid: edge.user_google_uid,
        friend_google_uid: edge.friend_google_uid,
        friend: friend,
        is_friend_excluded: edge.is_friend_excluded,
        created_at: edge.created_at,
        updated_at: edge.updated_at,
    }
}

impl UserFriendEntity {
    /// Joins an edge row with the friend identity it points at.
    pub fn from(user_friend_row: &UserFriend, user: &Usermaster) -> (entity: UserFriendEntity)
        ensures
            entity@ == join_edge(user_friend_row@, user@),
    {
        UserFriendEntity {
            id: user_friend_row.id,
            user_google_uid: user_friend_row.user_google_uid.clone(),
            friend_google_uid: user_friend_row.friend_google_uid.clone(),
            friend: user.clone(),
            is_friend_excluded: user_friend_row.is_friend_excluded,
            created_at: user_friend_row.created_at,
            updated_at: user_friend_row.updated_at,
        }
    }
}

/// A watched video: one row per canonical content id.
pub struct Video {
    pub id: i64,
    pub video_url: String,
    pub youtube_video_id: String,
    pub video_title: String,
    pub created_at: i64,
    pub updated_at: Option<i64>,
}

/// Mathematical image of a [`Video`] row.
pub ghost struct VideoView {
    pub id: int,
    pub video_url: Seq<char>,
    pub youtube_video_id: Seq<char>,
    pub video_title: Seq<char>,
    pub created_at: i64,
    pub updated_at: Option<i64>,
}

impl View for Video {
    type V = VideoView;

    open spec fn view(&self) -> VideoView {
        VideoView {
            id: self.id as int,
            video_url: self.video_url@,
            youtube_video_id: self.youtube_video_id@,
            video_title: self.video_title@,
            created_at: self.created_at,
            updated_at: self.updated_at,
        }
    }
}

/// A watch event: the join row linking an identity to a video, at most one
/// per pair.
pub struct UserVideo {
    pub id: i64,
    pub user_id: i64,
    pub video_id: i64,
    pub created_at: i64,
    pub updated_at: Option<i64>,
}

/// Mathematical image of a [`UserVideo`] row.
pub ghost struct UserVideoView {
    pub id: int,
    pub user_id: int,
    pub video_id: int,
    pub created_at: i64,
    pub updated_at: Option<i64>,
}

impl View for UserVideo {
    type V = UserVideoView;

    open spec fn view(&self) -> UserVideoView {
        UserVideoView {
            id: self.id as int,
            user_id: self.user_id as int,
            video_id: self.video_id as int,
            created_at: self.created_at,
            updated_at: self.updated_at,
        }
    }
}

/// Field set for inserting a new identity row.
pub struct NewUser {
    pub uid: String,
    pub provider: String,
    pub full_name: String,
    pub image_url: String,
    pub created_at: i64,
}

/// Field set for inserting a new friendship edge.
pub struct NewUserFriend {
    pub user_google_uid: String,
    pub friend_google_uid: String,
    pub is_friend_excluded: bool,
    pub created_at: i64,
}

/// Field set for inserting a new video row.
pub struct NewVideo {
    pub video_url: String,
    pub youtube_video_id: String,
    pub video_title: String,
    pub created_at: i64,
}

/// Field set for inserting a new watch event.
pub struct NewUserVideo {
    pub user_id: i64,
    pub video_id: i64,
    pub created_at: i64,
}

} // verus!
