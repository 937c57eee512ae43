//! The account of the logged-in user, as the user-info endpoint returns it.
use vstd::prelude::*;

verus! {

/// The signed-in user's account.
#[derive(Debug)]
pub struct UserInfo {
    pub user_id: String,
    pub space_user_id: u64,
    pub account_id: u64,
    pub blog_id: u64,
    pub display_name: String,
    pub face: String,
    pub avatar: String,
    pub seniority: String,
    pub blog_app: String,
    pub following_count: u64,
    pub follower_count: u64,
    pub is_vip: bool,
    pub joined: String,
}

} // verus!
