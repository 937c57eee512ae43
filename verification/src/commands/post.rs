//! Arguments of the blog-post commands.
use vstd::prelude::*;

verus! {

/// Arguments of `post list`: whose blog, and which page.
#[derive(Debug)]
pub struct ListArgs {
    /// The blog name (`blog_app`); `None` means the logged-in user's blog.
    pub name: Option<String>,
    pub page_index: u64,
    pub page_size: u64,
}

} // verus!
