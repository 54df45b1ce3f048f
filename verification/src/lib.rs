//! Client-side logic for a LiveStreet-engine blogging site ("Tabun").
//!
//! The site exposes no API: every operation is an HTTP exchange whose
//! response is server-rendered HTML or a small AJAX fragment.  This crate
//! holds the part of such a client that can be stated and proved: the
//! session state (cookies and the rotating anti-CSRF token), the AJAX
//! response decoder, the micro-parsers that recover numeric identifiers
//! from markup conventions, and the extractors that turn a parsed page
//! into typed records.  The HTTP transport itself lives outside.

use vstd::prelude::*;

pub mod ajax;
pub mod comments;
pub mod dom;
pub mod ids;
pub mod json;
pub mod multipart;
pub mod page;
pub mod posts;
pub mod profile;
pub mod session;
pub mod talks;
pub mod text;
pub mod utils;

verus! {

/// The error classification every operation reports.
#[derive(Debug, Clone, PartialEq, Eq)]
pub enum TabunError {
    /// The server rejected the anti-CSRF token ("Hacking attempt!").
    HackingAttempt,
    /// The server's structured error envelope: a title and a message.
    Error(String, String),
    /// A non-success HTTP status code.
    NumError(u16),
    /// A transport failure, described by the transport.
    IoError(String),
    /// Expected markup or JSON structure was absent: a location and a
    /// description of what was missing.
    ParseError(String, String),
}

/// Which kind of container a comment is posted under.
#[derive(Debug, Clone, PartialEq, Eq)]
pub enum CommentType {
    /// A comment under a blog post.
    Post,
    /// A reply inside a private conversation.
    Talk,
}

/// A single comment extracted from a comments container.
///
/// When `deleted` is true the text fields hold empty sentinels, not data:
/// callers must check the flag before trusting `body`, `author` or `date`.
#[derive(Debug, Clone, PartialEq, Eq)]
pub struct Comment {
    pub body: String,
    pub id: u64,
    pub author: String,
    pub date: String,
    pub votes: i32,
    pub parent: u64,
    pub post_id: u64,
    pub deleted: bool,
}

/// A blog post as rendered on a post page or a list page.
#[derive(Debug, Clone, PartialEq, Eq)]
pub struct Post {
    pub title: String,
    pub body: String,
    pub date: String,
    pub tags: Vec<String>,
    pub comments_count: u32,
    pub author: String,
    pub id: u32,
}

/// The raw form-field values of a post's edit page: plain text, not
/// rendered HTML, hence a distinct type from [`Post`].
#[derive(Debug, Clone, PartialEq, Eq)]
pub struct EditablePost {
    pub title: String,
    pub body: String,
    pub tags: Vec<String>,
}

/// The blog lists shown on a profile page.
#[derive(Debug, Clone, PartialEq, Eq)]
pub struct InBlogs {
    /// Blogs the user created.
    pub created: Vec<String>,
    /// Blogs the user administers.
    pub admin: Vec<String>,
    /// Blogs the user moderates.
    pub moderator: Vec<String>,
    /// Blogs the user is a member of.
    pub member: Vec<String>,
}

/// A user's profile page, as extracted.
///
/// `skill` and `rating` are kept as the page's own decimal text: they are
/// fractional values that this crate stores verbatim rather than as
/// machine floats.
#[derive(Debug, Clone, PartialEq, Eq)]
pub struct UserInfo {
    pub username: String,
    pub realname: String,
    pub skill: String,
    pub id: u32,
    pub rating: String,
    pub userpic: String,
    pub description: String,
    /// Free-form facts keyed by the page's own label text, colon stripped,
    /// in page order.
    pub other_info: Vec<(String, String)>,
    pub blogs: InBlogs,
    pub publications: u32,
    pub favourites: u32,
    pub friends: u32,
}

/// A private-message conversation.
#[derive(Debug, Clone)]
pub struct Talk {
    pub title: String,
    pub body: String,
    /// Participant usernames.
    pub users: Vec<String>,
    pub comments: std::collections::HashMap<u64, Comment>,
    pub date: String,
}

/// One row of the conversation inbox.
#[derive(Debug, Clone, PartialEq, Eq)]
pub struct TalkItem {
    pub id: u32,
    pub title: String,
    pub users: Vec<String>,
}

pub type TabunResult<T> = Result<T, TabunError>;

/// The mathematical content of a [`Comment`].
pub struct CommentModel {
    pub body: Seq<char>,
    pub id: u64,
    pub author: Seq<char>,
    pub date: Seq<char>,
    pub votes: i32,
    pub parent: u64,
    pub post_id: u64,
    pub deleted: bool,
}

impl View for Comment {
    type V = CommentModel;

    open spec fn view(&self) -> CommentModel {
        CommentModel {
            body: self.body@,
            id: self.id,
            author: self.author@,
            date: self.date@,
            votes: self.votes,
            parent: self.parent,
            post_id: self.post_id,
            deleted: self.deleted,
        }
    }
}

/// The mathematical content of a [`Post`].
pub struct PostModel {
    pub title: Seq<char>,
    pub body: Seq<char>,
    pub date: Seq<char>,
    pub tags: Seq<Seq<char>>,
    pub comments_count: u32,
    pub author: Seq<char>,
    pub id: u32,
}

impl View for Post {
    type V = PostModel;

    open spec fn view(&self) -> PostModel {
        PostModel {
            title: self.title@,
            body: self.body@,
            date: self.date@,
            tags: Seq::new(self.tags@.len(), |i: int| self.tags@[i]@),
            comments_count: self.comments_count,
            author: self.author@,
            id: self.id,
        }
    }
}

/// The mathematical content of an [`EditablePost`].
pub struct EditablePostModel {
    pub title: Seq<char>,
    pub body: Seq<char>,
    pub tags: Seq<Seq<char>>,
}

impl View for EditablePost {
    type V = EditablePostModel;

    open spec fn view(&self) -> EditablePostModel {
        EditablePostModel {
            title: self.title@,
            body: self.body@,
            tags: Seq::new(self.tags@.len(), |i: int| self.tags@[i]@),
        }
    }
}

/// The mathematical content of a [`TalkItem`].
pub struct TalkItemModel {
    pub id: u32,
    pub title: Seq<char>,
    pub users: Seq<Seq<char>>,
}

impl View for TalkItem {
    type V = TalkItemModel;

    open spec fn view(&self) -> TalkItemModel {
        TalkItemModel {
            id: self.id,
            title: self.title@,
            users: Seq::new(self.users@.len(), |i: int| self.users@[i]@),
        }
    }
}

} // verus!
