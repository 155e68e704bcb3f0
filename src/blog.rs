//! A blog post that goes from draft through review to publication.
use vstd::prelude::*;
use vstd::string::StringExecFns;

verus! {

/// Where a post stands in its workflow.
#[derive(Clone, Copy, Debug, PartialEq, Eq, Structural)]
pub enum PostState {
    Draft,
    PendingReview,
    Published,
}

/// A draft goes to review; any other state stays.
pub open spec fn reviewed(s: PostState) -> PostState {
    match s {
        PostState::Draft => PostState::PendingReview,
        _ => s,
    }
}

/// A post under review is published; any other state stays.
pub open spec fn approved(s: PostState) -> PostState {
    match s {
        PostState::PendingReview => PostState::Published,
        _ => s,
    }
}

impl PostState {
    /// The state after a review was asked for.
    pub fn request_review(self) -> (r: PostState)
        ensures
            r == reviewed(self),
    {
        match self {
            PostState::Draft => PostState::PendingReview,
            PostState::PendingReview => PostState::PendingReview,
            PostState::Published => PostState::Published,
        }
    }

    /// The state after an approval.
    pub fn approve(self) -> (r: PostState)
        ensures
            r == approved(self),
    {
        match self {
            PostState::Draft => PostState::Draft,
            PostState::PendingReview => PostState::Published,
            PostState::Published => PostState::Published,
        }
    }

    /// Whether the text of a post in this state is shown.
    pub fn shows_content(self) -> (r: bool)
        ensures
            r == (self == PostState::Published),
    {
        match self {
            PostState::Published => true,
            _ => false,
        }
    }
}

/// A post: its text, shown only once it is published.
pub struct Post {
    state: PostState,
    content: String,
}

impl Post {
    /// The state the post is in.
    pub closed spec fn state(&self) -> PostState {
        self.state
    }

    /// All text added so far, shown or not.
    pub closed spec fn text(&self) -> Seq<char> {
        self.content@
    }

    /// An empty draft.
    pub fn new() -> (r: Post)
        ensures
            r.state() == PostState::Draft,
            r.text() == Seq::<char>::empty(),
    {
        Post { state: PostState::Draft, content: String::new() }
    }

    /// Appends `text` to the post, in whatever state it is.
    pub fn add_text(&mut self, text: &str)
        ensures
            final(self).text() == old(self).text() + text@,
            final(self).state() == old(self).state(),
    {
        self.content.append(text);
    }

    /// The text that readers see: all of it once published, none before.
    pub fn content(&self) -> (r: &str)
        ensures
            r@ == (if self.state() == PostState::Published {
                self.text()
            } else {
                Seq::<char>::empty()
            }),
    {
        if self.state.shows_content() {
            self.content.as_str()
        } else {
            proof {
                reveal_strlit("");
            }
            ""
        }
    }

    /// Asks for a review: a draft goes to review.
    pub fn request_review(&mut self)
        ensures
            final(self).state() == reviewed(old(self).state()),
            final(self).text() == old(self).text(),
    {
        self.state = self.state.request_review();
    }

    /// Approves the post: a post under review is published.
    pub fn approve(&mut self)
        ensures
            final(self).state() == approved(old(self).state()),
            final(self).text() == old(self).text(),
    {
        self.state = self.state.approve();
    }
}

} // verus!
