//! Release notifications: the post that announces a release, and its message.
use vstd::prelude::*;

use crate::primitives::RepositoryTag;

verus! {

/// A post to publish in a channel of a chat platform.
#[derive(Debug, Clone)]
pub struct CreatePost {
    /// The channel to post in.
    pub channel_id: String,
    /// The message to post.
    pub message: String,
}

impl CreatePost {
    /// Builds a post of `message` in the channel `channel`.
    pub fn build(channel: &str, message: &str) -> (r: CreatePost)
        ensures
            r.channel_id@ == channel@,
            r.message@ == message@,
    {
        CreatePost { channel_id: String::from_str(channel), message: String::from_str(message) }
    }
}

/// The announcement of a release: `<message> (v<tag>) !`.
pub open spec fn release_message(message: Seq<char>, tag: Seq<char>) -> Seq<char> {
    message + " (v"@ + tag + ") !"@
}

/// Announces new releases.
#[derive(Debug, Clone)]
pub struct NotifierPlugin {
    /// The message of the last announcement.
    message: String,
}

impl NotifierPlugin {
    /// The message of the last announcement; empty before the first one.
    pub closed spec fn spec_message(&self) -> Seq<char> {
        self.message@
    }

    /// A notifier that has announced nothing yet.
    pub fn new() -> (r: NotifierPlugin)
        ensures
            r.spec_message() == Seq::<char>::empty(),
    {
        NotifierPlugin { message: String::new() }
    }

    /// Writes the announcement of the release tagged `last_tag`, keeps it as the last
    /// announcement and returns it.
    pub fn announce(&mut self, message: &str, last_tag: &RepositoryTag) -> (r: String)
        ensures
            r@ == release_message(message@, last_tag.identifier@),
            final(self).spec_message() == r@,
    {
        let mut text = String::from_str(message);
        text.append(" (v");
        text.append(last_tag.identifier.as_str());
        text.append(") !");
        assert(text@ =~= release_message(message@, last_tag.identifier@));
        self.message = text.clone();
        text
    }

    /// The message of the last announcement.
    pub fn message(&self) -> (r: &str)
        ensures
            r@ == self.spec_message(),
    {
        self.message.as_str()
    }
}

} // verus!
