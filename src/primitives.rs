//! Values shared between the stages of a release: commits, tags, users.
use vstd::prelude::*;

use crate::level::ReleaseAction;

verus! {

/// A commit with its hash, its message and the release action that its message calls
/// for, once the commit has been analysed.
#[derive(Debug, PartialEq)]
pub struct Commit {
    /// Long commit identifier, such as a 40 digits SHA-1 hash.
    pub hash: String,
    /// The commit message, such as `feat(github): a new feature`.
    pub message: String,
    /// The release action that the message calls for; unset until the commit is analysed.
    pub release_action: Option<ReleaseAction>,
}

impl Clone for Commit {
    fn clone(&self) -> (r: Commit)
        ensures
            r == *self,
    {
        Commit {
            hash: self.hash.clone(),
            message: self.message.clone(),
            release_action: self.release_action,
        }
    }
}

impl Commit {
    /// Creates a commit from its message and its hash; its release action is unset.
    pub fn new(commitmessage: String, sha: String) -> (r: Commit)
        ensures
            r.message == commitmessage,
            r.hash == sha,
            r.release_action is None,
    {
        Commit { hash: sha, message: commitmessage, release_action: None }
    }
}

/// A tag of a repository: its name, such as `v3.2.1`, and the hash of its commit.
#[derive(Clone, Debug)]
pub struct RepositoryTag {
    /// Name of the tag, such as `v3.2.1`.
    pub identifier: String,
    /// Long identifier of the tagged commit.
    pub hash: String,
}

/// A user of a repository.
#[derive(Clone, Debug)]
pub struct RepositoryUser {
    /// Name of the user.
    pub name: String,
    /// E-mail address of the user.
    pub email: String,
}

impl RepositoryUser {
    /// Creates a user from a name and an e-mail address.
    pub fn new(username: String, useremail: String) -> (r: RepositoryUser)
        ensures
            r.name == username,
            r.email == useremail,
    {
        RepositoryUser { name: username, email: useremail }
    }
}

/// A value handed from one stage of a release to another.
#[derive(Clone, Debug)]
pub enum Value {
    String(String),
    Commits(Vec<Commit>),
    User(RepositoryUser),
    Tag(RepositoryTag),
    ReleaseAction(ReleaseAction),
}

impl Value {
    /// The text, if the value is one.
    pub fn as_string(&self) -> (r: Option<&str>)
        ensures
            self is String <==> r is Some,
            r matches Some(s) ==> s@ == self->String_0@,
    {
        match self {
            Value::String(s) => Some(s.as_str()),
            _ => None,
        }
    }

    /// A copy of the commits, if the value holds commits.
    pub fn as_commits(&self) -> (r: Option<Vec<Commit>>)
        ensures
            self is Commits <==> r is Some,
            r matches Some(v) ==> v@ == self->Commits_0@,
    {
        match self {
            Value::Commits(commits) => {
                let mut out: Vec<Commit> = Vec::new();
                let mut i: usize = 0;
                while i < commits.len()
                    invariant
                        i <= commits@.len(),
                        out@ == commits@.subrange(0, i as int),
                    decreases commits@.len() - i,
                {
                    out.push(commits[i].clone());
                    i = i + 1;
                    assert(out@ =~= commits@.subrange(0, i as int));
                }
                assert(out@ =~= commits@);
                Some(out)
            },
            _ => None,
        }
    }

    /// A copy of the tag, if the value is one.
    pub fn as_tag(&self) -> (r: Option<RepositoryTag>)
        ensures
            self is Tag <==> r is Some,
            r matches Some(t) ==> t.identifier == self->Tag_0.identifier && t.hash
                == self->Tag_0.hash,
    {
        match self {
            Value::Tag(t) => Some(RepositoryTag { identifier: t.identifier.clone(), hash: t.hash.clone() }),
            _ => None,
        }
    }

    /// A copy of the user, if the value is one.
    pub fn as_user(&self) -> (r: Option<RepositoryUser>)
        ensures
            self is User <==> r is Some,
            r matches Some(u) ==> u.name == self->User_0.name && u.email == self->User_0.email,
    {
        match self {
            Value::User(u) => Some(RepositoryUser { name: u.name.clone(), email: u.email.clone() }),
            _ => None,
        }
    }

    /// The release action, if the value is one.
    pub fn as_release_action(&self) -> (r: Option<ReleaseAction>)
        ensures
            self is ReleaseAction <==> r is Some,
            r matches Some(a) ==> a == self->ReleaseAction_0,
    {
        match self {
            Value::ReleaseAction(a) => Some(*a),
            _ => None,
        }
    }
}

} // verus!
