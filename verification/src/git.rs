//! What the event processor knows of the local working copy.

use crate::config::{GitConfig, Repo};
use vstd::prelude::*;

verus! {

/// The identity under which the working copy commits, and the repository
/// it follows.
#[derive(Debug)]
pub struct GitRepository {
    pub ssh_key_file: String,
    pub user: String,
    pub email: String,
    pub remote: Repo,
}

impl GitRepository {
    pub fn from_config(git_config: &GitConfig, repo: &Repo) -> (r: Self)
        ensures
            r.ssh_key_file == git_config.ssh_key_file,
            r.user == git_config.user,
            r.email == git_config.email,
            r.remote == *repo,
    {
        GitRepository {
            ssh_key_file: git_config.ssh_key_file.clone(),
            user: git_config.user.clone(),
            email: git_config.email.clone(),
            remote: repo.duplicate(),
        }
    }

    /// The name the bot commits under and answers to.
    pub fn user(&self) -> (r: &str)
        ensures
            r@ == self.user@,
    {
        self.user.as_str()
    }
}

} // verus!
