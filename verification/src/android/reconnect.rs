//! Which stream failures a video read recovers from, and how a video is opened anew.

use crate::client::error::ClientError;
use crate::client::file::FileHandle;
use crate::client::negotiate::NegotiateConfig;
use crate::client::reconnect::fresh_recipe;
use crate::client::reconnect::is_retryable_client_error;
use crate::client::reconnect::path_open_settled;
use crate::client::reconnect::random_guid;
use crate::client::reconnect::retryable;
use crate::client::reconnect::ReadOnlyReconnectRecipe;
use crate::client::reconnect::RecipeView;
use crate::client::reconnect::ReconnectError;
use crate::client::reconnect::RestoreStep;
use crate::crypto::random_bytes;
use crate::stream::video::StreamError;
use vstd::prelude::*;

verus! {

/// Whether a failed read may be recovered by a new connection.
pub open spec fn stream_retryable(error: StreamError) -> bool {
    match error {
        StreamError::Client(client) => retryable(client),
        _ => false,
    }
}

/// Whether a failed read may be recovered by a new connection.
pub fn is_retryable_stream_error(error: &StreamError) -> (r: bool)
    ensures
        r == stream_retryable(*error),
{
    match error {
        StreamError::Client(client) => is_retryable_client_error(client),
        StreamError::Reconnect(_) => false,
        StreamError::InvalidConfig(_) => false,
        StreamError::OffsetOverflow => false,
    }
}

/// A recipe that opens a video by its path each time, as a client that is new to the server.
///
/// The identity captured from the very first CREATE response prevents a reconnect from silently
/// splicing bytes from a replacement file that happens to appear at the same path.
pub struct ReconnectRecipe {
    pub recipe: ReadOnlyReconnectRecipe,
}

impl View for ReconnectRecipe {
    type V = RecipeView;

    open spec fn view(&self) -> RecipeView {
        self.recipe@
    }
}

impl ReconnectRecipe {
    /// A recipe that has opened nothing yet.
    pub fn new(
        host: String,
        port: u16,
        share: String,
        path: String,
        username: String,
        password: String,
        domain: String,
        workstation: String,
    ) -> (r: Self)
        ensures
            r@ == fresh_recipe(
                host@,
                port,
                share@,
                path@,
                username@,
                password@,
                domain@,
                workstation@,
            ),
    {
        ReconnectRecipe {
            recipe: ReadOnlyReconnectRecipe::new(
                host,
                port,
                share,
                path,
                username,
                password,
                domain,
                workstation,
            ),
        }
    }

    /// What a fresh connection negotiates: a fresh client GUID and a fresh salt.
    pub fn negotiate_config(&self) -> (r: Result<NegotiateConfig, ReconnectError>)
        ensures
            r is Ok ==> r->Ok_0.is_modern() && r->Ok_0.preauth_salt@.len() == 32,
            r is Err ==> r == Err::<NegotiateConfig, _>(ReconnectError::RandomSource),
    {
        let client_guid = random_guid()?;
        match random_bytes(32) {
            Some(salt) => Ok(NegotiateConfig::modern(client_guid, salt)),
            None => Err(ReconnectError::RandomSource),
        }
    }

    /// Takes the outcome of opening the path.
    pub fn on_path_open(&mut self, outcome: Result<FileHandle, ClientError>) -> (r: RestoreStep)
        ensures
            path_open_settled(r, old(self)@, final(self)@, outcome),
    {
        self.recipe.on_path_open(outcome)
    }
}

} // verus!
