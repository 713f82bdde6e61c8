//! The settings that the server starts with.

use crate::models::GameConfig;
use vstd::prelude::*;
use vstd::string::*;

verus! {

/// The port that the server listens on where none is set.
pub const DEFAULT_PORT: u16 = 3000;

/// The settings of the server: where it listens, whom it lets in, how large
/// its worlds are and where its store is.
#[derive(Debug)]
pub struct AppConfig {
    pub server_port: Option<u16>,
    pub api_keys: Vec<String>,
    pub dev_mode: bool,
    pub game_config: GameConfig,
    pub redis_uri: Option<String>,
}

impl AppConfig {
    /// `key` is one of the keys of the settings.
    pub open spec fn knows_key(&self, key: Seq<char>) -> bool {
        exists|i: int| 0 <= i < self.api_keys@.len() && (#[trigger] self.api_keys@[i])@ == key
    }

    /// A player with this key is let in: the server runs in development
    /// mode, or the key is one of its keys.
    pub open spec fn accepts_spec(&self, key: Seq<char>) -> bool {
        self.dev_mode || self.knows_key(key)
    }

    /// Whether a player with this key is let in.
    pub fn accepts(&self, key: &String) -> (r: bool)
        ensures
            r == self.accepts_spec(key@),
    {
        if self.dev_mode {
            return true;
        }
        let mut i: usize = 0;
        while i < self.api_keys.len()
            invariant
                i <= self.api_keys.len(),
                forall|j: int| 0 <= j < i ==> (#[trigger] self.api_keys@[j])@ != key@,
            decreases self.api_keys.len() - i,
        {
            if self.api_keys[i] == *key {
                return true;
            }
            i += 1;
        }
        false
    }

    /// The port that the server listens on.
    pub fn port(&self) -> (r: u16)
        ensures
            r == match self.server_port {
                Some(p) => p,
                None => DEFAULT_PORT,
            },
    {
        match self.server_port {
            Some(p) => p,
            None => DEFAULT_PORT,
        }
    }

    /// The address of the store.
    pub fn redis_url(&self) -> (r: String)
        ensures
            r@ == match self.redis_uri {
                Some(uri) => uri@,
                None => "redis://127.0.0.1/"@,
            },
    {
        match &self.redis_uri {
            Some(uri) => uri.clone(),
            None => String::from_str("redis://127.0.0.1/"),
        }
    }
}

} // verus!
