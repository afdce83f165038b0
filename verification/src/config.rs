//! Configuration of the daemon: the worker specifications and the
//! routing table, with the referential-integrity check that must pass
//! before the hub is allowed to start.
//!
//! The configuration is read from disk and decoded by the embedding
//! program, which hands the result over as these plain values.

use vstd::prelude::*;

verus! {

/// How to authenticate against a mail server.
pub enum AuthMethod {
    NoAuth,
    Plain { user: String, password: String },
    Login { user: String, password: String },
}

/// Transport encryption of an SMTP connection.
pub enum Encryption {
    Unencrypted,
    Ssl,
    Starttls,
}

/// A source that polls an IMAP mailbox on a fixed interval.
pub struct ImapPollSourceConfig {
    pub server: String,
    pub port: u16,
    pub interval: u64,
    pub keep: bool,
    pub auth: AuthMethod,
}

/// A source that waits inside IMAP IDLE and renews the session
/// periodically.
pub struct ImapIdleSourceConfig {
    pub server: String,
    pub port: u16,
    pub path: String,
    pub renewinterval: u64,
    pub keep: bool,
    pub auth: AuthMethod,
}

/// A synthetic source that emits a test mail after `delay` seconds and
/// then every `interval` seconds.
pub struct TestSourceConfig {
    pub delay: u64,
    pub interval: u64,
}

/// The specification of one source worker.
pub enum SourceConfig {
    Test(TestSourceConfig),
    ImapPoll(ImapPollSourceConfig),
    ImapIdle(ImapIdleSourceConfig),
}

/// A destination that relays mail to an SMTP server.
pub struct SmtpDestinationConfig {
    pub server: String,
    pub port: u16,
    pub encryption: Encryption,
    pub auth: Option<AuthMethod>,
    pub recipient: String,
}

/// A synthetic destination that fails its first `fail_n_first`
/// deliveries and accepts every one after that.
pub struct TestDestinationConfig {
    pub fail_n_first: u16,
}

/// A destination that pipes each mail into a child process.
pub struct ExecDestinationConfig {
    pub executable: String,
    pub arguments: Option<Vec<String>>,
    pub environment: Option<Vec<(String, String)>>,
}

/// The specification of one destination worker.
pub enum DestinationConfig {
    Test(TestDestinationConfig),
    Smtp(SmtpDestinationConfig),
    Exec(ExecDestinationConfig),
}

/// A retry agent that buffers failed deliveries in memory only.
pub struct MemoryRetryAgentConfig {
    pub delay: u64,
}

/// A retry agent that additionally persists each buffered delivery as a
/// file under `path`.
pub struct FilesystemRetryAgentConfig {
    pub delay: u64,
    pub path: String,
}

/// The specification of the retry agent, if one is configured.
pub enum RetryAgentConfig {
    Memory(MemoryRetryAgentConfig),
    Filesystem(FilesystemRetryAgentConfig),
}

/// The whole configuration: named destinations, named sources, an
/// optional retry agent, and the routing table from source name to the
/// ordered list of destination names.
pub struct ConfigContainer {
    pub destinations: Vec<(String, DestinationConfig)>,
    pub sources: Vec<(String, SourceConfig)>,
    pub retryagent: Option<RetryAgentConfig>,
    pub mappings: Vec<(String, Vec<String>)>,
}

/// A dangling reference found while checking the routing table.
pub enum ConfigError {
    /// A mapping key does not name a configured source.
    UnknownMappingSource { name: String },
    /// A mapping entry lists a name that is not a configured destination.
    UnknownMappingDestination { name: String },
    /// A configured source does not appear as a mapping key.
    UnmappedSource { name: String },
}

/// Whether some entry of `entries` is named `name`.
pub open spec fn named_entry_exists<T>(entries: Seq<(String, T)>, name: Seq<char>) -> bool {
    exists|i: int| 0 <= i < entries.len() && entries[i].0@ == name
}

/// Whether the mapping entry at position `i` mentions only configured
/// names: its key names a source and each listed value names a
/// destination.
pub open spec fn mapping_entry_resolves(c: ConfigContainer, i: int) -> bool {
    &&& named_entry_exists(c.sources@, c.mappings@[i].0@)
    &&& forall|j: int|
        0 <= j < c.mappings@[i].1@.len() ==> named_entry_exists(
            c.destinations@,
            #[trigger] c.mappings@[i].1@[j]@,
        )
}

/// Whether every name a mapping mentions is configured.
pub open spec fn mappings_resolve(c: ConfigContainer) -> bool {
    forall|i: int| 0 <= i < c.mappings@.len() ==> #[trigger] mapping_entry_resolves(c, i)
}

/// Whether every configured source appears as a mapping key.
pub open spec fn sources_all_mapped(c: ConfigContainer) -> bool {
    forall|i: int|
        0 <= i < c.sources@.len() ==> #[trigger] named_entry_exists(
            c.mappings@,
            c.sources@[i].0@,
        )
}

/// Referential integrity of the routing table.
pub open spec fn routes_valid(c: ConfigContainer) -> bool {
    mappings_resolve(c) && sources_all_mapped(c)
}

/// Whether two strings hold the same characters.
fn str_eq(a: &String, b: &String) -> (r: bool)
    ensures
        r == (a@ == b@),
{
    a.eq(b)
}

/// Whether some entry of `entries` is named `name`.
fn find_named_entry<T>(entries: &Vec<(String, T)>, name: &String) -> (r: bool)
    ensures
        r == named_entry_exists(entries@, name@),
{
    let n = entries.len();
    for i in 0..n
        invariant
            n == entries.len(),
            forall|k: int| 0 <= k < i ==> entries@[k].0@ != name@,
    {
        if str_eq(&entries[i].0, name) {
            return true;
        }
    }
    false
}

impl ConfigContainer {
    /// Checks the routing table for dangling references: succeeds exactly
    /// when every mapping key names a configured source, every mapped
    /// value names a configured destination, and every configured source
    /// has a mapping.  On failure the error carries one offending name.
    ///
    /// The filesystem retry agent additionally needs its directory to
    /// exist; that is a property of the machine, not of these values, and
    /// the embedding checks it when it creates the agent (see
    /// [`ConfigContainer::filesystem_retry_path`]).
    pub fn validate(&self) -> (r: Result<(), ConfigError>)
        ensures
            r is Ok <==> routes_valid(*self),
            r matches Err(ConfigError::UnknownMappingSource { name }) ==> named_entry_exists(
                self.mappings@,
                name@,
            ) && !named_entry_exists(self.sources@, name@),
            r matches Err(ConfigError::UnknownMappingDestination { name }) ==> !named_entry_exists(
                self.destinations@,
                name@,
            ),
            r matches Err(ConfigError::UnmappedSource { name }) ==> named_entry_exists(
                self.sources@,
                name@,
            ) && !named_entry_exists(self.mappings@, name@),
    {
        let nm = self.mappings.len();
        for i in 0..nm
            invariant
                nm == self.mappings.len(),
                forall|k: int| 0 <= k < i ==> #[trigger] mapping_entry_resolves(*self, k),
        {
            let srcname = &self.mappings[i].0;
            if !find_named_entry(&self.sources, srcname) {
                proof {
                    assert(!mapping_entry_resolves(*self, i as int));
                }
                return Err(ConfigError::UnknownMappingSource { name: srcname.clone() });
            }
            let dsts = &self.mappings[i].1;
            let nd = dsts.len();
            for j in 0..nd
                invariant
                    i < nm == self.mappings.len(),
                    nd == dsts.len(),
                    dsts@ == self.mappings@[i as int].1@,
                    named_entry_exists(self.sources@, self.mappings@[i as int].0@),
                    forall|k: int|
                        0 <= k < j ==> named_entry_exists(self.destinations@, #[trigger] dsts@[k]@),
            {
                if !find_named_entry(&self.destinations, &dsts[j]) {
                    proof {
                        assert(!mapping_entry_resolves(*self, i as int));
                    }
                    return Err(ConfigError::UnknownMappingDestination { name: dsts[j].clone() });
                }
            }
            proof {
                assert(mapping_entry_resolves(*self, i as int));
            }
        }
        let ns = self.sources.len();
        for i in 0..ns
            invariant
                ns == self.sources.len(),
                mappings_resolve(*self),
                forall|k: int|
                    0 <= k < i ==> named_entry_exists(self.mappings@, #[trigger] self.sources@[k].0@),
        {
            let srcname = &self.sources[i].0;
            if !find_named_entry(&self.mappings, srcname) {
                proof {
                    assert(!sources_all_mapped(*self)) by {
                        assert(!named_entry_exists(self.mappings@, self.sources@[i as int].0@));
                    }
                }
                return Err(ConfigError::UnmappedSource { name: srcname.clone() });
            }
        }
        Ok(())
    }

    /// The directory of the filesystem retry agent, if one is configured.
    /// The embedding must refuse to start when this directory does not
    /// exist.
    pub fn filesystem_retry_path(&self) -> (r: Option<&String>)
        ensures
            match r {
                Some(p) => self.retryagent matches Some(RetryAgentConfig::Filesystem(f)) && p@
                    == f.path@,
                None => !(self.retryagent matches Some(RetryAgentConfig::Filesystem(_))),
            },
    {
        match &self.retryagent {
            Some(RetryAgentConfig::Filesystem(f)) => Some(&f.path),
            _ => None,
        }
    }
}

} // verus!
