//! The persisted configuration of an allocation.

use vstd::prelude::*;
use vstd::bytes::*;
use vstd::slice::*;
use vstd::string::*;

verus! {

/// The SHA-256 digest of bytes.
pub uninterp spec fn sha256_digest(data: Seq<u8>) -> Seq<u8>;

/// `Sha256::digest` of the `sha2` crate: the digest of the bytes, which
/// depends on them alone and has 32 bytes.
#[verifier::external_body]
fn sha256(data: &[u8]) -> (digest: Vec<u8>)
    ensures
        digest@ == sha256_digest(data@),
        digest@.len() == 32,
{
    <sha2::Sha256 as sha2::Digest>::digest(data).to_vec()
}

/// The identity of a node of the cluster.
pub type NodeId = u64;

/// The identity of a database.
pub type DatabaseId = u128;

/// The identity of the database with the given name, given by the bytes of
/// the name: the first 16 bytes of the name's digest, read as a number,
/// little-endian.
pub open spec fn database_id_of(name: Seq<u8>) -> DatabaseId {
    spec_u128_from_le_bytes(sha256_digest(name).subrange(0, 16))
}

/// The identity of the database with the given name. The same name gives the
/// same identity on every node.
pub fn database_id(db_name: &str) -> (id: DatabaseId)
    ensures
        id == database_id_of(db_name.spec_bytes()),
{
    let digest = sha256(db_name.as_bytes());
    u128_from_le_bytes(slice_subrange(digest.as_slice(), 0, 16))
}

/// The version of the configuration's form that this server writes and
/// reads.
pub const CONFIG_VERSION: u32 = 1;

/// The part of a stored configuration that every version of its form has:
/// the number of that version.
#[derive(Clone, Copy, Debug, PartialEq, Eq, Structural)]
pub struct ConfigVersion {
    pub config_version: u32,
}

/// Why a stored configuration is not taken.
#[derive(Clone, Copy, Debug, PartialEq, Eq, Structural)]
pub enum ConfigError {
    /// The configuration has a form that this server does not know.
    UnsupportedVersion { found: u32 },
}

impl ConfigVersion {
    /// Accepts the version that this server knows and refuses every other.
    pub fn check(&self) -> (r: Result<(), ConfigError>)
        ensures
            r == if self.config_version == CONFIG_VERSION {
                Ok::<(), ConfigError>(())
            } else {
                Err(ConfigError::UnsupportedVersion { found: self.config_version })
            },
    {
        if self.config_version == CONFIG_VERSION {
            Ok(())
        } else {
            Err(ConfigError::UnsupportedVersion { found: self.config_version })
        }
    }
}

/// A span of time: whole seconds and the nanoseconds beyond them.
#[derive(Clone, Copy, Debug, PartialEq, Eq, Structural)]
pub struct Duration {
    pub secs: u64,
    pub nanos: u32,
}

/// The configuration of an allocation.
#[derive(Debug, PartialEq, Eq)]
pub struct AllocConfig {
    pub max_conccurent_connection: u32,
    pub db_name: String,
    pub db_config: DbConfig,
}

/// The role of a database, with what the role needs.
#[derive(Clone, Copy, Debug, PartialEq, Eq, Structural)]
pub enum DbConfig {
    Primary {
        /// How many frames the replication log may hold before it is
        /// compacted.
        max_log_size: usize,
        /// The interval at which compaction is forced.
        replication_log_compact_interval: Option<Duration>,
    },
    Replica {
        primary_node_id: NodeId,
        proxy_request_timeout_duration: Duration,
    },
}

} // verus!
