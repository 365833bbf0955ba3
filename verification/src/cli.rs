//! Command-line settings of a node: validation, defaults and the plan a
//! node starts from.

use vstd::prelude::*;
use vstd::string::*;

use crate::decimal::{
    all_digits, decimal, lemma_decimal_digits, lemma_decimal_parses, numeral_value, parses_as_u64,
    push_decimal,
};
use crate::storage::S3Config;
use crate::text::contains_char;

verus! {

/// The id a node takes when it creates a new cluster.
pub const FIRST_NODE_ID: u64 = 1;

/// The settings of a node, as given on the command line and in the
/// environment. Paths are held as text.
pub struct Args {
    /// The existing cluster address to join, `IP:PORT`.
    pub join: Option<String>,
    /// Whether a new cluster is created.
    pub init: bool,
    /// The hostname advertised to other nodes.
    pub hostname: Option<String>,
    /// The address to listen on.
    pub listen_addr: String,
    /// The port to listen on.
    pub listen_port: u16,
    /// The working directory, from which files are served.
    pub work_dir: Option<String>,
    /// The data directory of the replicated store.
    pub data_dir: Option<String>,
    /// The S3 endpoint.
    pub s3_endpoint: String,
    /// Whether S3 URLs are path style.
    pub s3_path_style: Option<bool>,
    /// The S3 bucket name.
    pub s3_bucket: String,
    /// The S3 secret access key.
    pub s3_secret_key: String,
    /// The S3 access key id.
    pub s3_access_key_id: String,
}

/// Message for settings that neither create nor join a cluster.
pub open spec fn missing_mode_message() -> &'static str {
    "Either 'init' or 'join' should be set."
}

/// Message for a join address without a `:`.
pub open spec fn join_format_message() -> &'static str {
    "The 'join' address should be in the format 'IP:PORT'."
}

/// Message for a listen port of 0.
pub open spec fn zero_port_message() -> &'static str {
    "The 'listen_port' should be a non-zero value."
}

/// Whether the join address, where there is one, holds a `:`.
pub open spec fn join_well_formed(join: Option<String>) -> bool {
    match join {
        Some(addr) => addr@.contains(':'),
        None => true,
    }
}

/// Which defaults a node still lacks.
pub struct MissingDefaults {
    pub work_dir: bool,
    pub data_dir: bool,
    pub hostname: bool,
}

/// Values that fill settings left unset.
pub struct Defaults {
    pub work_dir: Option<String>,
    pub data_dir: Option<String>,
    pub hostname: Option<String>,
}

/// The setting kept where it was given, else the supplied default.
pub open spec fn or_default(given: Option<String>, supplied: Option<String>) -> Option<String> {
    match given {
        Some(v) => Some(v),
        None => supplied,
    }
}

/// Defaults settle: once a setting is given or filled, a later call of
/// `set_defaults` keeps it, whatever that call supplies; after one call no
/// setting is missing, so nothing needs supplying again.
pub proof fn lemma_defaults_settle(given: Option<String>, first: Option<String>, second: Option<String>)
    requires
        given is None ==> first is Some,
    ensures
        or_default(given, first) is Some,
        or_default(or_default(given, first), second) == or_default(given, first),
{
}

/// A join address is well formed exactly where it holds a `:` somewhere,
/// however many it holds.
pub proof fn lemma_join_address_needs_a_colon(addr: String)
    ensures
        join_well_formed(Some(addr)) <==> exists|i: int| 0 <= i < addr@.len() && addr@[i] == ':',
        forall|i: int, j: int|
            0 <= i < j < addr@.len() && addr@[i] == ':' && addr@[j] == ':' ==> join_well_formed(
                Some(addr),
            ),
        join_well_formed(None),
{
    if exists|i: int| 0 <= i < addr@.len() && addr@[i] == ':' {
        let i = choose|i: int| 0 <= i < addr@.len() && addr@[i] == ':';
        assert(addr@.contains(addr@[i]));
    }
    assert forall|i: int, j: int|
        0 <= i < j < addr@.len() && addr@[i] == ':' && addr@[j] == ':' implies join_well_formed(
        Some(addr),
    ) by {
        assert(addr@.contains(addr@[i]));
    }
}

/// The host part of an advertised address: the hostname, or `localhost`.
pub open spec fn advertised_host(hostname: Option<String>) -> Seq<char> {
    match hostname {
        Some(h) => h@,
        None => seq!['l', 'o', 'c', 'a', 'l', 'h', 'o', 's', 't'],
    }
}

/// The advertised address is the host, a `:`, and then digits that read
/// back as the whole listen port, for every port.
pub proof fn lemma_advertised_port_reads_back(hostname: Option<String>, port: u16)
    ensures
        ({
            let s = advertised_addr_of(hostname, port);
            let h = advertised_host(hostname);
            &&& s.len() > h.len() + 1
            &&& s.take(h.len() as int) == h
            &&& s[h.len() as int] == ':'
            &&& all_digits(s.skip(h.len() as int + 1))
            &&& parses_as_u64(s.skip(h.len() as int + 1))
            &&& numeral_value(s.skip(h.len() as int + 1)) == port
        }),
{
    let s = advertised_addr_of(hostname, port);
    let h = advertised_host(hostname);
    lemma_decimal_digits(port as nat);
    lemma_decimal_parses(port as u64);
    assert(s.take(h.len() as int) =~= h);
    assert(s.skip(h.len() as int + 1) =~= decimal(port as nat));
}

/// The listen endpoint of a start plan is the listen address, a `:`, and
/// then digits that read back as the whole listen port.
pub proof fn lemma_listen_port_reads_back(listen_addr: Seq<char>, port: u16)
    ensures
        ({
            let s = listen_addr + seq![':'] + decimal(port as nat);
            &&& s.take(listen_addr.len() as int) == listen_addr
            &&& s[listen_addr.len() as int] == ':'
            &&& all_digits(s.skip(listen_addr.len() as int + 1))
            &&& parses_as_u64(s.skip(listen_addr.len() as int + 1))
            &&& numeral_value(s.skip(listen_addr.len() as int + 1)) == port
        }),
{
    let s = listen_addr + seq![':'] + decimal(port as nat);
    lemma_decimal_digits(port as nat);
    lemma_decimal_parses(port as u64);
    assert(s.take(listen_addr.len() as int) =~= listen_addr);
    assert(s.skip(listen_addr.len() as int + 1) =~= decimal(port as nat));
}

/// `host:port`, with `localhost` where no hostname is set.
pub open spec fn advertised_addr_of(hostname: Option<String>, port: u16) -> Seq<char> {
    let host = match hostname {
        Some(h) => h@,
        None => seq!['l', 'o', 'c', 'a', 'l', 'h', 'o', 's', 't'],
    };
    host + seq![':'] + decimal(port as nat)
}

/// What a node starts from once its settings are complete.
pub struct StartPlan {
    /// The id of this node.
    pub node_id: u64,
    /// Whether this node initializes a new cluster.
    pub new_cluster: bool,
    /// The advertised hostname.
    pub hostname: String,
    /// The `host:port` address other nodes reach this node at.
    pub advertised_addr: String,
    /// The `addr:port` text the servers listen on.
    pub listen_endpoint: String,
    /// The address of the cluster to join, if any.
    pub join_leader: Option<String>,
    /// The working directory.
    pub work_dir: String,
    /// The data directory.
    pub data_dir: String,
    /// The S3 settings.
    pub s3_config: S3Config,
}

impl Args {
    /// Checks the settings: a node either creates or joins a cluster, a
    /// join address has the form `IP:PORT`, and the port is not 0.
    pub fn validate(&self) -> (r: Result<(), &'static str>)
        ensures
            r is Ok <==> ((self.init || self.join is Some) && join_well_formed(self.join)
                && self.listen_port != 0),
            !self.init && self.join is None ==> r == Err::<(), &'static str>(
                missing_mode_message(),
            ),
            (self.init || self.join is Some) && !join_well_formed(self.join) ==> r == Err::<
                (),
                &'static str,
            >(join_format_message()),
            (self.init || self.join is Some) && join_well_formed(self.join) && self.listen_port
                == 0 ==> r == Err::<(), &'static str>(zero_port_message()),
    {
        if !self.init && self.join.is_none() {
            return Err("Either 'init' or 'join' should be set.");
        }
        if let Some(addr) = &self.join {
            if !contains_char(addr.as_str(), ':') {
                return Err("The 'join' address should be in the format 'IP:PORT'.");
            }
        }
        if self.listen_port == 0 {
            return Err("The 'listen_port' should be a non-zero value.");
        }
        Ok(())
    }

    /// Which of the working directory, data directory and hostname are unset.
    pub fn missing_defaults(&self) -> (m: MissingDefaults)
        ensures
            m.work_dir == self.work_dir is None,
            m.data_dir == self.data_dir is None,
            m.hostname == self.hostname is None,
    {
        MissingDefaults {
            work_dir: self.work_dir.is_none(),
            data_dir: self.data_dir.is_none(),
            hostname: self.hostname.is_none(),
        }
    }

    /// Fills the working directory, data directory and hostname where they
    /// are unset, from values supplied for each unset one; settings that
    /// were given are kept. Afterwards all three are set.
    pub fn set_defaults(&mut self, supplied: Defaults)
        requires
            old(self).work_dir is None ==> supplied.work_dir is Some,
            old(self).data_dir is None ==> supplied.data_dir is Some,
            old(self).hostname is None ==> supplied.hostname is Some,
        ensures
            final(self).work_dir is Some,
            final(self).data_dir is Some,
            final(self).hostname is Some,
            final(self).work_dir == or_default(old(self).work_dir, supplied.work_dir),
            final(self).data_dir == or_default(old(self).data_dir, supplied.data_dir),
            final(self).hostname == or_default(old(self).hostname, supplied.hostname),
            final(self).join == old(self).join,
            final(self).init == old(self).init,
            final(self).listen_addr == old(self).listen_addr,
            final(self).listen_port == old(self).listen_port,
            final(self).s3_endpoint == old(self).s3_endpoint,
            final(self).s3_path_style == old(self).s3_path_style,
            final(self).s3_bucket == old(self).s3_bucket,
            final(self).s3_secret_key == old(self).s3_secret_key,
            final(self).s3_access_key_id == old(self).s3_access_key_id,
    {
        if self.work_dir.is_none() {
            self.work_dir = supplied.work_dir;
        }
        if self.data_dir.is_none() {
            self.data_dir = supplied.data_dir;
        }
        if self.hostname.is_none() {
            self.hostname = supplied.hostname;
        }
    }

    /// The `host:port` address this node advertises.
    pub fn advertised_addr(&self) -> (a: String)
        ensures
            a@ == advertised_addr_of(self.hostname, self.listen_port),
    {
        let mut a = match &self.hostname {
            Some(h) => h.clone(),
            None => {
                proof {
                    reveal_strlit("localhost");
                }
                String::from_str("localhost")
            },
        };
        proof {
            reveal_strlit(":");
        }
        a.append(":");
        push_decimal(self.listen_port as u64, &mut a);
        assert(a@ =~= advertised_addr_of(self.hostname, self.listen_port));
        a
    }

    /// The S3 settings; URLs are not path style unless that is set.
    pub fn s3_config(&self) -> (c: S3Config)
        ensures
            c.endpoint == self.s3_endpoint,
            c.path_style == (self.s3_path_style == Some(true)),
            c.bucket == self.s3_bucket,
            c.secret_key == self.s3_secret_key,
            c.access_key_id == self.s3_access_key_id,
    {
        S3Config {
            endpoint: self.s3_endpoint.clone(),
            path_style: match self.s3_path_style {
                Some(b) => b,
                None => false,
            },
            bucket: self.s3_bucket.clone(),
            secret_key: self.s3_secret_key.clone(),
            access_key_id: self.s3_access_key_id.clone(),
        }
    }

    /// The plan of a node with id `node_id`, whose settings are complete:
    /// the node with the first id creates the cluster.
    pub fn start_plan(&self, node_id: u64) -> (p: StartPlan)
        requires
            self.hostname is Some,
            self.work_dir is Some,
            self.data_dir is Some,
        ensures
            p.node_id == node_id,
            p.new_cluster == (node_id == FIRST_NODE_ID),
            p.hostname == self.hostname->0,
            p.advertised_addr@ == advertised_addr_of(self.hostname, self.listen_port),
            p.listen_endpoint@ == self.listen_addr@ + seq![':'] + decimal(self.listen_port as nat),
            p.join_leader == self.join,
            p.work_dir == self.work_dir->0,
            p.data_dir == self.data_dir->0,
            p.s3_config.endpoint == self.s3_endpoint,
            p.s3_config.path_style == (self.s3_path_style == Some(true)),
            p.s3_config.bucket == self.s3_bucket,
            p.s3_config.secret_key == self.s3_secret_key,
            p.s3_config.access_key_id == self.s3_access_key_id,
    {
        let mut listen = self.listen_addr.clone();
        proof {
            reveal_strlit(":");
        }
        listen.append(":");
        push_decimal(self.listen_port as u64, &mut listen);
        assert(listen@ =~= self.listen_addr@ + seq![':'] + decimal(self.listen_port as nat));
        StartPlan {
            node_id,
            new_cluster: node_id == FIRST_NODE_ID,
            hostname: match &self.hostname {
                Some(h) => h.clone(),
                None => String::new(),
            },
            advertised_addr: self.advertised_addr(),
            listen_endpoint: listen,
            join_leader: match &self.join {
                Some(j) => Some(j.clone()),
                None => None,
            },
            work_dir: match &self.work_dir {
                Some(w) => w.clone(),
                None => String::new(),
            },
            data_dir: match &self.data_dir {
                Some(d) => d.clone(),
                None => String::new(),
            },
            s3_config: self.s3_config(),
        }
    }
}

} // verus!
