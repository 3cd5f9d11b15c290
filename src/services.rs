use std::collections::HashMap;
use vstd::prelude::*;

verus! {

broadcast use vstd::std_specs::hash::group_hash_axioms;

pub const SSH_PORT: u16 = 22;

pub const HTTP_PORT: u16 = 80;

pub const HTTPS_PORT: u16 = 443;

pub const MARIADB_PORT: u16 = 3306;

pub const POSTGRESQL_PORT: u16 = 5432;

/// The services a role declares: for each well-known service whether it
/// should accept connections, and any further ports by number.
#[derive(Debug)]
pub struct Services {
    pub ssh: Option<bool>,
    pub http: Option<bool>,
    pub https: Option<bool>,
    pub mariadb: Option<bool>,
    pub postgresql: Option<bool>,
    pub other: Option<HashMap<u16, bool>>,
}

/// `m` with the expectation of a named service applied, if it is declared.
pub open spec fn with_service(m: Map<u16, bool>, port: u16, declared: Option<bool>) -> Map<u16, bool> {
    match declared {
        Some(b) => m.insert(port, b),
        None => m,
    }
}

impl Services {
    /// The explicit port map, or the empty map where none is declared.
    pub open spec fn explicit_ports(&self) -> Map<u16, bool> {
        match self.other {
            Some(o) => o@,
            None => Map::empty(),
        }
    }

    /// The merged port policy: the explicit ports, then the named services in
    /// a fixed order, each overwriting an explicit entry for its port.
    pub open spec fn policy(&self) -> Map<u16, bool> {
        let m = with_service(self.explicit_ports(), SSH_PORT, self.ssh);
        let m = with_service(m, HTTP_PORT, self.http);
        let m = with_service(m, HTTPS_PORT, self.https);
        let m = with_service(m, MARIADB_PORT, self.mariadb);
        with_service(m, POSTGRESQL_PORT, self.postgresql)
    }

    /// What the named service on `port`, if there is one, declares.
    pub open spec fn named_value(&self, port: u16) -> Option<bool> {
        if port == SSH_PORT {
            self.ssh
        } else if port == HTTP_PORT {
            self.http
        } else if port == HTTPS_PORT {
            self.https
        } else if port == MARIADB_PORT {
            self.mariadb
        } else if port == POSTGRESQL_PORT {
            self.postgresql
        } else {
            None
        }
    }

    /// In the merged policy a port that a named service declares has the
    /// service's value, also where the explicit ports have it too; any other
    /// port is there exactly when the explicit ports have it, with their value.
    pub proof fn lemma_merge(&self, port: u16)
        ensures
            self.named_value(port) matches Some(b) ==> self.policy().contains_key(port)
                && self.policy()[port] == b,
            self.named_value(port) is None ==> {
                &&& self.policy().contains_key(port) == self.explicit_ports().contains_key(port)
                &&& self.explicit_ports().contains_key(port) ==> self.policy()[port]
                    == self.explicit_ports()[port]
            },
    {
    }

    /// The port policy of these services.
    pub fn to_port_checks(&self) -> (r: HashMap<u16, bool>)
        ensures
            r@ == self.policy(),
    {
        let mut ports = match &self.other {
            Some(values) => values.clone(),
            None => HashMap::new(),
        };
        if let Some(enabled) = self.ssh {
            ports.insert(SSH_PORT, enabled);
        }
        if let Some(enabled) = self.http {
            ports.insert(HTTP_PORT, enabled);
        }
        if let Some(enabled) = self.https {
            ports.insert(HTTPS_PORT, enabled);
        }
        if let Some(enabled) = self.mariadb {
            ports.insert(MARIADB_PORT, enabled);
        }
        if let Some(enabled) = self.postgresql {
            ports.insert(POSTGRESQL_PORT, enabled);
        }
        ports
    }
}

} // verus!
