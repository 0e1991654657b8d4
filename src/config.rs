//! Connection settings, and the choice between a cluster and a single node.
use vstd::prelude::*;

verus! {

/// Where the store runs: the addresses of a cluster's nodes, the password
/// they share, or the address of a single node.
#[derive(Debug, Default, Clone)]
pub struct RedisDB {
    pub nodes: Option<Vec<String>>,
    pub password: Option<String>,
    pub node: Option<String>,
}

/// The connection that a configuration asks for.
pub enum ConnectionTarget {
    Cluster { nodes: Vec<String>, password: String },
    Single { node: String },
}

impl RedisDB {
    /// A cluster where node addresses are given (with the password, or the
    /// empty one), otherwise the single node where its address is given, and
    /// `None` where neither is.
    pub fn connection_target(&self) -> (r: Option<ConnectionTarget>)
        ensures
            match self.nodes {
                Some(ns) => match r {
                    Some(ConnectionTarget::Cluster { nodes, password }) => {
                        &&& nodes.deep_view() == ns.deep_view()
                        &&& password@ == match self.password {
                            Some(p) => p@,
                            None => Seq::<char>::empty(),
                        }
                    },
                    _ => false,
                },
                None => match self.node {
                    Some(n) => match r {
                        Some(ConnectionTarget::Single { node }) => node@ == n@,
                        _ => false,
                    },
                    None => r is None,
                },
            },
    {
        match &self.nodes {
            Some(ns) => {
                let password = match &self.password {
                    Some(p) => p.clone(),
                    None => String::new(),
                };
                Some(ConnectionTarget::Cluster { nodes: ns.clone(), password })
            },
            None => match &self.node {
                Some(n) => Some(ConnectionTarget::Single { node: n.clone() }),
                None => None,
            },
        }
    }
}

} // verus!
