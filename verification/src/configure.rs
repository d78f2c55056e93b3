//! The resolved, validated in-memory form of the configuration that the core
//! consumes: monitored components and their probe-able addresses.
//!
//! Reading and decoding the configuration file happens outside this crate;
//! the loader hands over plain values.

use vstd::prelude::*;

verus! {

/// One probe-able address of a component: an endpoint string plus the name
/// of the protocol to probe it with.
#[derive(Clone, Debug)]
pub struct Service {
    pub address: String,
    pub service_type: String,
}

impl Service {
    pub fn new(address: String, service_type: String) -> (r: Self)
        ensures
            r.address@ == address@,
            r.service_type@ == service_type@,
    {
        Self { address, service_type }
    }

    pub fn address(&self) -> (r: &str)
        ensures
            r@ == self.address@,
    {
        self.address.as_str()
    }

    pub fn service_type(&self) -> (r: &str)
        ensures
            r@ == self.service_type@,
    {
        self.service_type.as_str()
    }
}

/// One monitored component: identity, optional status-page linkage, and the
/// addresses it is probed at.
#[derive(Clone, Debug)]
pub struct Component {
    pub uuid: String,
    pub name: String,
    pub identity_id: String,
    pub page: String,
    pub addresses: Vec<Service>,
}

impl Component {
    pub fn new(uuid: String, name: String, identity_id: String, page: String) -> (r: Self)
        ensures
            r.uuid@ == uuid@,
            r.name@ == name@,
            r.identity_id@ == identity_id@,
            r.page@ == page@,
            r.addresses@.len() == 0,
    {
        Self { uuid, name, identity_id, page, addresses: Vec::new() }
    }

    pub fn new_with_addresses(
        uuid: String,
        name: String,
        identity_id: String,
        page: String,
        addresses: Vec<Service>,
    ) -> (r: Self)
        ensures
            r.uuid@ == uuid@,
            r.name@ == name@,
            r.identity_id@ == identity_id@,
            r.page@ == page@,
            r.addresses == addresses,
    {
        Self { uuid, name, identity_id, page, addresses }
    }

    /// The identity key the component is reported under.
    pub fn report_id(&self) -> (r: &str)
        ensures
            r@ == self.identity_id@,
    {
        self.identity_id.as_str()
    }

    pub fn page(&self) -> (r: &str)
        ensures
            r@ == self.page@,
    {
        self.page.as_str()
    }

    pub fn uuid(&self) -> (r: &str)
        ensures
            r@ == self.uuid@,
    {
        self.uuid.as_str()
    }

    pub fn name(&self) -> (r: &str)
        ensures
            r@ == self.name@,
    {
        self.name.as_str()
    }

    pub fn addresses(&self) -> (r: &Vec<Service>)
        ensures
            r == &self.addresses,
    {
        &self.addresses
    }

    /// Whether confirmed changes of this component are pushed upstream: both
    /// the report identity and the page must be set.
    pub fn need_push(&self) -> (r: bool)
        ensures
            r == (self.identity_id@.len() != 0 && self.page@.len() != 0),
    {
        !self.identity_id.as_str().is_empty() && !self.page.as_str().is_empty()
    }
}

} // verus!
