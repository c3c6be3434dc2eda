//! What an application settles once, before it advertises or searches.

use crate::events::MetadataShape;
use crate::namespace::check_name;
use crate::namespace::is_namespace;
use crate::namespace::lemma_no_violation_iff_namespace;
use crate::namespace::normalized;
use crate::namespace::service_type;
use crate::namespace::service_type_of;
use crate::namespace::validate_name;
use crate::namespace::validated;
use crate::namespace::NameError;
use vstd::prelude::*;

verus! {

/// The settings for servers and clients to discover each other: the
/// namespace that both sides share, and which metadata a client keeps of a
/// discovered server.
#[derive(Debug)]
pub struct ServerBrowserPlugin {
    name: String,
    shape: MetadataShape,
}

impl ServerBrowserPlugin {
    #[verifier::type_invariant]
    spec fn well_named(self) -> bool {
        is_namespace(self.name@)
    }

    /// The namespace: the name that the plugin was made with, normalized.
    pub closed spec fn namespace(&self) -> Seq<char> {
        self.name@
    }

    /// Which metadata a client keeps of a discovered server.
    pub closed spec fn shape(&self) -> MetadataShape {
        self.shape
    }

    /// Create ServerBrowserPlugin
    ///
    /// `name` - A unique name that identifies your app so servers and clients
    /// can identify each other, needs to have same value on client and server.
    /// There are few restrictions on what is allowed as a name identifier:
    ///  - It can only contain ascii characters a-z and A-Z, numbers 0-9,
    ///    underscores `_` and hyphens `-`
    ///  - It must be at least one character long but no more than 15 characters
    ///    long
    ///  - Cannot start or end with hyphen or underscore
    ///  - Cannot have two consecutive hyphens or underscores.
    ///  - It must contain at least one letter.
    ///
    /// Most of the time you can use your crate name as a unique name, as long
    /// as it is not longer than 15 characters. For a name that may break a
    /// rule, use [`ServerBrowserPlugin::try_new`].
    pub fn new(name: &str) -> (plugin: Self)
        requires
            validated(name@) is Ok,
        ensures
            validated(name@) == Ok::<Seq<char>, NameError>(plugin.namespace()),
            is_namespace(plugin.namespace()),
            plugin.shape() == MetadataShape::Full,
    {
        ServerBrowserPlugin { name: validate_name(name), shape: MetadataShape::Full }
    }

    /// Like [`ServerBrowserPlugin::new`], for a name that may break a rule:
    /// returns the first rule that it breaks.
    pub fn try_new(name: &str) -> (made: Result<Self, NameError>)
        ensures
            match made {
                Ok(plugin) => {
                    &&& validated(name@) == Ok::<Seq<char>, NameError>(plugin.namespace())
                    &&& is_namespace(plugin.namespace())
                    &&& plugin.shape() == MetadataShape::Full
                },
                Err(error) => validated(name@) == Err::<Seq<char>, NameError>(error),
            },
    {
        match check_name(name) {
            Ok(namespace) => {
                proof {
                    lemma_no_violation_iff_namespace(normalized(name@));
                }
                Ok(ServerBrowserPlugin { name: namespace, shape: MetadataShape::Full })
            },
            Err(error) => Err(error),
        }
    }

    /// The same settings, but for the metadata that a client keeps of a
    /// discovered server.
    pub fn with_metadata_shape(self, shape: MetadataShape) -> (plugin: Self)
        ensures
            plugin.namespace() == self.namespace(),
            plugin.shape() == shape,
    {
        proof {
            use_type_invariant(&self);
        }
        ServerBrowserPlugin { name: self.name, shape }
    }

    /// The namespace.
    pub fn name(&self) -> (name: &str)
        ensures
            name@ == self.namespace(),
            is_namespace(name@),
    {
        proof {
            use_type_invariant(self);
        }
        self.name.as_str()
    }

    /// Which metadata a client keeps of a discovered server.
    pub fn metadata_shape(&self) -> (shape: MetadataShape)
        ensures
            shape == self.shape(),
    {
        self.shape
    }

    /// The service type under which the namespace's servers are advertised
    /// and browsed.
    pub fn service_type(&self) -> (service: String)
        ensures
            service@ == service_type_of(self.namespace()),
            is_namespace(self.namespace()),
    {
        proof {
            use_type_invariant(self);
        }
        service_type(self.name.as_str())
    }
}

impl Clone for ServerBrowserPlugin {
    fn clone(&self) -> (copy: Self)
        ensures
            copy.namespace() == self.namespace(),
            copy.shape() == self.shape(),
    {
        proof {
            use_type_invariant(self);
        }
        ServerBrowserPlugin { name: self.name.clone(), shape: self.shape }
    }
}

} // verus!
