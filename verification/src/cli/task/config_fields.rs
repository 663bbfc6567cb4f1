//! The configuration fields that `update-conf` may change, with the scope of
//! an update and the kind of value each one takes.
use crate::text::str_eq;
use vstd::prelude::*;

verus! {

/// Whether a field may change on one node alone or must change on all of them.
#[derive(Debug, Clone, Copy, PartialEq, Eq, Structural)]
pub enum FieldScope {
    /// Field can be updated on a specific node without affecting others
    NodeSpecific,
    /// Field must be updated across all nodes for consistency
    ClusterWide,
}

/// The kind of value a field takes.
#[derive(Debug, Clone, Copy, PartialEq, Eq, Structural)]
pub enum FieldValueType {
    /// String value (path, name, etc.)
    String,
    /// Boolean value (true/false)
    Boolean,
    /// Integer value
    Integer,
}

/// What the registry holds about a field.
#[derive(Debug, Clone)]
pub struct FieldMetadata {
    /// Description of the field's purpose
    pub description: &'static str,
    /// The update scope (node-specific or cluster-wide)
    pub scope: FieldScope,
    /// Example valid value
    pub example: &'static str,
    /// Value type (for validation)
    pub value_type: FieldValueType,
    /// Default value if not specified
    pub default_value: &'static str,
}

/// The contents of a field's metadata.
pub struct FieldMetadataView {
    pub description: Seq<char>,
    pub scope: FieldScope,
    pub example: Seq<char>,
    pub value_type: FieldValueType,
    pub default_value: Seq<char>,
}

impl View for FieldMetadata {
    type V = FieldMetadataView;

    open spec fn view(&self) -> FieldMetadataView {
        FieldMetadataView {
            description: self.description@,
            scope: self.scope,
            example: self.example@,
            value_type: self.value_type,
            default_value: self.default_value@,
        }
    }
}

/// The registry of fields: the metadata of the field called `name`, if it is one.
pub open spec fn field_registry(name: Seq<char>) -> Option<FieldMetadataView> {
    if name == "eloq_data_path"@ {
        Some(FieldMetadataView {
            description: "Path to the data directory for the EloqKV instance"@,
            scope: FieldScope::NodeSpecific,
            example: "/home/eloq/my_cluster/EloqKV/data/port-6379"@,
            value_type: FieldValueType::String,
            default_value: "/home/eloq/{cluster}/EloqKV/data/port-{port}"@,
        })
    } else if name == "enable_data_store"@ {
        Some(FieldMetadataView {
            description: "Whether to enable persistent data storage"@,
            scope: FieldScope::NodeSpecific,
            example: "true"@,
            value_type: FieldValueType::Boolean,
            default_value: "true"@,
        })
    } else if name == "enable_wal"@ {
        Some(FieldMetadataView {
            description: "Whether to enable Write Ahead Log for durability"@,
            scope: FieldScope::NodeSpecific,
            example: "true"@,
            value_type: FieldValueType::Boolean,
            default_value: "false"@,
        })
    } else if name == "max_connections"@ {
        Some(FieldMetadataView {
            description: "Maximum number of client connections"@,
            scope: FieldScope::NodeSpecific,
            example: "10000"@,
            value_type: FieldValueType::Integer,
            default_value: "5000"@,
        })
    } else if name == "timeout"@ {
        Some(FieldMetadataView {
            description: "Client connection timeout in seconds"@,
            scope: FieldScope::NodeSpecific,
            example: "300"@,
            value_type: FieldValueType::Integer,
            default_value: "60"@,
        })
    } else if name == "replication_factor"@ {
        Some(FieldMetadataView {
            description: "Number of replicas for each master"@,
            scope: FieldScope::ClusterWide,
            example: "2"@,
            value_type: FieldValueType::Integer,
            default_value: "1"@,
        })
    } else if name == "cluster_name"@ {
        Some(FieldMetadataView {
            description: "Name of the MonographDB cluster"@,
            scope: FieldScope::ClusterWide,
            example: "prod-cluster"@,
            value_type: FieldValueType::String,
            default_value: "default-cluster"@,
        })
    } else if name == "max_memory"@ {
        Some(FieldMetadataView {
            description: "Maximum memory usage in megabytes"@,
            scope: FieldScope::NodeSpecific,
            example: "4096"@,
            value_type: FieldValueType::Integer,
            default_value: "2048"@,
        })
    } else if name == "maxmemory_policy"@ {
        Some(FieldMetadataView {
            description: "Policy for memory eviction when max memory is reached"@,
            scope: FieldScope::NodeSpecific,
            example: "volatile-lru"@,
            value_type: FieldValueType::String,
            default_value: "noeviction"@,
        })
    } else if name == "tls_enabled"@ {
        Some(FieldMetadataView {
            description: "Whether to enable TLS encryption"@,
            scope: FieldScope::ClusterWide,
            example: "true"@,
            value_type: FieldValueType::Boolean,
            default_value: "false"@,
        })
    } else if name == "auth_required"@ {
        Some(FieldMetadataView {
            description: "Whether authentication is required for connections"@,
            scope: FieldScope::ClusterWide,
            example: "true"@,
            value_type: FieldValueType::Boolean,
            default_value: "false"@,
        })
    } else {
        None
    }
}

/// Whether the field called `name` must be updated on every node.
pub open spec fn cluster_wide_spec(name: Seq<char>) -> bool {
    match field_registry(name) {
        Some(m) => m.scope == FieldScope::ClusterWide,
        None => false,
    }
}

/// Whether `field_name` is a field of the registry.
pub fn field_exists(field_name: &str) -> (found: bool)
    ensures
        found == field_registry(field_name@) is Some,
{
    get_field_metadata(field_name).is_some()
}

/// The metadata of `field_name`, if it is a field of the registry.
pub fn get_field_metadata(field_name: &str) -> (r: Option<FieldMetadata>)
    ensures
        match r {
            Some(m) => field_registry(field_name@) == Some(m@),
            None => field_registry(field_name@) is None,
        },
{
    if str_eq(field_name, "eloq_data_path") {
        return Some(FieldMetadata {
            description: "Path to the data directory for the EloqKV instance",
            scope: FieldScope::NodeSpecific,
            example: "/home/eloq/my_cluster/EloqKV/data/port-6379",
            value_type: FieldValueType::String,
            default_value: "/home/eloq/{cluster}/EloqKV/data/port-{port}",
        });
    }
    if str_eq(field_name, "enable_data_store") {
        return Some(FieldMetadata {
            description: "Whether to enable persistent data storage",
            scope: FieldScope::NodeSpecific,
            example: "true",
            value_type: FieldValueType::Boolean,
            default_value: "true",
        });
    }
    if str_eq(field_name, "enable_wal") {
        return Some(FieldMetadata {
            description: "Whether to enable Write Ahead Log for durability",
            scope: FieldScope::NodeSpecific,
            example: "true",
            value_type: FieldValueType::Boolean,
            default_value: "false",
        });
    }
    if str_eq(field_name, "max_connections") {
        return Some(FieldMetadata {
            description: "Maximum number of client connections",
            scope: FieldScope::NodeSpecific,
            example: "10000",
            value_type: FieldValueType::Integer,
            default_value: "5000",
        });
    }
    if str_eq(field_name, "timeout") {
        return Some(FieldMetadata {
            description: "Client connection timeout in seconds",
            scope: FieldScope::NodeSpecific,
            example: "300",
            value_type: FieldValueType::Integer,
            default_value: "60",
        });
    }
    if str_eq(field_name, "replication_factor") {
        return Some(FieldMetadata {
            description: "Number of replicas for each master",
            scope: FieldScope::ClusterWide,
            example: "2",
            value_type: FieldValueType::Integer,
            default_value: "1",
        });
    }
    if str_eq(field_name, "cluster_name") {
        return Some(FieldMetadata {
            description: "Name of the MonographDB cluster",
            scope: FieldScope::ClusterWide,
            example: "prod-cluster",
            value_type: FieldValueType::String,
            default_value: "default-cluster",
        });
    }
    if str_eq(field_name, "max_memory") {
        return Some(FieldMetadata {
            description: "Maximum memory usage in megabytes",
            scope: FieldScope::NodeSpecific,
            example: "4096",
            value_type: FieldValueType::Integer,
            default_value: "2048",
        });
    }
    if str_eq(field_name, "maxmemory_policy") {
        return Some(FieldMetadata {
            description: "Policy for memory eviction when max memory is reached",
            scope: FieldScope::NodeSpecific,
            example: "volatile-lru",
            value_type: FieldValueType::String,
            default_value: "noeviction",
        });
    }
    if str_eq(field_name, "tls_enabled") {
        return Some(FieldMetadata {
            description: "Whether to enable TLS encryption",
            scope: FieldScope::ClusterWide,
            example: "true",
            value_type: FieldValueType::Boolean,
            default_value: "false",
        });
    }
    if str_eq(field_name, "auth_required") {
        return Some(FieldMetadata {
            description: "Whether authentication is required for connections",
            scope: FieldScope::ClusterWide,
            example: "true",
            value_type: FieldValueType::Boolean,
            default_value: "false",
        });
    }
    None
}

/// Whether `field_name` is a field whose update must reach every node; an
/// unknown field is not.
pub fn is_cluster_wide_field(field_name: &str) -> (wide: bool)
    ensures
        wide == cluster_wide_spec(field_name@),
{
    match get_field_metadata(field_name) {
        Some(metadata) => metadata.scope == FieldScope::ClusterWide,
        None => false,
    }
}

/// A field that must be updated cluster-wide is a field of the registry.
pub proof fn lemma_cluster_wide_field_exists(name: Seq<char>)
    ensures
        cluster_wide_spec(name) ==> field_registry(name) is Some,
{
}

} // verus!
