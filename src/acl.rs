//! Access-control records of MQTT clients and users.
use vstd::prelude::*;
use vstd::string::StringExecFns;

verus! {

#[derive(Debug, PartialEq, PartialOrd, Clone)]
pub struct MQTTAcl {
    pub resource_type: MQTTAclResourceType,
    pub resource_name: String,
    pub topic: String,
    pub ip: String,
    pub action: MQTTAclAction,
    pub permission: MQTTAclPermission,
}

#[derive(Debug, PartialEq, Eq, PartialOrd, Clone, Copy, Structural)]
pub enum MQTTAclResourceType {
    ClientId,
    User,
}

impl MQTTAclResourceType {
    /// `ClientId` or `User`.
    pub fn to_string(&self) -> (r: String)
        ensures
            *self == MQTTAclResourceType::ClientId ==> r@ == "ClientId"@,
            *self == MQTTAclResourceType::User ==> r@ == "User"@,
    {
        match self {
            MQTTAclResourceType::ClientId => String::from_str("ClientId"),
            MQTTAclResourceType::User => String::from_str("User"),
        }
    }
}

#[derive(Debug, PartialEq, Eq, PartialOrd, Clone, Copy, Structural)]
pub enum MQTTAclAction {
    All,
    Subscribe,
    Publish,
    PubSub,
    Retain,
    Qos,
}

#[derive(Debug, PartialEq, Eq, PartialOrd, Clone, Copy, Structural)]
pub enum MQTTAclPermission {
    Allow,
    Deny,
}

} // verus!
