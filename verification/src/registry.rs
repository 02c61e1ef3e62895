//! The requests by which a node makes itself known to the registry.

use vstd::prelude::*;
use vstd::string::*;

use crate::config::{Config, ConfigView};
use crate::json::{Json, JsonTree};
use crate::text::{has_short_id, short_id, short_id_text, texts};

verus! {

/// The type under which nodes of this kind register.
pub const NODE_TYPE: &'static str = "archive-replicator";

/// Seconds after which a request to the registry is given up.
pub const REGISTRY_TIMEOUT_SECS: u64 = 10;

/// A request to put a document somewhere.
#[derive(Debug)]
pub struct PutRequest {
    pub url: String,
    pub body: Json,
    pub timeout_secs: u64,
}

/// A request to get what stands somewhere.
#[derive(Debug)]
pub struct GetRequest {
    pub url: String,
    pub timeout_secs: u64,
}

/// The mathematical form of a `PutRequest`.
pub struct PutView {
    pub url: Seq<char>,
    pub body: JsonTree,
    pub timeout_secs: u64,
}

/// The mathematical form of a `GetRequest`.
pub struct GetView {
    pub url: Seq<char>,
    pub timeout_secs: u64,
}

impl View for PutRequest {
    type V = PutView;

    open spec fn view(&self) -> PutView {
        PutView { url: self.url@, body: self.body.tree(), timeout_secs: self.timeout_secs }
    }
}

impl View for GetRequest {
    type V = GetView;

    open spec fn view(&self) -> GetView {
        GetView { url: self.url@, timeout_secs: self.timeout_secs }
    }
}

/// The name under which a node registers.
pub open spec fn registry_name(node_id: Seq<char>) -> Seq<char> {
    "archive-replicator-"@ + short_id_text(node_id)
}

/// The array of strings with the given texts.
pub open spec fn text_list(list: Seq<Seq<char>>) -> JsonTree {
    JsonTree::List(list.map_values(|text: Seq<char>| JsonTree::Text(text)))
}

/// The members that every registration of a node has.
pub open spec fn base_members(config: ConfigView, node_id: Seq<char>) -> Seq<
    (Seq<char>, JsonTree),
> {
    seq![
        ("iroh_node_id"@, JsonTree::Text(node_id)),
        ("iroh_quic_port"@, JsonTree::Number(Some(config.quic_port as u64))),
        ("archive_replicator_port"@, JsonTree::Number(Some(config.port as u64))),
        ("type"@, JsonTree::Text(NODE_TYPE@)),
    ]
}

/// The member that gives the address of a node. One behind a proxy is not directly reachable and
/// gives none.
pub open spec fn address_members(config: ConfigView) -> Seq<(Seq<char>, JsonTree)> {
    if config.wesense_proxy is None && config.announce_address is Some {
        seq![("iroh_address"@, JsonTree::Text(config.announce_address->0))]
    } else {
        Seq::empty()
    }
}

/// The member that gives the relays of a node, where there are any.
pub open spec fn relay_members(config: ConfigView) -> Seq<(Seq<char>, JsonTree)> {
    if config.relay_urls.len() > 0 {
        seq![("iroh_relay_urls"@, text_list(config.relay_urls))]
    } else {
        Seq::empty()
    }
}

/// The request by which a node registers.
pub open spec fn node_registration(config: ConfigView, node_id: Seq<char>) -> PutView {
    PutView {
        url: config.orbitdb_url + "/nodes/"@ + registry_name(node_id),
        body: JsonTree::Object(
            base_members(config, node_id) + address_members(config) + relay_members(config),
        ),
        timeout_secs: REGISTRY_TIMEOUT_SECS,
    }
}

/// The scopes of a guardian, each as `country/subdivision`.
pub open spec fn scope_texts(scope: Seq<(Seq<char>, Seq<char>)>) -> Seq<Seq<char>> {
    scope.map_values(|pattern: (Seq<char>, Seq<char>)| pattern.0 + "/"@ + pattern.1)
}

/// The request by which a node registers what it guards.
pub open spec fn guardian_registration(
    config: ConfigView,
    node_id: Seq<char>,
    blob_count: usize,
) -> PutView {
    PutView {
        url: config.orbitdb_url + "/stores/"@ + registry_name(node_id),
        body: JsonTree::Object(
            seq![
                ("guardian_scope"@, text_list(scope_texts(config.guardian_scope))),
                ("blob_count"@, JsonTree::Number(Some(blob_count as u64))),
                ("iroh_node_id"@, JsonTree::Text(node_id)),
                ("type"@, JsonTree::Text(NODE_TYPE@)),
            ],
        ),
        timeout_secs: REGISTRY_TIMEOUT_SECS,
    }
}

/// The request by which the registered nodes are listed.
pub open spec fn node_listing(config: ConfigView) -> GetView {
    GetView { url: config.orbitdb_url + "/nodes"@, timeout_secs: REGISTRY_TIMEOUT_SECS }
}

/// The members of an object, by their mathematical forms.
spec fn member_trees(members: Seq<(String, Json)>) -> Seq<(Seq<char>, JsonTree)> {
    members.map_values(|member: (String, Json)| (member.0@, member.1.tree()))
}

/// An object has the members that it was made of.
proof fn lemma_object_tree(members: Vec<(String, Json)>)
    ensures
        Json::Object(members).tree() == JsonTree::Object(member_trees(members@)),
{
    assert(Json::Object(members).tree()->Object_0 =~= member_trees(members@));
}

/// Adds a member to an object in the making.
fn add_member(members: &mut Vec<(String, Json)>, name: &str, value: Json)
    ensures
        member_trees(final(members)@) == member_trees(old(members)@).push((name@, value.tree())),
{
    members.push((name.to_owned(), value));
    assert(member_trees(members@) =~= member_trees(old(members)@).push((name@, value.tree())));
}

/// The array of the given strings.
fn string_list(list: &Vec<String>) -> (json: Json)
    ensures
        json.tree() == text_list(texts(list@)),
{
    let mut items: Vec<Json> = Vec::new();
    for i in 0..list.len()
        invariant
            items@.len() == i,
            forall|k: int|
                0 <= k < i ==> (#[trigger] items@[k]).tree() == JsonTree::Text(list@[k]@),
    {
        items.push(Json::Text(list[i].clone()));
    }
    let json = Json::List(items);
    assert(json.tree()->List_0 =~= text_list(texts(list@))->List_0);
    json
}

/// The URL of something that the registry keeps of this node.
fn own_url(config: &Config, collection: &str, node_id: &str) -> (url: String)
    requires
        has_short_id(node_id@),
    ensures
        url@ == config@.orbitdb_url + collection@ + registry_name(node_id@),
{
    let mut url = config.orbitdb_url.clone();
    url.append(collection);
    url.append("archive-replicator-");
    url.append(short_id(node_id));
    assert(url@ =~= config@.orbitdb_url + collection@ + registry_name(node_id@));
    url
}

/// The request by which this node registers.
pub fn register_node(config: &Config, node_id: &str) -> (request: PutRequest)
    requires
        has_short_id(node_id@),
    ensures
        request@ == node_registration(config@, node_id@),
{
    let mut members: Vec<(String, Json)> = Vec::new();
    add_member(&mut members, "iroh_node_id", Json::Text(node_id.to_owned()));
    add_member(&mut members, "iroh_quic_port", Json::Number(Some(config.quic_port as u64)));
    add_member(&mut members, "archive_replicator_port", Json::Number(Some(config.port as u64)));
    add_member(&mut members, "type", Json::Text(NODE_TYPE.to_owned()));
    assert(member_trees(members@) =~= base_members(config@, node_id@));
    if config.wesense_proxy.is_none() {
        if let Some(address) = &config.announce_address {
            add_member(&mut members, "iroh_address", Json::Text(address.clone()));
        }
    }
    assert(member_trees(members@) =~= base_members(config@, node_id@) + address_members(config@));
    if config.relay_urls.len() > 0 {
        add_member(&mut members, "iroh_relay_urls", string_list(&config.relay_urls));
    }
    assert(member_trees(members@) =~= base_members(config@, node_id@) + address_members(config@)
        + relay_members(config@));
    proof {
        lemma_object_tree(members);
    }
    PutRequest {
        url: own_url(config, "/nodes/", node_id),
        body: Json::Object(members),
        timeout_secs: REGISTRY_TIMEOUT_SECS,
    }
}

/// The request by which this node registers what it guards.
pub fn register_guardian_scope(config: &Config, node_id: &str, blob_count: usize) -> (request:
    PutRequest)
    requires
        has_short_id(node_id@),
    ensures
        request@ == guardian_registration(config@, node_id@, blob_count),
{
    let mut scope: Vec<String> = Vec::new();
    for i in 0..config.guardian_scope.len()
        invariant
            scope@.len() == i,
            config@.guardian_scope.len() == config.guardian_scope@.len(),
            forall|k: int|
                0 <= k < i ==> (#[trigger] scope@[k])@ == scope_texts(config@.guardian_scope)[k],
    {
        let pattern = &config.guardian_scope[i];
        let mut text = pattern.country.clone();
        text.append("/");
        text.append(pattern.subdivision.as_str());
        proof {
            assert(config@.guardian_scope[i as int] == (pattern.country@, pattern.subdivision@));
            assert(scope_texts(config@.guardian_scope)[i as int] == text@);
        }
        scope.push(text);
    }
    assert(texts(scope@) =~= scope_texts(config@.guardian_scope));
    let mut members: Vec<(String, Json)> = Vec::new();
    add_member(&mut members, "guardian_scope", string_list(&scope));
    add_member(&mut members, "blob_count", Json::Number(Some(blob_count as u64)));
    add_member(&mut members, "iroh_node_id", Json::Text(node_id.to_owned()));
    add_member(&mut members, "type", Json::Text(NODE_TYPE.to_owned()));
    proof {
        assert(member_trees(members@) =~= guardian_registration(
            config@,
            node_id@,
            blob_count,
        ).body->Object_0);
        lemma_object_tree(members);
    }
    PutRequest {
        url: own_url(config, "/stores/", node_id),
        body: Json::Object(members),
        timeout_secs: REGISTRY_TIMEOUT_SECS,
    }
}

/// The request by which the registered nodes are listed.
pub fn list_nodes(config: &Config) -> (request: GetRequest)
    ensures
        request@ == node_listing(config@),
{
    let mut url = config.orbitdb_url.clone();
    url.append("/nodes");
    GetRequest { url, timeout_secs: REGISTRY_TIMEOUT_SECS }
}

} // verus!
