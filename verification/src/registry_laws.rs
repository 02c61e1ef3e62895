//! What holds of what a node tells the registry and of how it speaks HTTP, said of URLs, members
//! and paths.

use vstd::prelude::*;
use vstd::string::*;

use crate::config::{Config, ConfigView};
use crate::http::{beside, http_settings_of, is_name, is_plain_path, scheme_of};
use crate::http::{FilePlace, HttpSettings, PlaceView};
use crate::json::JsonTree;
use crate::registry::{address_members, base_members, relay_members};
use crate::registry::{guardian_registration, node_listing, node_registration};
use crate::registry::{GetRequest, PutRequest};
use crate::text::{front_pieces, last_piece, short_id_text};
use crate::text_laws::{texts_are_parted_after_the_last_separator, the_last_member_is_looked_up};

verus! {

/// A configuration is seen field by field, with all its relays and all that it guards.
pub proof fn configurations_are_seen(config: Config)
    ensures
        config@.orbitdb_url == config.orbitdb_url@,
        config@.quic_port == config.quic_port,
        config@.port == config.port,
        config.announce_address matches Some(text) ==> config@.announce_address == Some(text@),
        config.announce_address is None ==> config@.announce_address is None,
        config@.relay_urls.len() == config.relay_urls@.len(),
        forall|i: int|
            0 <= i < config.relay_urls@.len() ==> #[trigger] config@.relay_urls[i]
                == config.relay_urls@[i]@,
        config@.guardian_scope.len() == config.guardian_scope@.len(),
        forall|i: int|
            0 <= i < config.guardian_scope@.len() ==> #[trigger] config@.guardian_scope[i] == (
                config.guardian_scope@[i].country@,
                config.guardian_scope@[i].subdivision@,
            ),
        config.wesense_proxy matches Some(text) ==> config@.wesense_proxy == Some(text@),
        config.wesense_proxy is None ==> config@.wesense_proxy is None,
        config@.wesense_proxy_iroh_port == config.wesense_proxy_iroh_port,
        config@.tls_enabled == config.tls_enabled,
        config.tls_certfile matches Some(text) ==> config@.tls_certfile == Some(text@),
        config.tls_certfile is None ==> config@.tls_certfile is None,
{
}

/// Requests are seen field by field.
pub proof fn requests_are_seen(put: PutRequest, get: GetRequest)
    ensures
        put@.url == put.url@,
        put@.body == put.body.tree(),
        put@.timeout_secs == put.timeout_secs,
        get@.url == get.url@,
        get@.timeout_secs == get.timeout_secs,
{
}

/// The names of members are told apart.
proof fn lemma_names_differ()
    ensures
        "iroh_node_id"@ != "iroh_quic_port"@,
        "iroh_node_id"@ != "archive_replicator_port"@,
        "iroh_node_id"@ != "type"@,
        "iroh_node_id"@ != "iroh_address"@,
        "iroh_node_id"@ != "iroh_relay_urls"@,
        "iroh_node_id"@ != "guardian_scope"@,
        "iroh_node_id"@ != "blob_count"@,
        "iroh_quic_port"@ != "archive_replicator_port"@,
        "iroh_quic_port"@ != "type"@,
        "iroh_quic_port"@ != "iroh_address"@,
        "iroh_quic_port"@ != "iroh_relay_urls"@,
        "archive_replicator_port"@ != "type"@,
        "archive_replicator_port"@ != "iroh_address"@,
        "archive_replicator_port"@ != "iroh_relay_urls"@,
        "type"@ != "iroh_address"@,
        "type"@ != "iroh_relay_urls"@,
        "type"@ != "guardian_scope"@,
        "type"@ != "blob_count"@,
        "iroh_address"@ != "iroh_relay_urls"@,
        "guardian_scope"@ != "blob_count"@,
{
    reveal_strlit("iroh_node_id");
    reveal_strlit("iroh_quic_port");
    reveal_strlit("archive_replicator_port");
    reveal_strlit("type");
    reveal_strlit("iroh_address");
    reveal_strlit("iroh_relay_urls");
    reveal_strlit("guardian_scope");
    reveal_strlit("blob_count");
    assert("iroh_node_id"@.len() == 12 && "iroh_node_id"@[5] == 'n');
    assert("iroh_address"@.len() == 12 && "iroh_address"@[5] == 'a');
    assert("iroh_quic_port"@.len() == 14);
    assert("iroh_relay_urls"@.len() == 15);
    assert("archive_replicator_port"@.len() == 23);
    assert("type"@.len() == 4);
    assert("guardian_scope"@.len() == 14);
    assert("blob_count"@.len() == 10);
}

/// The member at a place where no later one has its name.
proof fn lemma_member_at(members: Seq<(Seq<char>, JsonTree)>, i: int)
    requires
        0 <= i < members.len(),
        forall|j: int| i < j < members.len() ==> (#[trigger] members[j]).0 != members[i].0,
    ensures
        JsonTree::Object(members).member(members[i].0) == members[i].1,
{
    the_last_member_is_looked_up(members, members[i].0);
    assert(members[i].0 == members[i].0);
}

/// A node registers under its own name what others need of it: its ID, its ports and its type
/// always; its address exactly where it has one and stands behind no proxy; its relays, all of
/// them and in their order, exactly where it has any; and nothing else.
pub proof fn registrations_say_what_a_node_is(config: ConfigView, node_id: Seq<char>)
    ensures
        ({
            let request = node_registration(config, node_id);
            let body = request.body;
            &&& request.url == config.orbitdb_url + "/nodes/archive-replicator-"@ + short_id_text(
                node_id,
            )
            &&& request.timeout_secs == 10
            &&& body.member("iroh_node_id"@) == JsonTree::Text(node_id)
            &&& body.member("iroh_quic_port"@) == JsonTree::Number(Some(config.quic_port as u64))
            &&& body.member("archive_replicator_port"@) == JsonTree::Number(
                Some(config.port as u64),
            )
            &&& body.member("type"@) == JsonTree::Text("archive-replicator"@)
            &&& config.wesense_proxy is None && config.announce_address is Some ==> body.member(
                "iroh_address"@,
            ) == JsonTree::Text(config.announce_address->0)
            &&& config.wesense_proxy is Some || config.announce_address is None ==> body.member(
                "iroh_address"@,
            ) == JsonTree::Null
            &&& config.relay_urls.len() > 0 ==> body.member("iroh_relay_urls"@) is List
                && body.member("iroh_relay_urls"@)->List_0.len() == config.relay_urls.len() && (
            forall|i: int|
                0 <= i < config.relay_urls.len() ==> #[trigger] body.member(
                    "iroh_relay_urls"@,
                )->List_0[i] == JsonTree::Text(config.relay_urls[i]))
            &&& config.relay_urls.len() == 0 ==> body.member("iroh_relay_urls"@) == JsonTree::Null
            &&& forall|key: Seq<char>|
                key != "iroh_node_id"@ && key != "iroh_quic_port"@ && key
                    != "archive_replicator_port"@ && key != "type"@ && key != "iroh_address"@ && key
                    != "iroh_relay_urls"@ ==> #[trigger] body.member(key) == JsonTree::Null
        }),
{
    lemma_names_differ();
    reveal_strlit("/nodes/");
    reveal_strlit("archive-replicator-");
    reveal_strlit("/nodes/archive-replicator-");
    let request = node_registration(config, node_id);
    assert("/nodes/archive-replicator-"@ =~= "/nodes/"@ + "archive-replicator-"@);
    assert(request.url =~= config.orbitdb_url + "/nodes/archive-replicator-"@ + short_id_text(
        node_id,
    ));
    let base = base_members(config, node_id);
    let members = base + address_members(config) + relay_members(config);
    assert(request.body == JsonTree::Object(members));
    assert(members[0] == base[0] && members[1] == base[1] && members[2] == base[2] && members[3]
        == base[3]);
    lemma_member_at(members, 0);
    lemma_member_at(members, 1);
    lemma_member_at(members, 2);
    lemma_member_at(members, 3);
    let a = address_members(config).len() as int;
    if a > 0 {
        assert(members[4] == address_members(config)[0]);
        lemma_member_at(members, 4);
    } else {
        the_last_member_is_looked_up(members, "iroh_address"@);
    }
    if relay_members(config).len() > 0 {
        assert(members[4 + a] == relay_members(config)[0]);
        lemma_member_at(members, 4 + a);
    } else {
        the_last_member_is_looked_up(members, "iroh_relay_urls"@);
    }
    assert forall|key: Seq<char>|
        key != "iroh_node_id"@ && key != "iroh_quic_port"@ && key != "archive_replicator_port"@
            && key != "type"@ && key != "iroh_address"@ && key
            != "iroh_relay_urls"@ implies #[trigger] request.body.member(key)
        == JsonTree::Null by {
        the_last_member_is_looked_up(members, key);
    }
}

/// A guardian registers under its own name how many blobs it holds, whatever their number, who it
/// is, and each of its scopes as `country/subdivision`, all of them and in their order.
pub proof fn guardians_say_what_they_guard(
    config: ConfigView,
    node_id: Seq<char>,
    blob_count: usize,
)
    ensures
        ({
            let request = guardian_registration(config, node_id, blob_count);
            let body = request.body;
            &&& request.url == config.orbitdb_url + "/stores/archive-replicator-"@ + short_id_text(
                node_id,
            )
            &&& request.timeout_secs == 10
            &&& body.member("blob_count"@).unsigned() == Some(blob_count as u64)
            &&& body.member("iroh_node_id"@).text() == Some(node_id)
            &&& body.member("type"@).text() == Some("archive-replicator"@)
            &&& body.member("guardian_scope"@).items() is Some
            &&& body.member("guardian_scope"@).items()->0.len() == config.guardian_scope.len()
            &&& forall|i: int|
                0 <= i < config.guardian_scope.len() ==> (#[trigger] body.member(
                    "guardian_scope"@,
                ).items()->0[i]).text() == Some(
                    config.guardian_scope[i].0 + "/"@ + config.guardian_scope[i].1,
                )
            &&& forall|key: Seq<char>|
                key != "blob_count"@ && key != "iroh_node_id"@ && key != "type"@ && key
                    != "guardian_scope"@ ==> #[trigger] body.member(key) == JsonTree::Null
        }),
{
    lemma_names_differ();
    reveal_strlit("/stores/");
    reveal_strlit("archive-replicator-");
    reveal_strlit("/stores/archive-replicator-");
    let request = guardian_registration(config, node_id, blob_count);
    assert("/stores/archive-replicator-"@ =~= "/stores/"@ + "archive-replicator-"@);
    assert(request.url =~= config.orbitdb_url + "/stores/archive-replicator-"@ + short_id_text(
        node_id,
    ));
    let members = request.body->Object_0;
    assert(request.body == JsonTree::Object(members));
    assert(members.len() == 4);
    lemma_member_at(members, 0);
    lemma_member_at(members, 1);
    lemma_member_at(members, 2);
    lemma_member_at(members, 3);
    assert forall|key: Seq<char>|
        key != "blob_count"@ && key != "iroh_node_id"@ && key != "type"@ && key
            != "guardian_scope"@ implies #[trigger] request.body.member(key) == JsonTree::Null by {
        the_last_member_is_looked_up(members, key);
    }
}

/// The nodes are listed at one place of the registry.
pub proof fn nodes_are_listed_at_their_place(config: ConfigView)
    ensures
        node_listing(config).url == config.orbitdb_url + "/nodes"@,
        node_listing(config).timeout_secs == 10,
{
}

/// Without TLS host names are verified as usual and no authority is added; with it, they are not,
/// and there is an authority exactly where there is a certificate file.
pub proof fn tls_decides_about_host_names(config: ConfigView)
    ensures
        scheme_of(false) == "http"@,
        scheme_of(true) == "https"@,
        http_settings_of(config).accept_invalid_hostnames <==> config.tls_enabled,
        http_settings_of(config).authority is Some <==> config.tls_enabled
            && config.tls_certfile is Some,
        config.tls_enabled ==> (config.tls_certfile matches Some(file) ==> http_settings_of(
            config,
        ).authority == Some(beside(file, "ca.pem"@))),
{
}

/// Settings and places are seen as they are.
pub proof fn settings_are_seen(settings: HttpSettings, path: String, file: String, name: String)
    ensures
        settings@.accept_invalid_hostnames == settings.accept_invalid_hostnames,
        settings.authority matches Some(place) ==> settings@.authority == Some(place@),
        settings.authority is None ==> settings@.authority is None,
        FilePlace::At(path)@ == PlaceView::At(path@),
        (FilePlace::Beside { file, name })@ == (PlaceView::Beside { file: file@, name: name@ }),
{
}

/// A text is parted in only one way into what ends with a separator and what has none.
proof fn lemma_parts(front: Seq<char>, last: Seq<char>, sep: char)
    requires
        front.len() > 0 ==> front.last() == sep,
        !last.contains(sep),
    ensures
        front_pieces(front + last, sep) == front,
        last_piece(front + last, sep) == last,
{
    let text = front + last;
    texts_are_parted_after_the_last_separator(text, sep);
    let other = front_pieces(text, sep);
    let rest = last_piece(text, sep);
    if other.len() > front.len() {
        assert(other.last() == text[other.len() - 1]);
        assert(text[other.len() - 1] == last[other.len() - 1 - front.len()]);
        assert(last.contains(sep));
    }
    if other.len() < front.len() {
        assert(front.last() == text[front.len() - 1]);
        assert(text[front.len() - 1] == rest[front.len() - 1 - other.len()]);
        assert(rest.contains(sep));
    }
    assert(other =~= front);
    assert(rest =~= last);
}

/// Whether a piece of a path is a name in which no platform sees a separator.
pub open spec fn is_plain_name(piece: Seq<char>) -> bool {
    &&& piece.len() > 0
    &&& piece != seq!['.']
    &&& !piece.contains('/')
    &&& !piece.contains('\\')
    &&& !piece.contains(':')
}

/// A file beside one in the directory `above + directory` lies in that directory, and one beside a
/// file that names no directory lies beside it without one. `above` is empty or ends with `/`.
pub proof fn neighbours_lie_in_the_same_directory(
    above: Seq<char>,
    directory: Seq<char>,
    file: Seq<char>,
    name: Seq<char>,
)
    requires
        is_plain_name(file),
        is_plain_name(directory),
        above.len() > 0 ==> above.last() == '/',
        !above.contains('\\'),
        !above.contains(':'),
        !(above.len() >= 2 && above[0] == '/' && above[1] == '/'),
    ensures
        beside(above + directory + "/"@ + file, name) == PlaceView::At(
            above + directory + "/"@ + name,
        ),
        beside("/"@ + file, name) == PlaceView::At("/"@ + name),
        beside(file, name) == PlaceView::At(name),
{
    reveal_strlit("/");
    reveal_strlit(".");
    reveal_strlit("//");
    assert("."@ =~= seq!['.']);
    let inner = above + directory;
    let front = inner + "/"@;
    let path = front + file;
    lemma_parts(front, file, '/');
    assert(front.drop_last() =~= inner);
    lemma_parts(above, directory, '/');
    assert forall|c: char| c == '\\' || c == ':' implies !(#[trigger] path.contains(c)) by {
        if path.contains(c) {
            let i = choose|i: int| 0 <= i < path.len() && path[i] == c;
            if i < above.len() {
                assert(above[i] == c);
            } else if i < inner.len() {
                assert(directory[i - above.len()] == c);
            } else if i > inner.len() {
                assert(file[i - front.len()] == c);
            }
        }
    }
    if "//"@.is_prefix_of(path) {
        assert("//"@ =~= path.subrange(0, 2));
        assert(path[0] == "//"@[0] && path[1] == "//"@[1]);
        if above.len() == 0 {
            assert(path[0] == directory[0]);
            assert(directory.contains('/'));
        } else if above.len() == 1 {
            assert(path[1] == directory[0]);
            assert(directory.contains('/'));
        } else {
            assert(path[0] == above[0] && path[1] == above[1]);
        }
    }
    assert(is_plain_path(path));
    assert(above + directory + "/"@ + file =~= path);
    let rooted = "/"@ + file;
    lemma_parts("/"@, file, '/');
    assert forall|c: char| c == '\\' || c == ':' implies !(#[trigger] rooted.contains(c)) by {
        if rooted.contains(c) {
            let i = choose|i: int| 0 <= i < rooted.len() && rooted[i] == c;
            if i > 0 {
                assert(file[i - 1] == c);
            }
        }
    }
    if "//"@.is_prefix_of(rooted) {
        assert("//"@ =~= rooted.subrange(0, 2));
        assert(rooted[1] == "//"@[1]);
        assert(rooted[1] == file[0]);
        assert(file.contains('/'));
    }
    assert(is_plain_path(rooted));
    let nothing = Seq::<char>::empty();
    lemma_parts(nothing, file, '/');
    assert(nothing + file =~= file);
    if "//"@.is_prefix_of(file) {
        assert("//"@ =~= file.subrange(0, 2));
        assert(file[0] == "//"@[0]);
        assert(file.contains('/'));
    }
    assert(is_plain_path(file));
    assert(nothing + name =~= name);
}

/// A file beside another is given by its path or by the other file as it is; and it is never given
/// by a path where the other has a separator of another platform in it, begins with two, ends with
/// `/` or `/.`, is empty, or has nothing or a `.` for its directory.
pub proof fn other_paths_are_left_to_the_platform(file: Seq<char>, name: Seq<char>)
    ensures
        beside(file, name) is Beside ==> beside(file, name) == (PlaceView::Beside { file, name }),
        beside(file, name) is At ==> beside(file, name)->At_0 == front_pieces(file, '/') + name,
        file.contains('\\') || file.contains(':') || file.len() == 0 || file.last() == '/'
            || last_piece(file, '/') == seq!['.'] ==> beside(file, name) is Beside,
        file.len() >= 2 && file[0] == '/' && file[1] == '/' ==> beside(file, name) is Beside,
        front_pieces(file, '/').len() > 1 && (last_piece(
            front_pieces(file, '/').drop_last(),
            '/',
        ).len() == 0 || last_piece(front_pieces(file, '/').drop_last(), '/') == seq!['.'])
            ==> beside(file, name) is Beside,
        is_name(last_piece(file, '/')) <==> last_piece(file, '/').len() > 0 && last_piece(file, '/')
            != seq!['.'],
{
    reveal_strlit(".");
    reveal_strlit("//");
    assert("."@ =~= seq!['.']);
    if file.len() >= 2 && file[0] == '/' && file[1] == '/' {
        assert("//"@ =~= file.subrange(0, 2));
    }
    texts_are_parted_after_the_last_separator(file, '/');
    if file.len() > 0 && file.last() == '/' {
        if last_piece(file, '/').len() > 0 {
            assert(file.last() == last_piece(file, '/').last());
            assert(last_piece(file, '/').contains('/'));
        }
    }
}

} // verus!
