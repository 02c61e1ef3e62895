//! How HTTP is spoken to the registry, the proxy and the peers.

use vstd::prelude::*;
use vstd::string::*;

use crate::config::{Config, ConfigView};
use crate::text::{contains_char, front_pieces, last_piece, same_text, split_last, starts_with};

verus! {

/// The file name of the certificate of the deployment's authority.
pub const CA_FILE: &'static str = "ca.pem";

/// The scheme of URLs.
pub open spec fn scheme_of(tls_enabled: bool) -> Seq<char> {
    if tls_enabled {
        "https"@
    } else {
        "http"@
    }
}

/// The scheme of URLs.
pub fn scheme(tls_enabled: bool) -> (text: String)
    ensures
        text@ == scheme_of(tls_enabled),
{
    if tls_enabled {
        "https".to_owned()
    } else {
        "http".to_owned()
    }
}

/// A file.
#[derive(Debug)]
pub enum FilePlace {
    /// The one at this path.
    At(String),
    /// The one called `name` in the directory of `file`, which is up to the platform to find.
    Beside { file: String, name: String },
}

/// The mathematical form of a `FilePlace`.
pub enum PlaceView {
    At(Seq<char>),
    Beside { file: Seq<char>, name: Seq<char> },
}

impl View for FilePlace {
    type V = PlaceView;

    open spec fn view(&self) -> PlaceView {
        match self {
            FilePlace::At(path) => PlaceView::At(path@),
            FilePlace::Beside { file, name } => PlaceView::Beside { file: file@, name: name@ },
        }
    }
}

/// Whether a piece of a path names something of its own.
pub open spec fn is_name(piece: Seq<char>) -> bool {
    piece.len() > 0 && piece != "."@
}

/// Whether every platform takes the directory of `path` for what stands before the last `/`: no
/// other separator occurs in it, it does not begin with two, and both what stands after that `/`
/// and what stands before it are names. In the root, and where there is no `/`, nothing stands
/// before it.
pub open spec fn is_plain_path(path: Seq<char>) -> bool {
    let front = front_pieces(path, '/');
    &&& !path.contains('\\')
    &&& !path.contains(':')
    &&& !"//"@.is_prefix_of(path)
    &&& is_name(last_piece(path, '/'))
    &&& front.len() <= 1 || is_name(last_piece(front.drop_last(), '/'))
}

/// The file called `name` in the directory of `file`.
pub open spec fn beside(file: Seq<char>, name: Seq<char>) -> PlaceView {
    if is_plain_path(file) {
        PlaceView::At(front_pieces(file, '/') + name)
    } else {
        PlaceView::Beside { file, name }
    }
}

/// Whether a piece of a path names something of its own.
fn names_something(piece: &str) -> (result: bool)
    ensures
        result == is_name(piece@),
{
    !piece.is_empty() && !same_text(piece, ".")
}

/// The file called `name` in the directory of `file`.
pub fn neighbour(file: &str, name: &str) -> (place: FilePlace)
    ensures
        place@ == beside(file@, name@),
{
    let (mut front, last) = split_last(file, '/');
    let mut plain: bool = !contains_char(file, '\\') && !contains_char(file, ':') && !starts_with(
        file,
        "//",
    ) && names_something(last.as_str());
    let (several, inner) = without_last(front.as_str());
    if several {
        let (_above, directory) = split_last(inner.as_str(), '/');
        plain = plain && names_something(directory.as_str());
    }
    if plain {
        front.append(name);
        FilePlace::At(front)
    } else {
        FilePlace::Beside { file: file.to_owned(), name: name.to_owned() }
    }
}

/// Whether there is more than one character, and all but the last of them.
fn without_last(text: &str) -> (result: (bool, String))
    ensures
        result.0 == (text@.len() > 1),
        result.0 ==> result.1@ == text@.drop_last(),
{
    let mut done = String::new();
    let mut held: Option<char> = None;
    let mut several: bool = false;
    for c in it: text.chars()
        invariant
            it.seq() == text@,
            several == (it.index() > 1),
            match held {
                Some(h) => it.index() > 0 && done@.push(h) == text@.take(it.index() as int),
                None => it.index() == 0 && done@.len() == 0,
            },
    {
        let ghost at = it.index() as int;
        match held {
            Some(h) => {
                done.push(h);
                several = true;
            },
            None => {},
        }
        held = Some(c);
        assert(done@ =~= text@.take(at));
        assert(done@.push(c) =~= text@.take(at + 1));
    }
    proof {
        if several {
            assert(text@.take(text@.len() as int) =~= text@);
            assert(done@ =~= text@.drop_last());
        }
    }
    (several, done)
}

/// How the HTTP client is to be set up.
#[derive(Debug)]
pub struct HttpSettings {
    /// Whether host names are left unverified: the proxy is reached by an address that its
    /// certificate does not name.
    pub accept_invalid_hostnames: bool,
    /// The certificate to trust besides the usual ones, where the file can be read.
    pub authority: Option<FilePlace>,
}

/// The mathematical form of `HttpSettings`.
pub struct SettingsView {
    pub accept_invalid_hostnames: bool,
    pub authority: Option<PlaceView>,
}

impl View for HttpSettings {
    type V = SettingsView;

    open spec fn view(&self) -> SettingsView {
        SettingsView {
            accept_invalid_hostnames: self.accept_invalid_hostnames,
            authority: match self.authority {
                Some(place) => Some(place@),
                None => None,
            },
        }
    }
}

/// The settings that follow from a configuration: without TLS there is nothing to set; with it,
/// host names are not verified, and the authority lies beside the node's own certificate.
pub open spec fn http_settings_of(config: ConfigView) -> SettingsView {
    SettingsView {
        accept_invalid_hostnames: config.tls_enabled,
        authority: if config.tls_enabled && config.tls_certfile is Some {
            Some(beside(config.tls_certfile->0, CA_FILE@))
        } else {
            None
        },
    }
}

/// How the HTTP client is to be set up.
pub fn http_settings(config: &Config) -> (settings: HttpSettings)
    ensures
        settings@ == http_settings_of(config@),
{
    let authority: Option<FilePlace> = match &config.tls_certfile {
        Some(file) => if config.tls_enabled {
            Some(neighbour(file.as_str(), CA_FILE))
        } else {
            None
        },
        None => None,
    };
    HttpSettings { accept_invalid_hostnames: config.tls_enabled, authority }
}

} // verus!
