//! Small helpers.

use vstd::prelude::*;
use crate::paths::{join_path, joined};
use crate::proto::hook::text_of;
use crate::setup::opt_text;
use crate::text::{take_chars, take_of};

verus! {

/// The base directory of a kind of files: the configured one, or else a place
/// below the home directory.
pub open spec fn base_dir(
    configured: Option<Seq<char>>,
    home: Option<Seq<char>>,
    below: Seq<char>,
) -> Option<Seq<char>> {
    match configured {
        Some(dir) => Some(dir),
        None => match home {
            Some(h) => Some(joined(h, below)),
            None => None,
        },
    }
}

fn base_path(configured: Option<&str>, home: Option<&str>, below: &str) -> (r: Option<String>)
    ensures
        text_of(r) == base_dir(opt_text(configured), opt_text(home), below@),
{
    match configured {
        Some(dir) => Some(dir.to_owned()),
        None => match home {
            Some(h) => Some(join_path(h, below)),
            None => None,
        },
    }
}

/// The state directory, from `XDG_STATE_HOME` and `HOME`; `None` where neither
/// is set.
pub fn xdg_state_dir(xdg_state_home: Option<&str>, home: Option<&str>) -> (r: Option<String>)
    ensures
        text_of(r) == base_dir(opt_text(xdg_state_home), opt_text(home), ".local/state"@),
{
    base_path(xdg_state_home, home, ".local/state")
}

/// The configuration directory, from `XDG_CONFIG_HOME` and `HOME`; `None` where
/// neither is set.
pub fn xdg_config_dir(xdg_config_home: Option<&str>, home: Option<&str>) -> (r: Option<String>)
    ensures
        text_of(r) == base_dir(opt_text(xdg_config_home), opt_text(home), ".config"@),
{
    base_path(xdg_config_home, home, ".config")
}

/// A file of the bridge below a base directory.
pub open spec fn bridge_file(base: Option<Seq<char>>, name: Seq<char>) -> Option<Seq<char>> {
    match base {
        Some(dir) => Some(joined(joined(dir, "ccbridge"@), name)),
        None => None,
    }
}

/// A file of the bridge below a base directory.
pub fn bridge_path(base: Option<String>, name: &str) -> (r: Option<String>)
    ensures
        text_of(r) == bridge_file(text_of(base), name@),
{
    match base {
        Some(dir) => {
            let own = join_path(dir.as_str(), "ccbridge");
            Some(join_path(own.as_str(), name))
        },
        None => None,
    }
}

/// The first six characters of an id.
pub fn short_session_id(id: &str) -> (r: String)
    ensures
        r@ == take_of(id@, 6),
{
    take_chars(id, 6)
}

/// Files of the bridge stand in its own directory, in the configured base
/// directory or else in the usual place below the home directory; without either
/// there is no place for them.
pub proof fn law_files_of_the_bridge(
    configured: Seq<char>,
    home: Seq<char>,
    below: Seq<char>,
    name: Seq<char>,
)
    requires
        configured.len() > 0 && configured.last() != '/',
        home.len() > 0 && home.last() != '/',
        below.len() > 0 && below.last() != '/',
    ensures
        bridge_file(base_dir(Some(configured), Some(home), below), name) == Some(
            configured + seq!['/'] + "ccbridge"@ + seq!['/'] + name,
        ),
        bridge_file(base_dir(None, Some(home), below), name) == Some(
            home + seq!['/'] + below + seq!['/'] + "ccbridge"@ + seq!['/'] + name,
        ),
        bridge_file(base_dir(None, None, below), name) is None,
{
    reveal_strlit("/");
    assert("/"@ =~= seq!['/']);
    reveal_strlit("ccbridge");
    assert("ccbridge"@.last() == 'e');
    let a = configured + seq!['/'] + "ccbridge"@;
    assert(a.last() == 'e');
    let b = home + seq!['/'] + below;
    assert(b.last() == below.last());
    let c = b + seq!['/'] + "ccbridge"@;
    assert(c.last() == 'e');
}

} // verus!
