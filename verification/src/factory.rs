//! Choosing the kind of explorer from its name in the configuration.

use vstd::prelude::*;
use vstd::string::*;

verus! {

/// The kinds of explorer the game can build.
#[derive(Clone, Copy, Debug, PartialEq, Eq, Structural)]
pub enum ExplorerKind {
    Example,
    SamuFaz,
}

/// The ASCII lower-case form of a character.
pub open spec fn ascii_lower(c: char) -> char {
    if 'A' <= c && c <= 'Z' {
        ((c as u32) + 32) as char
    } else {
        c
    }
}

/// The ASCII lower-case form of a text: upper-case ASCII letters become
/// lower-case, every other character stays.
pub open spec fn ascii_lowercase(s: Seq<char>) -> Seq<char> {
    s.map_values(|c: char| ascii_lower(c))
}

fn lower_char(c: char) -> (r: char)
    ensures
        r == ascii_lower(c),
{
    if 'A' <= c && c <= 'Z' {
        let u: u32 = c as u32;
        let v: u8 = (u + 32) as u8;
        v as char
    } else {
        c
    }
}

/// Whether the lower-case form of `name` is `lit`.
fn lowercase_equals(name: &str, lit: &str) -> (r: bool)
    ensures
        r == (ascii_lowercase(name@) == lit@),
{
    let n = name.unicode_len();
    let m = lit.unicode_len();
    if n != m {
        proof {
            assert(ascii_lowercase(name@).len() != lit@.len());
        }
        return false;
    }
    let mut i: usize = 0;
    while i < n
        invariant
            n == name@.len(),
            m == lit@.len(),
            n == m,
            i <= n,
            forall|j: int| 0 <= j < i ==> ascii_lower(#[trigger] name@[j]) == lit@[j],
        decreases n - i,
    {
        let c = lower_char(name.get_char(i));
        if c != lit.get_char(i) {
            proof {
                assert(ascii_lowercase(name@)[i as int] != lit@[i as int]);
            }
            return false;
        }
        i = i + 1;
    }
    proof {
        assert(ascii_lowercase(name@) =~= lit@);
    }
    true
}

/// The kind of explorer a name in the configuration stands for.
pub open spec fn kind_named(name: Seq<char>) -> ExplorerKind {
    if ascii_lowercase(name) == "samufaz"@ {
        ExplorerKind::SamuFaz
    } else {
        ExplorerKind::Example
    }
}

/// Makes explorers by the names used in the configuration.
pub struct ExplorerFactory;

impl ExplorerFactory {
    /// The kind of explorer named `name`, ignoring ASCII case:
    /// "samufaz" names the planning explorer, "example" and every name
    /// not recognized the example explorer.
    pub fn make_from_name(name: &String) -> (k: ExplorerKind)
        ensures
            k == kind_named(name@),
    {
        if lowercase_equals(name.as_str(), "samufaz") {
            ExplorerKind::SamuFaz
        } else {
            ExplorerKind::Example
        }
    }

    /// Whether `name` is one of the names the factory recognizes.
    pub fn is_known_name(name: &String) -> (r: bool)
        ensures
            r == (ascii_lowercase(name@) == "samufaz"@ || ascii_lowercase(name@) == "example"@),
    {
        lowercase_equals(name.as_str(), "samufaz") || lowercase_equals(name.as_str(), "example")
    }
}

/// What was given to an explorer's builder: its id and first planet, and
/// whether each of its channels was.
pub struct BuilderParts {
    pub id: Option<u32>,
    pub current_planet: Option<u32>,
    pub has_orchestrator_rx: bool,
    pub has_orchestrator_tx: bool,
    pub has_planet_rx: bool,
    pub has_current_planet_tx: bool,
}

/// The complaint about the first part missing, in the order the builder
/// checks them; `None` when every part was given.
pub open spec fn first_missing(p: BuilderParts) -> Option<Seq<char>> {
    if p.id is None {
        Some("Explorer ID not set"@)
    } else if !p.has_orchestrator_rx {
        Some("Orchestrator RX channel not set"@)
    } else if !p.has_orchestrator_tx {
        Some("Orchestrator TX channel not set"@)
    } else if !p.has_planet_rx {
        Some("Planet RX channel not set"@)
    } else if p.current_planet is None {
        Some("Current planet ID not set"@)
    } else if !p.has_current_planet_tx {
        Some("Current planet TX channel not set"@)
    } else {
        None
    }
}

impl BuilderParts {
    /// Nothing given yet.
    pub fn new() -> (p: Self)
        ensures
            p.id is None,
            p.current_planet is None,
            !p.has_orchestrator_rx,
            !p.has_orchestrator_tx,
            !p.has_planet_rx,
            !p.has_current_planet_tx,
    {
        BuilderParts {
            id: None,
            current_planet: None,
            has_orchestrator_rx: false,
            has_orchestrator_tx: false,
            has_planet_rx: false,
            has_current_planet_tx: false,
        }
    }

    /// The explorer's id and first planet when every part was given, else
    /// the complaint about the first part missing.
    pub fn check(&self) -> (r: Result<(u32, u32), String>)
        ensures
            match first_missing(*self) {
                Some(msg) => r matches Err(e) && e@ == msg,
                None => r == Ok::<(u32, u32), String>((self.id->0, self.current_planet->0)),
            },
    {
        let text = if self.id.is_none() {
            "Explorer ID not set"
        } else if !self.has_orchestrator_rx {
            "Orchestrator RX channel not set"
        } else if !self.has_orchestrator_tx {
            "Orchestrator TX channel not set"
        } else if !self.has_planet_rx {
            "Planet RX channel not set"
        } else if self.current_planet.is_none() {
            "Current planet ID not set"
        } else if !self.has_current_planet_tx {
            "Current planet TX channel not set"
        } else {
            return Ok((self.id.unwrap(), self.current_planet.unwrap()));
        };
        Err(text.to_string())
    }
}

} // verus!
