//! Credential resolution: the access token comes from the explicit
//! flag if non-blank, else from the environment value if non-blank,
//! else from an interactive prompt. Every candidate is trimmed, and a
//! blank candidate counts as absent.

use vstd::prelude::*;
use vstd::string::StrSliceExecFns;
use crate::text::{trim_blanks, trimmed};

verus! {

/// The token chosen from the environment value alone.
pub open spec fn chosen_env_token(env: Option<Seq<char>>) -> Option<Seq<char>> {
    match env {
        Some(e) => if trimmed(e).len() > 0 {
            Some(trimmed(e))
        } else {
            None
        },
        None => None,
    }
}

/// The token chosen from the flag and the environment: the flag wins
/// if non-blank, else the environment if non-blank.
pub open spec fn chosen_known_token(flag: Option<Seq<char>>, env: Option<Seq<char>>) -> Option<
    Seq<char>,
> {
    match flag {
        Some(f) => if trimmed(f).len() > 0 {
            Some(trimmed(f))
        } else {
            chosen_env_token(env)
        },
        None => chosen_env_token(env),
    }
}

/// Resolve the token from the flag and the environment, trimmed; when
/// both are absent or blank, the caller falls back to a prompt.
pub fn token_from_flag_or_env(flag: Option<&String>, env: Option<&String>) -> (r: Option<String>)
    ensures
        (match r {
            Some(t) => Some(t@),
            None => None::<Seq<char>>,
        }) == chosen_known_token(
            match flag {
                Some(s) => Some(s@),
                None => None::<Seq<char>>,
            },
            match env {
                Some(s) => Some(s@),
                None => None::<Seq<char>>,
            },
        ),
{
    match flag {
        Some(f) => {
            let t = trim_blanks(f.as_str());
            if t.unicode_len() > 0 {
                return Some(t.to_owned());
            }
        },
        None => {},
    }
    match env {
        Some(e) => {
            let t = trim_blanks(e.as_str());
            if t.unicode_len() > 0 {
                return Some(t.to_owned());
            }
        },
        None => {},
    }
    None
}

/// Resolve the token typed at the prompt, trimmed; blank input is no
/// token, which the caller treats as fatal.
pub fn token_from_prompt(line: &str) -> (r: Option<String>)
    ensures
        r matches Some(t) ==> t@ == trimmed(line@) && trimmed(line@).len() > 0,
        r is None ==> trimmed(line@).len() == 0,
{
    let t = trim_blanks(line);
    if t.unicode_len() > 0 {
        Some(t.to_owned())
    } else {
        None
    }
}

} // verus!
