//! Process settings: the store, the environment, the event sink, and the rules
//! by which settings read from the environment become values.

use crate::text::{chars_of, parse_unsigned, unsigned_spec, NumberError};
use vstd::prelude::*;
use vstd::string::*;

verus! {

/// The port served where none is set.
pub const DEFAULT_PORT: u16 = 8081;

/// The store address where none is set.
pub const DEFAULT_DB_URI: &'static str = "redis://127.0.0.1/";

/// The event sink where none is set.
pub const DEFAULT_SINK: &'static str = "http://localhost:31111/";

/// The name that the index page greets.
pub const SERVICE_NAME: &'static str = "world";

#[derive(Debug, Clone, Copy, PartialEq, Eq, Structural)]
pub enum Environment {
    Development,
    Production,
}

/// Where events are published.
#[derive(Debug, Clone)]
pub struct Knative {
    pub sink: String,
}

/// How to reach the document store.
#[derive(Debug, Clone)]
pub struct DbConfig {
    pub uri: String,
    pub user: Option<String>,
    pub pass: Option<String>,
}

#[derive(Debug, Clone)]
pub struct Config {
    pub db: DbConfig,
    pub environment: Environment,
    pub knative: Knative,
    pub name: String,
}

/// `c` in lower case, where it is an ASCII capital.
pub open spec fn ascii_lower(c: char) -> char {
    if 'A' <= c <= 'Z' {
        ((c as u32) + 32) as char
    } else {
        c
    }
}

/// `s` with its ASCII capitals in lower case.
pub open spec fn lower_text(s: Seq<char>) -> Seq<char> {
    Seq::new(s.len(), |i: int| ascii_lower(s[i]))
}

/// The environment that a setting names, case aside: `dev` or `development`,
/// `prod` or `production`; `fallback` for anything else.
pub open spec fn environment_spec(name: Seq<char>, fallback: Environment) -> Environment {
    let l = lower_text(name);
    if l == seq!['d', 'e', 'v'] || l == seq!['d', 'e', 'v', 'e', 'l', 'o', 'p', 'm', 'e', 'n', 't'] {
        Environment::Development
    } else if l == seq!['p', 'r', 'o', 'd'] || l == seq!['p', 'r', 'o', 'd', 'u', 'c', 't', 'i', 'o', 'n'] {
        Environment::Production
    } else {
        fallback
    }
}

fn lower_chars(name: &str) -> (r: Vec<char>)
    ensures
        r@ == lower_text(name@),
{
    let v = chars_of(name);
    let mut r: Vec<char> = Vec::new();
    let mut i: usize = 0;
    while i < v.len()
        invariant
            v@ == name@,
            i <= v@.len(),
            r@ == lower_text(name@).subrange(0, i as int),
        decreases v@.len() - i,
    {
        let c = v[i];
        let l = if 'A' <= c && c <= 'Z' {
            ((c as u32) + 32) as u8 as char
        } else {
            c
        };
        r.push(l);
        i += 1;
    }
    assert(lower_text(name@).subrange(0, v@.len() as int) =~= lower_text(name@));
    r
}

fn is_word(v: &Vec<char>, w: &Vec<char>) -> (r: bool)
    ensures
        r == (v@ == w@),
{
    if v.len() != w.len() {
        return false;
    }
    let mut i: usize = 0;
    while i < v.len()
        invariant
            v@.len() == w@.len(),
            i <= v@.len(),
            forall|j: int| 0 <= j < i ==> v@[j] == w@[j],
        decreases v@.len() - i,
    {
        if v[i] != w[i] {
            return false;
        }
        i += 1;
    }
    assert(v@ =~= w@);
    true
}

/// The environment that `name` names, or `fallback`.
pub fn environment_from_name(name: &str, fallback: Environment) -> (r: Environment)
    ensures
        r == environment_spec(name@, fallback),
{
    let l = lower_chars(name);
    let dev = vec!['d', 'e', 'v'];
    let development = vec!['d', 'e', 'v', 'e', 'l', 'o', 'p', 'm', 'e', 'n', 't'];
    let prod = vec!['p', 'r', 'o', 'd'];
    let production = vec!['p', 'r', 'o', 'd', 'u', 'c', 't', 'i', 'o', 'n'];
    assert(dev@ =~= seq!['d', 'e', 'v']);
    assert(development@ =~= seq!['d', 'e', 'v', 'e', 'l', 'o', 'p', 'm', 'e', 'n', 't']);
    assert(prod@ =~= seq!['p', 'r', 'o', 'd']);
    assert(production@ =~= seq!['p', 'r', 'o', 'd', 'u', 'c', 't', 'i', 'o', 'n']);
    if is_word(&l, &dev) || is_word(&l, &development) {
        Environment::Development
    } else if is_word(&l, &prod) || is_word(&l, &production) {
        Environment::Production
    } else {
        fallback
    }
}

/// A setting's value where it is set, else `default`.
pub fn setting_or(value: Option<String>, default: &str) -> (r: String)
    ensures
        value matches Some(v) ==> r@ == v@,
        value is None ==> r@ == default@,
{
    match value {
        Some(v) => v,
        None => String::from_str(default),
    }
}

/// The port to serve: the setting read as a `u16`, or the default where unset.
pub fn port_from(value: Option<&str>) -> (r: Result<u16, NumberError>)
    ensures
        value is None ==> r == Ok::<u16, NumberError>(DEFAULT_PORT),
        value matches Some(v) ==> (r matches Ok(p) ==> unsigned_spec(v@, u16::MAX as nat) == Ok::<nat, NumberError>(p as nat)),
        value matches Some(v) ==> (r matches Err(e) ==> unsigned_spec(v@, u16::MAX as nat) == Err::<nat, NumberError>(e)),
{
    match value {
        None => Ok(DEFAULT_PORT),
        Some(v) => match parse_unsigned(&chars_of(v), u16::MAX as u64) {
            Ok(p) => Ok(p as u16),
            Err(e) => Err(e),
        },
    }
}

} // verus!
