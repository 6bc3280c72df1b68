//! The persisted configuration overlay: an ordered list of key–value entries,
//! appended to and never rewritten, read with the last entry for a key
//! winning.

use vstd::prelude::*;
use crate::text::{find_char, first_idx, str_eq};

verus! {

pub struct ConfigEntry {
    pub key: String,
    pub value: String,
}

impl View for ConfigEntry {
    type V = (Seq<char>, Seq<char>);

    open spec fn view(&self) -> (Seq<char>, Seq<char>) {
        (self.key@, self.value@)
    }
}

/// The in-memory image of the persisted key–value file: entries in the order
/// they were appended.
pub struct Config {
    entries: Vec<ConfigEntry>,
}

impl View for Config {
    type V = Seq<(Seq<char>, Seq<char>)>;

    closed spec fn view(&self) -> Seq<(Seq<char>, Seq<char>)> {
        self.entries@.map_values(|e: ConfigEntry| e@)
    }
}

/// The value of the last entry with the given key, if any: a later append
/// overrides an earlier one.
pub open spec fn lookup(cfg: Seq<(Seq<char>, Seq<char>)>, key: Seq<char>) -> Option<Seq<char>>
    decreases cfg.len(),
{
    if cfg.len() == 0 {
        None
    } else if cfg.last().0 == key {
        Some(cfg.last().1)
    } else {
        lookup(cfg.drop_last(), key)
    }
}

impl Config {
    /// An overlay with nothing in it yet.
    pub fn new() -> (r: Config)
        ensures
            r@ == Seq::<(Seq<char>, Seq<char>)>::empty(),
    {
        let c = Config { entries: Vec::new() };
        proof {
            assert(c@ =~~= Seq::<(Seq<char>, Seq<char>)>::empty());
        }
        c
    }

    /// The stored value for `key`: the most recently appended one.
    pub fn get(&self, key: &str) -> (r: Option<&String>)
        ensures
            match r {
                Some(v) => lookup(self@, key@) == Some(v@),
                None => lookup(self@, key@) is None,
            },
    {
        let mut i: usize = self.entries.len();
        proof {
            assert(self@.take(i as int) =~~= self@);
        }
        while i > 0
            invariant
                i <= self.entries.len(),
                lookup(self@, key@) == lookup(self@.take(i as int), key@),
            decreases i,
        {
            i -= 1;
            proof {
                assert(self@[i as int] == self.entries@[i as int]@);
                assert(self@.take(i as int + 1).last() == self@[i as int]);
                assert(self@.take(i as int + 1).drop_last() =~~= self@.take(i as int));
            }
            if str_eq(self.entries[i].key.as_str(), key) {
                return Some(&self.entries[i].value);
            }
        }
        proof {
            assert(self@.take(0) =~~= Seq::<(Seq<char>, Seq<char>)>::empty());
        }
        None
    }

    /// Appends an entry. Earlier entries for the same key stay in place; the
    /// new one shadows them on read.
    pub fn set(&mut self, key: &str, value: &str)
        ensures
            final(self)@ == old(self)@.push((key@, value@)),
    {
        self.entries.push(ConfigEntry { key: key.to_owned(), value: value.to_owned() });
        proof {
            assert(self@ =~~= old(self)@.push((key@, value@)));
        }
    }
}

/// The line that persists one entry: `KEY=VALUE`.
pub fn render_line(key: &str, value: &str) -> (r: String)
    ensures
        r@ == key@ + "="@ + value@,
{
    let mut s = key.to_owned();
    s.append("=");
    s.append(value);
    s
}

/// Reads one line of the persisted file back: the key before the first `=`,
/// the value after it. A line without `=` carries no entry.
pub fn parse_env_line(line: &str) -> (r: Option<(String, String)>)
    ensures
        match r {
            Some(kv) => first_idx(line@, '=') < line@.len() && kv.0@ == line@.subrange(
                0,
                first_idx(line@, '='),
            ) && kv.1@ == line@.subrange(first_idx(line@, '=') + 1, line@.len() as int),
            None => first_idx(line@, '=') == line@.len(),
        },
{
    match find_char(line, '=') {
        Some(j) => {
            let key = line.substring_char(0, j);
            let n = line.unicode_len();
            let value = line.substring_char(j + 1, n);
            Some((key.to_owned(), value.to_owned()))
        },
        None => None,
    }
}

} // verus!
