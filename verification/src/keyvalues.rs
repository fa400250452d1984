//! Key/value entries read from the text sections of Octatrack project files,
//! and the typed reading of their values.

use vstd::prelude::*;
use crate::errors::OctatoolErrors;
use crate::strings::{parse_int_text, spec_parse_ranged, str_eq};

verus! {

/// Map of the key/value entries of one section of a project file.
/// Inserting a key that is already present replaces its value.
pub struct KeyValues {
    entries: Vec<(String, String)>,
}

/// The map made by inserting each entry of `s` in order (later entries win).
pub open spec fn entries_map(s: Seq<(String, String)>) -> Map<Seq<char>, Seq<char>>
    decreases s.len(),
{
    if s.len() == 0 {
        Map::empty()
    } else {
        entries_map(s.drop_last()).insert(s.last().0@, s.last().1@)
    }
}

proof fn lemma_entries_map_absent(s: Seq<(String, String)>, k: Seq<char>)
    requires
        forall|j: int| 0 <= j < s.len() ==> (#[trigger] s[j]).0@ != k,
    ensures
        !entries_map(s).contains_key(k),
    decreases s.len(),
{
    if s.len() > 0 {
        assert forall|j: int| 0 <= j < s.drop_last().len() implies (#[trigger] s.drop_last()[j]).0@ != k by {
            assert(s.drop_last()[j] == s[j]);
        }
        lemma_entries_map_absent(s.drop_last(), k);
        assert(s[s.len() - 1].0@ != k);
    }
}

proof fn lemma_entries_map_last(s: Seq<(String, String)>, k: Seq<char>, i: int)
    requires
        0 <= i < s.len(),
        s[i].0@ == k,
        forall|j: int| i < j < s.len() ==> (#[trigger] s[j]).0@ != k,
    ensures
        entries_map(s).contains_key(k),
        entries_map(s)[k] == s[i].1@,
    decreases s.len(),
{
    if i < s.len() - 1 {
        assert forall|j: int| i < j < s.drop_last().len() implies (#[trigger] s.drop_last()[j]).0@ != k by {
            assert(s.drop_last()[j] == s[j]);
        }
        assert(s.drop_last()[i] == s[i]);
        lemma_entries_map_last(s.drop_last(), k, i);
        assert(s[s.len() - 1].0@ != k);
    }
}

impl View for KeyValues {
    type V = Map<Seq<char>, Seq<char>>;

    closed spec fn view(&self) -> Map<Seq<char>, Seq<char>> {
        entries_map(self.entries@)
    }
}

impl KeyValues {
    /// An empty map.
    pub fn new() -> (r: Self)
        ensures
            r@ == Map::<Seq<char>, Seq<char>>::empty(),
    {
        KeyValues { entries: Vec::new() }
    }

    /// Sets `key` to `value`, replacing any value the key had.
    pub fn insert(&mut self, key: String, value: String)
        ensures
            final(self)@ == old(self)@.insert(key@, value@),
    {
        let ghost old_entries = self.entries@;
        self.entries.push((key, value));
        proof {
            assert(self.entries@.drop_last() =~= old_entries);
        }
    }

    /// The value of `key`, if present.
    pub fn get(&self, key: &str) -> (r: Option<&String>)
        ensures
            match r {
                Some(v) => self@.contains_key(key@) && self@[key@] == v@,
                None => !self@.contains_key(key@),
            },
    {
        let mut i = self.entries.len();
        while i > 0
            invariant
                i <= self.entries@.len(),
                forall|j: int| i <= j < self.entries@.len() ==> (#[trigger] self.entries@[j]).0@ != key@,
            decreases i,
        {
            i = i - 1;
            if str_eq(self.entries[i].0.as_str(), key) {
                proof {
                    lemma_entries_map_last(self.entries@, key@, i as int);
                }
                return Some(&self.entries[i].1);
            }
        }
        proof {
            lemma_entries_map_absent(self.entries@, key@);
        }
        None
    }
}

/// The text a lookup of `key` reads: the entry's value, else the default text.
pub open spec fn spec_lookup_text(
    hmap: Map<Seq<char>, Seq<char>>,
    key: Seq<char>,
    default_value: Option<Seq<char>>,
) -> Option<Seq<char>> {
    if hmap.contains_key(key) {
        Some(hmap[key])
    } else {
        default_value
    }
}

/// Typed reading of an entry: the entry's text (or the default text when the
/// key is absent) read as an integer in `lo..=hi`.
pub open spec fn spec_read_value(
    hmap: Map<Seq<char>, Seq<char>>,
    key: Seq<char>,
    default_value: Option<Seq<char>>,
    signed: bool,
    lo: int,
    hi: int,
) -> Result<int, OctatoolErrors> {
    match spec_lookup_text(hmap, key, default_value) {
        None => Err(OctatoolErrors::MissingKeyValue),
        Some(t) => match spec_parse_ranged(t, signed, lo, hi) {
            Some(v) => Ok(v),
            None => Err(OctatoolErrors::InvalidKeyValue),
        },
    }
}

/// Reads the entry `key` (or `default_value` when it is absent) as an integer
/// of a type with values `lo..=hi`.
pub fn parse_hashmap_string_value(
    hmap: &KeyValues,
    key: &str,
    default_value: Option<&str>,
    signed: bool,
    lo: i64,
    hi: i64,
) -> (r: Result<i64, OctatoolErrors>)
    requires
        -0x1_0000_0000 <= lo <= 0 <= hi <= 0x1_0000_0000,
    ensures
        match r {
            Ok(v) => spec_read_value(
                hmap@, key@, match default_value { Some(d) => Some(d@), None => None }, signed, lo as int, hi as int,
            ) == Ok::<int, OctatoolErrors>(v as int),
            Err(e) => spec_read_value(
                hmap@, key@, match default_value { Some(d) => Some(d@), None => None }, signed, lo as int, hi as int,
            ) == Err::<int, OctatoolErrors>(e),
        },
{
    let text: &str = match hmap.get(key) {
        Some(v) => v.as_str(),
        None => match default_value {
            Some(d) => d,
            None => {
                return Err(OctatoolErrors::MissingKeyValue);
            },
        },
    };
    match parse_int_text(text, signed, lo, hi) {
        Some(v) => Ok(v),
        None => Err(OctatoolErrors::InvalidKeyValue),
    }
}

/// Reads the entry `key` as a `u8` flag: `0` is false, `1` is true, any other
/// number is an error.
pub fn parse_hashmap_string_value_bool(
    hmap: &KeyValues,
    key: &str,
    default_value: Option<&str>,
) -> (r: Result<bool, OctatoolErrors>)
    ensures
        match spec_read_value(
            hmap@, key@, match default_value { Some(d) => Some(d@), None => None }, false, 0, 255,
        ) {
            Ok(v) => if v == 0 {
                r == Ok::<bool, OctatoolErrors>(false)
            } else if v == 1 {
                r == Ok::<bool, OctatoolErrors>(true)
            } else {
                r == Err::<bool, OctatoolErrors>(OctatoolErrors::InvalidKeyValue)
            },
            Err(e) => r == Err::<bool, OctatoolErrors>(e),
        },
{
    let v = parse_hashmap_string_value(hmap, key, default_value, false, 0, 255)?;
    if v == 0 {
        Ok(false)
    } else if v == 1 {
        Ok(true)
    } else {
        Err(OctatoolErrors::InvalidKeyValue)
    }
}

} // verus!
